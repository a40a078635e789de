//! Tests of the option set, the request builders, responder decoding, and
//! synth operations.

use sc_client::{
    decode_datagram, AddAction, ControlValueResponder, DumpOscMode, Endpoint, Message, NodeValue,
    Options, OscType, ScClientError, ScErrorKind, ScServerErrorMode, Server, StatusResponder,
    Synth, SynthDefinition, VersionResponder,
};

fn endpoints() -> (Endpoint, Endpoint) {
    (Endpoint::new(127, 0, 0, 1, 4243), Endpoint::new(127, 0, 0, 1, 57120))
}

fn msg(addr: &str, args: Vec<OscType>) -> Message {
    Message { addr: addr.to_string(), args }
}

fn new_server() -> Server {
    let (client, server) = endpoints();
    Server::new(Options::default(), client, server)
}

fn queued_messages(server: &mut Server) -> Vec<Message> {
    let mut all = Vec::new();
    for datagram in server.osc_server.take_outgoing() {
        all.extend(decode_datagram(&datagram).expect("queued datagram must decode"));
    }
    all
}

#[test]
fn get_ugen_plugins_path_as_argument_str() {
    let mut options = Options::default();
    options.ugen_plugins_path = Some(vec![
        "/foo/bar".to_string(),
        "/home/ugens".to_string(),
        "/some/more".to_string(),
    ]);
    assert_eq!(
        Some(String::from("/foo/bar:/home/ugens:/some/more")),
        options.parse_ugen_plugins_path()
    );

    options.ugen_plugins_path = Some(vec!["/foo/bar".to_string()]);
    assert_eq!(Some(String::from("/foo/bar")), options.parse_ugen_plugins_path());

    options.ugen_plugins_path = Some(vec![]);
    assert_eq!(None, options.parse_ugen_plugins_path());

    options.ugen_plugins_path = None;
    assert_eq!(None, options.parse_ugen_plugins_path());
}

#[test]
fn default_options_render_expected_args() {
    let options = Options::default();
    let expected: Vec<String> = [
        "-D", "1", "-R", "0", "-S", "44100", "-V", "0", "-Z", "0", "-a", "1024", "-b", "1024",
        "-c", "16384", "-d", "1024", "-i", "8", "-l", "64", "-m", "8192", "-n", "1024", "-o", "8",
        "-r", "64", "-t", "0", "-u", "4242", "-w", "64", "-z", "64", "-T", "2",
    ]
    .iter()
    .map(|s| s.to_string())
    .collect();
    assert_eq!(options.to_args(), expected);
}

#[test]
fn optional_args_render_when_set() {
    let mut options = Options::default();
    options.device_name = Some(String::from("Soundcard"));
    options.session_password = Some(String::from("letmein"));
    let args = options.to_args();
    assert_eq!(args[0], "-H");
    assert_eq!(args[1], "Soundcard");
    assert!(args.windows(2).any(|w| w[0] == "-p" && w[1] == "letmein"));
}

#[test]
fn scsynth_gets_no_thread_flag() {
    let mut options = Options::default();
    options.server_type = Options::guess_server_type_by_path("/usr/bin/scsynth");
    let args = options.to_args();
    assert!(!args.iter().any(|a| a == "-T"));
}

#[test]
fn server_type_guessing_checks_last_component() {
    assert_eq!(Options::guess_server_type_by_path("supernova"), "supernova");
    assert_eq!(Options::guess_server_type_by_path("/usr/bin/supernova"), "supernova");
    assert_eq!(Options::guess_server_type_by_path("xsupernova"), "scsynth");
    assert_eq!(Options::guess_server_type_by_path("/usr/bin/scsynth"), "scsynth");
    assert_eq!(Options::guess_server_type_by_path(""), "scsynth");
}

#[test]
fn options_check_requires_a_port() {
    let mut options = Options::default();
    assert!(options.check().is_ok());
    options.udp_port_number = 0;
    options.tcp_port_number = 0;
    assert!(options.check().is_err());
    options.tcp_port_number = 57110;
    assert!(options.check().is_ok());
}

#[test]
fn builders_queue_expected_requests() {
    let mut server = new_server();
    server.set_dump_osc_mode(DumpOscMode::PrintHex).unwrap();
    server.set_error_mode(ScServerErrorMode::OffForBundle).unwrap();
    server.clear_message_queue().unwrap();
    server.set_receive_notifications(true).unwrap();
    let queued = queued_messages(&mut server);
    assert_eq!(queued[0], msg("/dumpOSC", vec![OscType::Int(2)]));
    assert_eq!(queued[1], msg("/error", vec![OscType::Int(-1)]));
    assert_eq!(queued[2], msg("/clearSched", Vec::new()));
    assert_eq!(queued[3], msg("/notify", vec![OscType::Int(1)]));
}

#[test]
fn status_query_scenario() {
    let mut server = new_server();
    server.get_status().unwrap();
    let queued = queued_messages(&mut server);
    assert_eq!(queued, vec![msg("/status", Vec::new())]);

    // The remote endpoint answers; the registered status responder decodes
    // the reply into a structured record.
    let reply = msg(
        "/status.reply",
        vec![
            OscType::Int(0),
            OscType::Int(1),
            OscType::Int(0),
            OscType::Int(2),
            OscType::Float(0.1f32.to_bits()),
            OscType::Float(0.3f32.to_bits()),
            OscType::Float(44100.0f32.to_bits()),
            OscType::Float(44100.0f32.to_bits()),
        ],
    );
    let remote = server.osc_server.get_server_address();
    let bytes = sc_client::encode_message(&reply).unwrap();
    match server.osc_server.on_receive_packet(remote, &bytes) {
        sc_client::ReceiveOutcome::Dispatched(outs) => match &outs[0] {
            sc_client::DispatchOutcome::Responders(fired) => {
                assert_eq!(fired.len(), 1);
                match &fired[0] {
                    sc_client::OscResponder::Status(responder) => {
                        let status = responder.callback(&reply).unwrap();
                        assert_eq!(status.num_of_ugens, 0);
                        assert_eq!(status.num_of_synths, 1);
                        assert_eq!(status.num_of_groups, 0);
                        assert_eq!(status.num_of_synthdefs, 2);
                        assert_eq!(f32::from_bits(status.avg_cpu), 0.1);
                        assert_eq!(f32::from_bits(status.actual_sample_rate), 44100.0);
                    }
                    other => panic!("unexpected responder: {:?}", other),
                }
            }
            other => panic!("unexpected outcome: {:?}", other),
        },
        other => panic!("unexpected outcome: {:?}", other),
    }
}

#[test]
fn status_responder_needs_eight_args() {
    let responder = StatusResponder::new();
    assert!(responder.callback(&msg("/status.reply", vec![OscType::Int(1)])).is_none());
    assert!(responder.callback(&msg("/status.reply", Vec::new())).is_none());
}

#[test]
fn version_responder_decodes_reply() {
    let responder = VersionResponder::new();
    let reply = msg(
        "/version.reply",
        vec![
            OscType::Str(String::from("scsynth")),
            OscType::Int(3),
            OscType::Int(9),
            OscType::Str(String::from(".3")),
            OscType::Str(String::from("HEAD")),
            OscType::Str(String::from("0e5a8af")),
        ],
    );
    let version = responder.callback(&reply).unwrap();
    assert_eq!(version.program_name, "scsynth");
    assert_eq!(version.major_version, 3);
    assert_eq!(version.minor_version, 9);
    assert_eq!(version.patch_name, ".3");
    assert_eq!(version.git_branch, "HEAD");
    assert_eq!(version.commit_hash, "0e5a8af");
    assert!(responder.callback(&msg("/version.reply", Vec::new())).is_none());
}

#[test]
fn shutdown_queues_quit_and_barrier() {
    let mut server = new_server();
    let counter = server.shutdown().unwrap();
    let queued = queued_messages(&mut server);
    assert_eq!(queued.len(), 2);
    assert_eq!(queued[0], msg("/quit", Vec::new()));
    assert_eq!(queued[1], msg("/sync", vec![OscType::Int(counter)]));
}

#[test]
fn plugin_command_embeds_its_name() {
    let mut server = new_server();
    server
        .call_plugin_command("/noise", Some(vec![OscType::Int(12)]))
        .unwrap();
    let queued = queued_messages(&mut server);
    assert_eq!(
        queued,
        vec![msg(
            "/cmd",
            vec![OscType::Str(String::from("/noise")), OscType::Int(12)]
        )]
    );
}

#[test]
fn synth_creation_queues_s_new() {
    let mut server = new_server();
    let controls = vec![NodeValue(
        OscType::Str(String::from("freq")),
        OscType::Float(440.0f32.to_bits()),
    )];
    let synth = Synth::new(&mut server, "sine", &AddAction::Tail, 0, &controls).unwrap();
    assert_eq!(synth.get_name(), "sine");
    assert_eq!(synth.get_target_id(), 0);
    assert!(synth.get_id() >= 0);

    let queued = queued_messages(&mut server);
    assert_eq!(
        queued,
        vec![msg(
            "/s_new",
            vec![
                OscType::Str(String::from("sine")),
                OscType::Int(synth.get_id()),
                OscType::Int(1),
                OscType::Int(0),
                OscType::Str(String::from("freq")),
                OscType::Float(440.0f32.to_bits()),
            ]
        )]
    );
}

#[test]
fn synth_ids_are_distinct() {
    let mut server = new_server();
    let a = Synth::new(&mut server, "a", &AddAction::Head, 0, &Vec::new()).unwrap();
    let b = Synth::new(&mut server, "b", &AddAction::Head, 0, &Vec::new()).unwrap();
    assert_ne!(a.get_id(), b.get_id());
}

#[test]
fn synth_creation_rejects_wire_unsafe_name() {
    let mut server = new_server();
    let e = Synth::new(&mut server, "bad\0name", &AddAction::Head, 0, &Vec::new()).unwrap_err();
    assert_eq!(e.kind, ScErrorKind::Encoding);
    assert!(queued_messages(&mut server).is_empty());
}

#[test]
fn control_value_query_registers_and_sends() {
    let mut server = new_server();
    let controls = Vec::new();
    let synth = Synth::new(&mut server, "sine", &AddAction::Head, 0, &controls).unwrap();
    queued_messages(&mut server);

    let params = vec![OscType::Str(String::from("freq"))];
    synth.get_control_value(&mut server, &params).unwrap();
    let queued = queued_messages(&mut server);
    assert_eq!(
        queued,
        vec![msg(
            "/s_get",
            vec![OscType::Int(synth.get_id()), OscType::Str(String::from("freq"))]
        )]
    );
}

#[test]
fn control_value_responder_matches_its_query() {
    let responder = ControlValueResponder::new(7, vec![OscType::Str(String::from("freq"))]);
    let reply = msg(
        "/n_set",
        vec![
            OscType::Int(7),
            OscType::Str(String::from("freq")),
            OscType::Float(440.0f32.to_bits()),
        ],
    );
    let values = responder.callback(&reply).unwrap();
    assert_eq!(values.len(), 1);
    assert_eq!(values[0].0, OscType::Str(String::from("freq")));
    assert_eq!(values[0].1, OscType::Float(440.0f32.to_bits()));

    // A reply for another node does not match.
    let other_node = msg(
        "/n_set",
        vec![
            OscType::Int(8),
            OscType::Str(String::from("freq")),
            OscType::Float(440.0f32.to_bits()),
        ],
    );
    assert!(responder.callback(&other_node).is_none());

    // A reply with a dangling half pair does not match.
    let odd = msg("/n_set", vec![OscType::Int(7), OscType::Str(String::from("freq"))]);
    assert!(responder.callback(&odd).is_none());

    // A reply answering different parameters does not match.
    let wrong_param = msg(
        "/n_set",
        vec![
            OscType::Int(7),
            OscType::Str(String::from("amp")),
            OscType::Float(1.0f32.to_bits()),
        ],
    );
    assert!(responder.callback(&wrong_param).is_none());
}

#[test]
fn synth_definition_requests() {
    let mut server = new_server();
    SynthDefinition::send(&mut server, &vec![1, 2, 3]).unwrap();
    SynthDefinition::load(&mut server, "synthdefs/perc-*").unwrap();
    SynthDefinition::load_directory(&mut server, "synthdefs").unwrap();
    SynthDefinition::free(&mut server, "perc").unwrap();
    let queued = queued_messages(&mut server);
    assert_eq!(queued[0], msg("/d_recv", vec![OscType::Blob(vec![1, 2, 3])]));
    assert_eq!(queued[1], msg("/d_load", vec![OscType::Str(String::from("synthdefs/perc-*"))]));
    assert_eq!(
        queued[2],
        msg("/d_loadDir", vec![OscType::Str(String::from("synthdefs"))])
    );
    assert_eq!(queued[3], msg("/d_free", vec![OscType::Str(String::from("perc"))]));
}

#[test]
fn node_value_conversions() {
    let nv = NodeValue::from((OscType::Str(String::from("freq")), OscType::Int(440)));
    let args: Vec<OscType> = Vec::from(nv.clone());
    assert_eq!(args.len(), 2);
    assert_eq!(args[0], OscType::Str(String::from("freq")));
    assert_eq!(args[1], OscType::Int(440));
    assert_eq!(nv.to_args(), args);
    assert_eq!(nv, NodeValue(OscType::Str(String::from("freq")), OscType::Int(440)));
}

#[test]
fn error_values_carry_kind_and_cause() {
    let general = ScClientError::new("something went sideways");
    assert_eq!(general.kind, ScErrorKind::General);
    assert_eq!(general.message(), "something went sideways");

    let timeout = ScClientError::with_kind(ScErrorKind::Timeout, "no reply in time");
    assert_eq!(timeout.kind, ScErrorKind::Timeout);
    assert_eq!(timeout.cause, "no reply in time");
}

#[test]
fn decimal_rendering_matches_std() {
    for n in [0u64, 1, 9, 10, 99, 4242, 44100, 65535, u64::MAX] {
        assert_eq!(sc_client::options::u64_to_dec(n), n.to_string());
    }
}
