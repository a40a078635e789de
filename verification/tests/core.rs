//! Tests of the codec boundary, the dispatcher, and barrier correlation.

use sc_client::{
    decode_datagram, encode_message, encode_then_decode, DispatchOutcome, Endpoint, Message,
    OscResponder, OscServer, OscType, ReceiveOutcome, ResponseType, ScErrorKind, StatusResponder,
    SyncResponder, UserResponder, VersionResponder,
};

fn endpoints() -> (Endpoint, Endpoint) {
    (Endpoint::new(127, 0, 0, 1, 4243), Endpoint::new(127, 0, 0, 1, 57120))
}

fn msg(addr: &str, args: Vec<OscType>) -> Message {
    Message { addr: addr.to_string(), args }
}

fn assert_round_trip(m: Message) {
    let out = encode_then_decode(&m).expect("well-formed message must decode");
    assert_eq!(out.len(), 1);
    assert_eq!(out[0], m);
}

#[test]
fn on_receive_packet() {
}

#[test]
fn round_trip_int() {
    assert_round_trip(msg("/test", vec![OscType::Int(42)]));
    assert_round_trip(msg("/test", vec![OscType::Int(-1), OscType::Int(i32::MAX)]));
}

#[test]
fn round_trip_float() {
    assert_round_trip(msg("/f", vec![OscType::Float(0.1f32.to_bits())]));
    assert_round_trip(msg("/f", vec![OscType::Float((-44100.0f32).to_bits())]));
}

#[test]
fn round_trip_string() {
    assert_round_trip(msg("/s", vec![OscType::Str(String::from("hello world"))]));
    assert_round_trip(msg("/s", vec![OscType::Str(String::new())]));
}

#[test]
fn round_trip_blob() {
    assert_round_trip(msg("/b", vec![OscType::Blob(vec![1, 2, 3, 4, 5])]));
    assert_round_trip(msg("/b", vec![OscType::Blob(Vec::new())]));
}

#[test]
fn round_trip_all_types() {
    assert_round_trip(msg(
        "/all",
        vec![
            OscType::Int(7),
            OscType::Float(3.5f32.to_bits()),
            OscType::Str(String::from("x")),
            OscType::Blob(vec![0, 255]),
        ],
    ));
}

#[test]
fn round_trip_no_args() {
    assert_round_trip(msg("/status", Vec::new()));
}

#[test]
fn encode_agrees_with_wire_codec() {
    // The trusted encoder wrapper must produce exactly what the wire codec
    // itself produces for the same message.
    let m = msg(
        "/greet/me",
        vec![OscType::Str(String::from("hi!")), OscType::Int(3)],
    );
    let ours = encode_message(&m).unwrap();
    let reference = rosc::encoder::encode(&rosc::OscPacket::Message(rosc::OscMessage {
        addr: String::from("/greet/me"),
        args: vec![
            rosc::OscType::String(String::from("hi!")),
            rosc::OscType::Int(3),
        ],
    }))
    .unwrap();
    assert_eq!(ours, reference);
}

#[test]
fn encode_rejects_bad_address() {
    let no_slash = msg("status", Vec::new());
    let e = encode_message(&no_slash).unwrap_err();
    assert_eq!(e.kind, ScErrorKind::Encoding);

    let empty = msg("", Vec::new());
    assert_eq!(encode_message(&empty).unwrap_err().kind, ScErrorKind::Encoding);

    let nul = msg("/ok", vec![OscType::Str(String::from("a\0b"))]);
    assert_eq!(encode_message(&nul).unwrap_err().kind, ScErrorKind::Encoding);
}

#[test]
fn decode_rejects_garbage() {
    assert!(decode_datagram(&[1, 2, 3]).is_none());
    assert!(decode_datagram(&[]).is_none());
}

#[test]
fn decode_bundle_yields_contained_messages() {
    let bundle = rosc::OscPacket::Bundle(rosc::OscBundle {
        timetag: rosc::OscTime::from((0, 1)),
        content: vec![
            rosc::OscPacket::Message(rosc::OscMessage {
                addr: String::from("/one"),
                args: vec![rosc::OscType::Int(1)],
            }),
            rosc::OscPacket::Message(rosc::OscMessage {
                addr: String::from("/two"),
                args: vec![],
            }),
        ],
    });
    let bytes = rosc::encoder::encode(&bundle).unwrap();
    let out = decode_datagram(&bytes).expect("bundle must decode");
    assert_eq!(out.len(), 2);
    assert_eq!(out[0], msg("/one", vec![OscType::Int(1)]));
    assert_eq!(out[1], msg("/two", Vec::new()));
}

#[test]
fn bundle_dispatches_each_contained_message() {
    let (client, server) = endpoints();
    let mut core = OscServer::new(client, server);
    core.add_responder(OscResponder::Status(StatusResponder::new()))
        .unwrap();
    core.add_responder(OscResponder::Version(VersionResponder::new()))
        .unwrap();
    let bundle = rosc::OscPacket::Bundle(rosc::OscBundle {
        timetag: rosc::OscTime::from((0, 1)),
        content: vec![
            rosc::OscPacket::Message(rosc::OscMessage {
                addr: String::from("/status.reply"),
                args: vec![],
            }),
            rosc::OscPacket::Message(rosc::OscMessage {
                addr: String::from("/version.reply"),
                args: vec![],
            }),
        ],
    });
    let bytes = rosc::encoder::encode(&bundle).unwrap();
    match core.on_receive_packet(server, &bytes) {
        ReceiveOutcome::Dispatched(outs) => {
            assert_eq!(outs.len(), 2);
            for out in &outs {
                match out {
                    DispatchOutcome::Responders(fired) => assert_eq!(fired.len(), 1),
                    other => panic!("unexpected outcome: {:?}", other),
                }
            }
        }
        other => panic!("unexpected outcome: {:?}", other),
    }
}

#[test]
fn user_once_responder_is_removed_and_always_stays() {
    let (client, server) = endpoints();
    let mut core = OscServer::new(client, server);
    core.add_responder(OscResponder::User(UserResponder {
        token: 1,
        address: String::from("/tr"),
        response_type: ResponseType::Once,
        first_arg: None,
    }))
    .unwrap();
    core.add_responder(OscResponder::User(UserResponder {
        token: 2,
        address: String::from("/tr"),
        response_type: ResponseType::Always,
        first_arg: None,
    }))
    .unwrap();
    let m = msg("/tr", Vec::new());
    let first = fired_of(&mut core, server, &m);
    assert_eq!(first.len(), 2);
    let second = fired_of(&mut core, server, &m);
    assert_eq!(second.len(), 1);
    match &second[0] {
        OscResponder::User(u) => assert_eq!(u.token, 2),
        other => panic!("unexpected responder: {:?}", other),
    }
}

#[test]
fn reserved_address_registration_fails() {
    let (client, server) = endpoints();
    let mut core = OscServer::new(client, server);
    let e = core
        .add_responder(OscResponder::Sync(SyncResponder::new()))
        .unwrap_err();
    assert_eq!(e.kind, ScErrorKind::ReservedAddress);

    let user = UserResponder {
        token: 1,
        address: String::from("/synced"),
        response_type: ResponseType::Once,
        first_arg: None,
    };
    let e2 = core.add_responder(OscResponder::User(user)).unwrap_err();
    assert_eq!(e2.kind, ScErrorKind::ReservedAddress);
}

#[test]
fn stray_sender_is_rejected() {
    let (client, server) = endpoints();
    let mut core = OscServer::new(client, server);
    core.add_responder(OscResponder::Status(StatusResponder::new()))
        .unwrap();
    let reply = msg("/status.reply", vec![OscType::Int(0)]);
    let bytes = encode_message(&reply).unwrap();

    let stranger = Endpoint::new(10, 0, 0, 1, 9999);
    assert!(matches!(
        core.on_receive_packet(stranger, &bytes),
        ReceiveOutcome::Rejected
    ));

    // The same datagram from the configured remote endpoint still works.
    match core.on_receive_packet(server, &bytes) {
        ReceiveOutcome::Dispatched(outs) => {
            assert_eq!(outs.len(), 1);
            match &outs[0] {
                DispatchOutcome::Responders(fired) => assert_eq!(fired.len(), 1),
                other => panic!("unexpected outcome: {:?}", other),
            }
        }
        other => panic!("unexpected outcome: {:?}", other),
    }
}

#[test]
fn malformed_datagram_is_survived() {
    let (client, server) = endpoints();
    let mut core = OscServer::new(client, server);
    core.add_responder(OscResponder::Status(StatusResponder::new()))
        .unwrap();

    assert!(matches!(
        core.on_receive_packet(server, &[7, 7, 7, 7]),
        ReceiveOutcome::DecodeFailed
    ));

    // The dispatcher keeps processing subsequent datagrams.
    let reply = msg("/status.reply", Vec::new());
    let bytes = encode_message(&reply).unwrap();
    match core.on_receive_packet(server, &bytes) {
        ReceiveOutcome::Dispatched(outs) => {
            assert_eq!(outs.len(), 1);
            match &outs[0] {
                DispatchOutcome::Responders(fired) => assert_eq!(fired.len(), 1),
                other => panic!("unexpected outcome: {:?}", other),
            }
        }
        other => panic!("unexpected outcome: {:?}", other),
    }
}

fn fired_of(core: &mut OscServer, server: Endpoint, m: &Message) -> Vec<OscResponder> {
    let bytes = encode_message(m).unwrap();
    match core.on_receive_packet(server, &bytes) {
        ReceiveOutcome::Dispatched(mut outs) => {
            assert_eq!(outs.len(), 1);
            match outs.remove(0) {
                DispatchOutcome::Responders(fired) => fired,
                other => panic!("unexpected outcome: {:?}", other),
            }
        }
        other => panic!("unexpected outcome: {:?}", other),
    }
}

#[test]
fn dispatch_fires_exactly_matching_responders() {
    let (client, server) = endpoints();
    let mut core = OscServer::new(client, server);
    let matching = UserResponder {
        token: 1,
        address: String::from("/n_end"),
        response_type: ResponseType::Always,
        first_arg: Some(OscType::Int(5)),
    };
    let refusing = UserResponder {
        token: 2,
        address: String::from("/n_end"),
        response_type: ResponseType::Always,
        first_arg: Some(OscType::Int(6)),
    };
    let elsewhere = UserResponder {
        token: 3,
        address: String::from("/n_go"),
        response_type: ResponseType::Always,
        first_arg: None,
    };
    core.add_responder(OscResponder::User(matching)).unwrap();
    core.add_responder(OscResponder::User(refusing)).unwrap();
    core.add_responder(OscResponder::User(elsewhere)).unwrap();

    let fired = fired_of(&mut core, server, &msg("/n_end", vec![OscType::Int(5)]));
    assert_eq!(fired.len(), 1);
    match &fired[0] {
        OscResponder::User(u) => assert_eq!(u.token, 1),
        other => panic!("unexpected responder: {:?}", other),
    }
}

#[test]
fn once_responder_fires_at_most_once() {
    let (client, server) = endpoints();
    let mut core = OscServer::new(client, server);
    core.add_responder(OscResponder::Version(VersionResponder::new()))
        .unwrap();
    let reply = msg("/version.reply", Vec::new());

    let first = fired_of(&mut core, server, &reply);
    assert_eq!(first.len(), 1);
    let second = fired_of(&mut core, server, &reply);
    assert_eq!(second.len(), 0);
}

#[test]
fn reschedule_responder_stays_registered() {
    let (client, server) = endpoints();
    let mut core = OscServer::new(client, server);
    core.add_responder(OscResponder::Status(StatusResponder::new()))
        .unwrap();
    let reply = msg("/status.reply", Vec::new());

    assert_eq!(fired_of(&mut core, server, &reply).len(), 1);
    assert_eq!(fired_of(&mut core, server, &reply).len(), 1);
}

#[test]
fn completion_redispatches_under_embedded_address() {
    let (client, server) = endpoints();
    let mut core = OscServer::new(client, server);
    let waiting = UserResponder {
        token: 9,
        address: String::from("/d_load"),
        response_type: ResponseType::Once,
        first_arg: None,
    };
    core.add_responder(OscResponder::User(waiting)).unwrap();

    let done = msg("/done", vec![OscType::Str(String::from("/d_load"))]);
    let fired = fired_of(&mut core, server, &done);
    assert_eq!(fired.len(), 1);
    match &fired[0] {
        OscResponder::User(u) => assert_eq!(u.token, 9),
        other => panic!("unexpected responder: {:?}", other),
    }
}

#[test]
fn completion_without_address_does_nothing() {
    let (client, server) = endpoints();
    let mut core = OscServer::new(client, server);
    let done = msg("/done", Vec::new());
    let bytes = encode_message(&done).unwrap();
    match core.on_receive_packet(server, &bytes) {
        ReceiveOutcome::Dispatched(outs) => {
            assert_eq!(outs.len(), 1);
            assert!(matches!(outs[0], DispatchOutcome::NoAction));
        }
        other => panic!("unexpected outcome: {:?}", other),
    }
}

#[test]
fn failure_notification_is_surfaced_without_dispatch() {
    let (client, server) = endpoints();
    let mut core = OscServer::new(client, server);
    // Even a responder registered under the failure address itself must
    // not be invoked by a failure notification.
    let lurking = UserResponder {
        token: 4,
        address: String::from("/fail"),
        response_type: ResponseType::Always,
        first_arg: None,
    };
    core.add_responder(OscResponder::User(lurking)).unwrap();

    let fail = msg(
        "/fail",
        vec![
            OscType::Str(String::from("/s_new")),
            OscType::Str(String::from("duplicate node ID")),
        ],
    );
    let bytes = encode_message(&fail).unwrap();
    match core.on_receive_packet(server, &bytes) {
        ReceiveOutcome::Dispatched(outs) => {
            assert_eq!(outs.len(), 1);
            match &outs[0] {
                DispatchOutcome::Failure(f) => {
                    assert_eq!(f.address, "/s_new");
                    assert_eq!(f.description, "duplicate node ID");
                }
                other => panic!("unexpected outcome: {:?}", other),
            }
        }
        other => panic!("unexpected outcome: {:?}", other),
    }
}

#[test]
fn concurrent_syncs_resolve_independently() {
    let (client, server) = endpoints();
    let mut core = OscServer::new(client, server);
    let c1 = core.sync().unwrap();
    let c2 = core.sync().unwrap();
    assert_ne!(c1, c2);

    // The two barrier requests carry their own counter values.
    let queued = core.take_outgoing();
    assert_eq!(queued.len(), 2);
    let m1 = decode_datagram(&queued[0]).unwrap();
    assert_eq!(m1[0], msg("/sync", vec![OscType::Int(c1)]));
    let m2 = decode_datagram(&queued[1]).unwrap();
    assert_eq!(m2[0], msg("/sync", vec![OscType::Int(c2)]));

    // An acknowledgment carrying c1 resolves only the first barrier.
    let ack1 = msg("/synced", vec![OscType::Int(c1)]);
    let bytes = encode_message(&ack1).unwrap();
    core.on_receive_packet(server, &bytes);
    assert!(core.get_sync_state_for_uid(c1));
    assert!(!core.get_sync_state_for_uid(c2));

    let ack2 = msg("/synced", vec![OscType::Int(c2)]);
    let bytes2 = encode_message(&ack2).unwrap();
    core.on_receive_packet(server, &bytes2);
    assert!(core.get_sync_state_for_uid(c2));

    core.remove_sync_state_for_uid(c1);
    assert!(!core.get_sync_state_for_uid(c1));
    core.remove_sync_state_for_uid(c2);
    assert!(!core.get_sync_state_for_uid(c2));
}

#[test]
fn unregister_is_idempotent() {
    let (client, server) = endpoints();
    let mut core = OscServer::new(client, server);
    core.add_responder(OscResponder::Status(StatusResponder::new()))
        .unwrap();
    core.remove_responder_for_address("/status.reply");
    core.remove_responder_for_address("/status.reply");
    let reply = msg("/status.reply", Vec::new());
    assert_eq!(fired_of(&mut core, server, &reply).len(), 0);
}

#[test]
fn send_message_queues_encoded_datagram() {
    let (client, server) = endpoints();
    let mut core = OscServer::new(client, server);
    let n = core
        .send_message("/quit", None)
        .expect("well-formed message must send");
    let queued = core.take_outgoing();
    assert_eq!(queued.len(), 1);
    assert_eq!(queued[0].len(), n);
    let expected = encode_message(&msg("/quit", Vec::new())).unwrap();
    assert_eq!(queued[0], expected);
    assert!(core.take_outgoing().is_empty());

    let e = core.send_message("no-slash", None).unwrap_err();
    assert_eq!(e.kind, ScErrorKind::Encoding);
    assert!(core.take_outgoing().is_empty());
}

#[test]
fn endpoints_compare_by_value() {
    let a = Endpoint::new(127, 0, 0, 1, 57120);
    let b = Endpoint::new(127, 0, 0, 1, 57120);
    let c = Endpoint::new(127, 0, 0, 2, 57120);
    assert_eq!(a, b);
    assert_ne!(a, c);
    let core = OscServer::new(a, c);
    assert_eq!(core.get_client_address(), a);
    assert_eq!(core.get_server_address(), c);
}
