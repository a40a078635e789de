//! The option set of the supervised server process, and its rendering as a
//! command-line argument list.

use vstd::prelude::*;
use crate::error::{ScClientError, ScClientResult};
use crate::types::str_is;

verus! {

/// The decimal digit character for `d`, which must be below ten.
pub open spec fn dec_digit(d: nat) -> char {
    if d == 0 {
        '0'
    } else if d == 1 {
        '1'
    } else if d == 2 {
        '2'
    } else if d == 3 {
        '3'
    } else if d == 4 {
        '4'
    } else if d == 5 {
        '5'
    } else if d == 6 {
        '6'
    } else if d == 7 {
        '7'
    } else if d == 8 {
        '8'
    } else {
        '9'
    }
}

/// The decimal rendering of `n`, most significant digit first, without
/// leading zeros (zero renders as one digit).
pub open spec fn dec_str(n: nat) -> Seq<char>
    decreases n,
{
    if n < 10 {
        seq![dec_digit(n)]
    } else {
        dec_str(n / 10).push(dec_digit(n % 10))
    }
}

fn digit_str(d: u64) -> (s: &'static str)
    requires
        d < 10,
    ensures
        s@ == seq![dec_digit(d as nat)],
{
    let s = match d {
        0 => "0",
        1 => "1",
        2 => "2",
        3 => "3",
        4 => "4",
        5 => "5",
        6 => "6",
        7 => "7",
        8 => "8",
        _ => "9",
    };
    proof {
        reveal_strlit("0");
        reveal_strlit("1");
        reveal_strlit("2");
        reveal_strlit("3");
        reveal_strlit("4");
        reveal_strlit("5");
        reveal_strlit("6");
        reveal_strlit("7");
        reveal_strlit("8");
        reveal_strlit("9");
        assert(s@ =~= seq![dec_digit(d as nat)]);
    }
    s
}

/// The decimal rendering of `n` as a string.
pub fn u64_to_dec(n: u64) -> (s: String)
    ensures
        s@ == dec_str(n as nat),
    decreases n,
{
    if n < 10 {
        digit_str(n).to_owned()
    } else {
        let q = u64_to_dec(n / 10);
        let r = q.concat(digit_str(n % 10));
        proof {
            assert(r@ =~= dec_str((n / 10) as nat).push(dec_digit((n % 10) as nat)));
        }
        r
    }
}

/// The character sequences of an optional string.
pub open spec fn option_view(v: Option<String>) -> Option<Seq<char>> {
    match v {
        Some(s) => Some(s@),
        None => None,
    }
}

/// A flag with its value when the value is present, nothing otherwise.
pub open spec fn spec_opt_arg(flag: Seq<char>, value: Option<Seq<char>>) -> Seq<Seq<char>> {
    match value {
        Some(v) => seq![flag, v],
        None => Seq::empty(),
    }
}

/// A flag with a numeric value.
pub open spec fn spec_flag_num(flag: Seq<char>, n: nat) -> Seq<Seq<char>> {
    seq![flag, dec_str(n)]
}

/// The paths joined with ':' between them.
pub open spec fn spec_join_paths(paths: Seq<Seq<char>>) -> Seq<char>
    decreases paths.len(),
{
    if paths.len() == 0 {
        Seq::empty()
    } else if paths.len() == 1 {
        paths[0]
    } else {
        spec_join_paths(paths.drop_last()) + seq![':'] + paths.last()
    }
}

/// The plugin-path argument value: the configured paths joined with ':',
/// or nothing when no path is configured.
pub open spec fn spec_ugen_arg(v: Option<Vec<String>>) -> Option<Seq<char>> {
    match v {
        Some(ps) => if ps.len() == 0 {
            None
        } else {
            Some(spec_join_paths(ps.deep_view()))
        },
        None => None,
    }
}

/// Whether the path's last component names the supernova server: the whole
/// path is "supernova" or it ends in "/supernova".
pub open spec fn spec_is_supernova_path(s: Seq<char>) -> bool {
    s == "supernova"@ || (s.len() >= "/supernova"@.len() && s.skip(
        s.len() - "/supernova"@.len(),
    ) == "/supernova"@)
}

/// Whether `a` ends with the characters of `b`.
pub fn str_ends_with(a: &str, b: &str) -> (r: bool)
    ensures
        r == (a@.len() >= b@.len() && a@.skip(a@.len() - b@.len()) == b@),
{
    let an: usize = a.unicode_len();
    let bn: usize = b.unicode_len();
    if an < bn {
        return false;
    }
    let mut j: usize = 0;
    while j < bn
        invariant
            0 <= j <= bn,
            an == a@.len(),
            bn == b@.len(),
            an >= bn,
            forall|k: int| 0 <= k < j ==> a@[an - bn + k] == b@[k],
        decreases bn - j,
    {
        if a.get_char(an - bn + j) != b.get_char(j) {
            assert(a@.skip(a@.len() - b@.len())[j as int] != b@[j as int]);
            return false;
        }
        j += 1;
    }
    proof {
        assert(a@.skip(a@.len() - b@.len()) =~= b@);
    }
    true
}

/// Whether two strings hold the same characters.
pub fn str_eq_str(a: &str, b: &str) -> (r: bool)
    ensures
        r == (a@ == b@),
{
    let t: String = a.to_owned();
    str_is(&t, b)
}

/// The option set of the server process.  Every field is plain data; the
/// caller loads them from wherever it likes and hands the result here.
#[derive(Debug)]
pub struct Options {
    pub address: String,
    pub block_size: u16,
    pub client_address: String,
    pub client_port: u16,
    pub device_name: Option<String>,
    pub input_streams_enable_string: Option<String>,
    pub load_synth_defs: bool,
    pub max_interconnect_buffers: u32,
    pub max_logins: u64,
    pub max_nodes: u16,
    pub max_synth_defs: u32,
    pub num_audio_bus_channels: u16,
    pub num_buffers: u16,
    pub num_control_bus_channels: u16,
    pub num_input_bus_channels: u16,
    pub num_of_threads: u8,
    pub num_output_bus_channels: u16,
    pub output_streams_enable_string: Option<String>,
    pub path: String,
    pub preferred_hardware_buffer_size: u16,
    pub preferred_sample_rate: u64,
    pub publish_to_rendezvous: bool,
    pub random_number_generators: u16,
    pub real_time_memory_size: u64,
    pub restricted_path: Option<String>,
    pub session_password: Option<String>,
    pub tcp_port_number: u16,
    pub udp_port_number: u16,
    pub ugen_plugins_path: Option<Vec<String>>,
    pub verbosity: u8,
    pub server_type: String,
}

/// The argument list `to_args` renders: optional flags first, then the
/// numeric flags in alphabetical order, then the thread-count flag for the
/// supernova server alone.
pub open spec fn args_model(o: Options) -> Seq<Seq<char>> {
    spec_opt_arg("-H"@, option_view(o.device_name)) + spec_opt_arg(
        "-I"@,
        option_view(o.input_streams_enable_string),
    ) + spec_opt_arg("-O"@, option_view(o.output_streams_enable_string)) + spec_opt_arg(
        "-P"@,
        option_view(o.restricted_path),
    ) + spec_opt_arg("-U"@, spec_ugen_arg(o.ugen_plugins_path)) + spec_opt_arg(
        "-p"@,
        option_view(o.session_password),
    ) + spec_flag_num("-D"@, if o.load_synth_defs {
        1
    } else {
        0
    }) + spec_flag_num("-R"@, if o.publish_to_rendezvous {
        1
    } else {
        0
    }) + spec_flag_num("-S"@, o.preferred_sample_rate as nat) + spec_flag_num(
        "-V"@,
        o.verbosity as nat,
    ) + spec_flag_num("-Z"@, o.preferred_hardware_buffer_size as nat) + spec_flag_num(
        "-a"@,
        o.num_audio_bus_channels as nat,
    ) + spec_flag_num("-b"@, o.num_buffers as nat) + spec_flag_num(
        "-c"@,
        o.num_control_bus_channels as nat,
    ) + spec_flag_num("-d"@, o.max_synth_defs as nat) + spec_flag_num(
        "-i"@,
        o.num_input_bus_channels as nat,
    ) + spec_flag_num("-l"@, o.max_logins as nat) + spec_flag_num(
        "-m"@,
        o.real_time_memory_size as nat,
    ) + spec_flag_num("-n"@, o.max_nodes as nat) + spec_flag_num(
        "-o"@,
        o.num_output_bus_channels as nat,
    ) + spec_flag_num("-r"@, o.random_number_generators as nat) + spec_flag_num(
        "-t"@,
        o.tcp_port_number as nat,
    ) + spec_flag_num("-u"@, o.udp_port_number as nat) + spec_flag_num(
        "-w"@,
        o.max_interconnect_buffers as nat,
    ) + spec_flag_num("-z"@, o.block_size as nat) + (if o.server_type@ == "supernova"@ {
        spec_flag_num("-T"@, o.num_of_threads as nat)
    } else {
        Seq::empty()
    })
}

fn clone_opt_string(v: &Option<String>) -> (r: Option<String>)
    ensures
        option_view(r) == option_view(*v),
{
    match v {
        Some(s) => Some(s.clone()),
        None => None,
    }
}

fn flag_num(flag: &str, n: u64) -> (r: Vec<String>)
    ensures
        r.deep_view() == spec_flag_num(flag@, n as nat),
{
    let mut r: Vec<String> = Vec::new();
    r.push(flag.to_owned());
    r.push(u64_to_dec(n));
    proof {
        assert(r.deep_view() =~= spec_flag_num(flag@, n as nat));
    }
    r
}

impl Options {
    /// Rejects an option set that opens no control port at all: either the
    /// TCP or the UDP port must be set.
    pub fn check(&self) -> (r: ScClientResult<()>)
        ensures
            r is Ok <==> (self.udp_port_number != 0 || self.tcp_port_number != 0),
    {
        if self.udp_port_number == 0 && self.tcp_port_number == 0 {
            return Err(ScClientError::new("Either TCP or UDP port should be specified"));
        }
        Ok(())
    }

    /// The flag with its value when one is present, and nothing otherwise.
    pub fn get_arg_with_value_or_empty_vec(arg: &str, value: Option<String>) -> (r: Vec<String>)
        ensures
            r.deep_view() == spec_opt_arg(arg@, option_view(value)),
    {
        match value {
            Some(val) => {
                let mut r: Vec<String> = Vec::new();
                r.push(arg.to_owned());
                r.push(val);
                proof {
                    assert(r.deep_view() =~= spec_opt_arg(arg@, option_view(value)));
                }
                r
            },
            None => {
                let r: Vec<String> = Vec::new();
                proof {
                    assert(r.deep_view() =~= Seq::<Seq<char>>::empty());
                }
                r
            },
        }
    }

    /// The server type a binary path implies: "supernova" when the path's
    /// last component is the supernova binary, "scsynth" otherwise.
    pub fn guess_server_type_by_path(path_str: &str) -> (r: String)
        ensures
            r@ == (if spec_is_supernova_path(path_str@) {
                "supernova"@
            } else {
                "scsynth"@
            }),
    {
        let whole = str_eq_str(path_str, "supernova");
        let suffix = str_ends_with(path_str, "/supernova");
        if whole || suffix {
            "supernova".to_owned()
        } else {
            "scsynth".to_owned()
        }
    }

    /// The configured plugin paths joined with ':', or nothing when no
    /// path is configured.
    pub fn parse_ugen_plugins_path(&self) -> (r: Option<String>)
        ensures
            match r {
                Some(s) => spec_ugen_arg(self.ugen_plugins_path) matches Some(t) && s@ == t,
                None => spec_ugen_arg(self.ugen_plugins_path) is None,
            },
    {
        match &self.ugen_plugins_path {
            None => None,
            Some(paths) => {
                if paths.len() == 0 {
                    return None;
                }
                let ghost ps = paths.deep_view();
                let mut result: String = paths[0].clone();
                proof {
                    assert(ps.take(1) =~= seq![ps[0]]);
                    assert(spec_join_paths(ps.take(1)) == ps[0]);
                }
                let n: usize = paths.len();
                let mut i: usize = 1;
                while i < n
                    invariant
                        1 <= i <= n,
                        n == paths.len(),
                        ps == paths.deep_view(),
                        result@ == spec_join_paths(ps.take(i as int)),
                    decreases n - i,
                {
                    proof {
                        assert(ps.take(i as int + 1).drop_last() =~= ps.take(i as int));
                        assert(ps.take(i as int + 1).last() == ps[i as int]);
                    }
                    result.append(":");
                    proof {
                        reveal_strlit(":");
                        assert(result@ =~= spec_join_paths(ps.take(i as int)) + seq![':']);
                    }
                    result.append(paths[i].as_str());
                    proof {
                        assert(result@ =~= spec_join_paths(ps.take(i as int)) + seq![':']
                            + ps[i as int]);
                    }
                    i += 1;
                }
                proof {
                    assert(ps.take(n as int) =~= ps);
                }
                Some(result)
            },
        }
    }

    /// The option set rendered as the server process's argument list.
    pub fn to_args(&self) -> (r: Vec<String>)
        ensures
            r.deep_view() == args_model(*self),
    {
        let mut r: Vec<String> = Vec::new();
        proof {
            assert(r.deep_view() =~= Seq::<Seq<char>>::empty());
        }
        let ghost mut acc: Seq<Seq<char>> = Seq::empty();

        let piece = Options::get_arg_with_value_or_empty_vec(
            "-H",
            clone_opt_string(&self.device_name),
        );
        proof {
            acc = acc + spec_opt_arg("-H"@, option_view(self.device_name));
        }
        append_strings(&mut r, piece);

        let piece = Options::get_arg_with_value_or_empty_vec(
            "-I",
            clone_opt_string(&self.input_streams_enable_string),
        );
        proof {
            acc = acc + spec_opt_arg("-I"@, option_view(self.input_streams_enable_string));
        }
        append_strings(&mut r, piece);

        let piece = Options::get_arg_with_value_or_empty_vec(
            "-O",
            clone_opt_string(&self.output_streams_enable_string),
        );
        proof {
            acc = acc + spec_opt_arg("-O"@, option_view(self.output_streams_enable_string));
        }
        append_strings(&mut r, piece);

        let piece = Options::get_arg_with_value_or_empty_vec(
            "-P",
            clone_opt_string(&self.restricted_path),
        );
        proof {
            acc = acc + spec_opt_arg("-P"@, option_view(self.restricted_path));
        }
        append_strings(&mut r, piece);

        let piece = Options::get_arg_with_value_or_empty_vec("-U", self.parse_ugen_plugins_path());
        proof {
            acc = acc + spec_opt_arg("-U"@, spec_ugen_arg(self.ugen_plugins_path));
        }
        append_strings(&mut r, piece);

        let piece = Options::get_arg_with_value_or_empty_vec(
            "-p",
            clone_opt_string(&self.session_password),
        );
        proof {
            acc = acc + spec_opt_arg("-p"@, option_view(self.session_password));
        }
        append_strings(&mut r, piece);

        let piece = flag_num("-D", if self.load_synth_defs { 1 } else { 0 });
        proof {
            acc = acc + spec_flag_num("-D"@, if self.load_synth_defs { 1 } else { 0 });
        }
        append_strings(&mut r, piece);

        let piece = flag_num("-R", if self.publish_to_rendezvous { 1 } else { 0 });
        proof {
            acc = acc + spec_flag_num("-R"@, if self.publish_to_rendezvous { 1 } else { 0 });
        }
        append_strings(&mut r, piece);

        let piece = flag_num("-S", self.preferred_sample_rate);
        proof {
            acc = acc + spec_flag_num("-S"@, self.preferred_sample_rate as nat);
        }
        append_strings(&mut r, piece);

        let piece = flag_num("-V", self.verbosity as u64);
        proof {
            acc = acc + spec_flag_num("-V"@, self.verbosity as nat);
        }
        append_strings(&mut r, piece);

        let piece = flag_num("-Z", self.preferred_hardware_buffer_size as u64);
        proof {
            acc = acc + spec_flag_num("-Z"@, self.preferred_hardware_buffer_size as nat);
        }
        append_strings(&mut r, piece);

        let piece = flag_num("-a", self.num_audio_bus_channels as u64);
        proof {
            acc = acc + spec_flag_num("-a"@, self.num_audio_bus_channels as nat);
        }
        append_strings(&mut r, piece);

        let piece = flag_num("-b", self.num_buffers as u64);
        proof {
            acc = acc + spec_flag_num("-b"@, self.num_buffers as nat);
        }
        append_strings(&mut r, piece);

        let piece = flag_num("-c", self.num_control_bus_channels as u64);
        proof {
            acc = acc + spec_flag_num("-c"@, self.num_control_bus_channels as nat);
        }
        append_strings(&mut r, piece);

        let piece = flag_num("-d", self.max_synth_defs as u64);
        proof {
            acc = acc + spec_flag_num("-d"@, self.max_synth_defs as nat);
        }
        append_strings(&mut r, piece);

        let piece = flag_num("-i", self.num_input_bus_channels as u64);
        proof {
            acc = acc + spec_flag_num("-i"@, self.num_input_bus_channels as nat);
        }
        append_strings(&mut r, piece);

        let piece = flag_num("-l", self.max_logins);
        proof {
            acc = acc + spec_flag_num("-l"@, self.max_logins as nat);
        }
        append_strings(&mut r, piece);

        let piece = flag_num("-m", self.real_time_memory_size);
        proof {
            acc = acc + spec_flag_num("-m"@, self.real_time_memory_size as nat);
        }
        append_strings(&mut r, piece);

        let piece = flag_num("-n", self.max_nodes as u64);
        proof {
            acc = acc + spec_flag_num("-n"@, self.max_nodes as nat);
        }
        append_strings(&mut r, piece);

        let piece = flag_num("-o", self.num_output_bus_channels as u64);
        proof {
            acc = acc + spec_flag_num("-o"@, self.num_output_bus_channels as nat);
        }
        append_strings(&mut r, piece);

        let piece = flag_num("-r", self.random_number_generators as u64);
        proof {
            acc = acc + spec_flag_num("-r"@, self.random_number_generators as nat);
        }
        append_strings(&mut r, piece);

        let piece = flag_num("-t", self.tcp_port_number as u64);
        proof {
            acc = acc + spec_flag_num("-t"@, self.tcp_port_number as nat);
        }
        append_strings(&mut r, piece);

        let piece = flag_num("-u", self.udp_port_number as u64);
        proof {
            acc = acc + spec_flag_num("-u"@, self.udp_port_number as nat);
        }
        append_strings(&mut r, piece);

        let piece = flag_num("-w", self.max_interconnect_buffers as u64);
        proof {
            acc = acc + spec_flag_num("-w"@, self.max_interconnect_buffers as nat);
        }
        append_strings(&mut r, piece);

        let piece = flag_num("-z", self.block_size as u64);
        proof {
            acc = acc + spec_flag_num("-z"@, self.block_size as nat);
        }
        append_strings(&mut r, piece);

        if str_is(&self.server_type, "supernova") {
            let piece = flag_num("-T", self.num_of_threads as u64);
            proof {
                acc = acc + spec_flag_num("-T"@, self.num_of_threads as nat);
            }
            append_strings(&mut r, piece);
        } else {
            proof {
                acc = acc + Seq::<Seq<char>>::empty();
                assert(r.deep_view() =~= acc);
            }
        }
        proof {
            assert(r.deep_view() == args_model(*self));
        }
        r
    }
}

/// Appends `src`'s strings to `dst`, in order.
fn append_strings(dst: &mut Vec<String>, src: Vec<String>)
    ensures
        final(dst).deep_view() == old(dst).deep_view() + src.deep_view(),
{
    let ghost sd = src.deep_view();
    let mut moved = src;
    dst.append(&mut moved);
    proof {
        assert(dst.deep_view() =~= old(dst).deep_view() + sd);
    }
}

impl Default for Options {
    /// The stock option set: local loopback addresses, the standard port
    /// pair, the supernova binary at its usual macOS location, and the
    /// documented defaults for every capacity.
    fn default() -> (r: Self)
        ensures
            r.address@ == "127.0.0.1"@,
            r.block_size == 64,
            r.client_address@ == "127.0.0.1"@,
            r.client_port == 4243,
            r.device_name is None,
            r.input_streams_enable_string is None,
            r.load_synth_defs == true,
            r.max_interconnect_buffers == 64,
            r.max_logins == 64,
            r.max_nodes == 1024,
            r.max_synth_defs == 1024,
            r.num_audio_bus_channels == 1024,
            r.num_buffers == 1024,
            r.num_control_bus_channels == 16384,
            r.num_input_bus_channels == 8,
            r.num_of_threads == 2,
            r.num_output_bus_channels == 8,
            r.output_streams_enable_string is None,
            r.path@ == "/Applications/SuperCollider.app/Contents/Resources/supernova"@,
            r.preferred_hardware_buffer_size == 0,
            r.preferred_sample_rate == 44100,
            r.publish_to_rendezvous == false,
            r.random_number_generators == 64,
            r.real_time_memory_size == 8192,
            r.restricted_path is None,
            r.session_password is None,
            r.tcp_port_number == 0,
            r.udp_port_number == 4242,
            r.ugen_plugins_path is None,
            r.verbosity == 0,
            r.server_type@ == "supernova"@,
    {
        let path: String =
            "/Applications/SuperCollider.app/Contents/Resources/supernova".to_owned();
        proof {
            reveal_strlit("/Applications/SuperCollider.app/Contents/Resources/supernova");
            reveal_strlit("/supernova");
            reveal_strlit("supernova");
            assert(spec_is_supernova_path(path@)) by {
                assert(path@.skip(path@.len() - "/supernova"@.len()) =~= "/supernova"@);
            }
        }
        let server_type = Options::guess_server_type_by_path(path.as_str());
        let preferred_sample_rate: u64 = if str_is(&server_type, "supernova") {
            44100
        } else {
            0
        };
        Options {
            address: "127.0.0.1".to_owned(),
            block_size: 64,
            client_address: "127.0.0.1".to_owned(),
            client_port: 4243,
            device_name: None,
            input_streams_enable_string: None,
            load_synth_defs: true,
            max_interconnect_buffers: 64,
            max_logins: 64,
            max_nodes: 1024,
            max_synth_defs: 1024,
            num_audio_bus_channels: 1024,
            num_buffers: 1024,
            num_control_bus_channels: 16384,
            num_input_bus_channels: 8,
            num_of_threads: 2,
            num_output_bus_channels: 8,
            output_streams_enable_string: None,
            path,
            preferred_hardware_buffer_size: 0,
            preferred_sample_rate,
            publish_to_rendezvous: false,
            random_number_generators: 64,
            real_time_memory_size: 8192,
            restricted_path: None,
            session_password: None,
            tcp_port_number: 0,
            udp_port_number: 4242,
            ugen_plugins_path: None,
            verbosity: 0,
            server_type,
        }
    }
}

} // verus!
