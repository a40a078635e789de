//! The supervised server: its option set, status and version records, and
//! the request builders layered on the correlation core.

use vstd::prelude::*;
use crate::error::{ScClientResult, ScErrorKind};
use crate::options::Options;
use crate::osc_server::{
    registry_with, sync_request, wire_request, OscServer, SyncState,
};
use crate::codec::wire_bytes;
use crate::responders::{
    NotifyResponder, OscResponder, QuitResponder, RespV, StatusResponder, VersionResponder,
};
use crate::types::{msg_wf, Endpoint, MessageView, OscType, OscTypeView};

verus! {

/// A status report of the running server.
///
/// The four load and rate fields carry the IEEE-754 bit patterns of the
/// 32-bit floats the wire protocol delivers; the bits are preserved exactly
/// and callers reinterpret them as needed.
#[derive(Clone, Copy, Debug, PartialEq, Eq, Structural)]
pub struct ServerStatus {
    /// number of unit generators.
    pub num_of_ugens: i32,
    /// number of synths.
    pub num_of_synths: i32,
    /// number of groups.
    pub num_of_groups: i32,
    /// number of loaded synth definitions.
    pub num_of_synthdefs: i32,
    /// average percent CPU usage for signal processing (float bits).
    pub avg_cpu: u32,
    /// peak percent CPU usage for signal processing (float bits).
    pub peak_cpu: u32,
    /// nominal sample rate (float bits).
    pub nom_sample_rate: u32,
    /// actual sample rate (float bits).
    pub actual_sample_rate: u32,
}

/// A version report of the running server.
#[derive(Debug)]
pub struct ServerVersion {
    /// Program name. May be "scsynth" or "supernova".
    pub program_name: String,
    /// Major version number.
    pub major_version: i32,
    /// Minor version number.
    pub minor_version: i32,
    /// Patch version name.
    pub patch_name: String,
    /// Git branch name.
    pub git_branch: String,
    /// First seven hex digits of the commit hash.
    pub commit_hash: String,
}

impl Clone for ServerVersion {
    fn clone(&self) -> (r: Self)
        ensures
            r.program_name@ == self.program_name@,
            r.major_version == self.major_version,
            r.minor_version == self.minor_version,
            r.patch_name@ == self.patch_name@,
            r.git_branch@ == self.git_branch@,
            r.commit_hash@ == self.commit_hash@,
    {
        ServerVersion {
            program_name: self.program_name.clone(),
            major_version: self.major_version,
            minor_version: self.minor_version,
            patch_name: self.patch_name.clone(),
            git_branch: self.git_branch.clone(),
            commit_hash: self.commit_hash.clone(),
        }
    }
}

/// How received traffic is echoed by the server process.
#[derive(Clone, Copy, Debug, PartialEq, Eq, Structural)]
pub enum DumpOscMode {
    Off,
    PrintParsed,
    PrintHex,
    PrintParsedAndHex,
}

/// The wire code of a dump mode.
pub open spec fn dump_mode_code(m: DumpOscMode) -> i32 {
    match m {
        DumpOscMode::Off => 0,
        DumpOscMode::PrintParsed => 1,
        DumpOscMode::PrintHex => 2,
        DumpOscMode::PrintParsedAndHex => 3,
    }
}

/// How the server process reports command errors.
#[derive(Clone, Copy, Debug, PartialEq, Eq, Structural)]
pub enum ScServerErrorMode {
    OffUntilNext,
    On,
    OffForBundle,
    OnForBundle,
}

/// The wire code of an error mode.
pub open spec fn error_mode_code(m: ScServerErrorMode) -> i32 {
    match m {
        ScServerErrorMode::OffUntilNext => 0,
        ScServerErrorMode::On => 1,
        ScServerErrorMode::OffForBundle => (-1) as i32,
        ScServerErrorMode::OnForBundle => (-2) as i32,
    }
}

fn dump_mode_code_exec(m: DumpOscMode) -> (r: i32)
    ensures
        r == dump_mode_code(m),
{
    match m {
        DumpOscMode::Off => 0,
        DumpOscMode::PrintParsed => 1,
        DumpOscMode::PrintHex => 2,
        DumpOscMode::PrintParsedAndHex => 3,
    }
}

fn error_mode_code_exec(m: ScServerErrorMode) -> (r: i32)
    ensures
        r == error_mode_code(m),
{
    match m {
        ScServerErrorMode::OffUntilNext => 0,
        ScServerErrorMode::On => 1,
        ScServerErrorMode::OffForBundle => -1,
        ScServerErrorMode::OnForBundle => -2,
    }
}

/// A supervised server: its option set and the correlation core speaking
/// to it.  Process lifecycle (spawning the binary, watching its readiness
/// banner, killing it) belongs to the caller, which owns the process
/// handle and consults these requests' contracts for what travels on the
/// wire.
pub struct Server {
    pub options: Options,
    pub osc_server: OscServer,
}

impl Server {
    /// A server around a fresh correlation core bound to the given
    /// endpoints.
    pub fn new(options: Options, client_address: Endpoint, server_address: Endpoint) -> (r:
        Server)
        ensures
            r.osc_server@.client == client_address,
            r.osc_server@.server == server_address,
            r.osc_server@.registry == crate::osc_server::empty_registry().insert(
                "/synced"@,
                seq![RespV::Sync],
            ),
            r.osc_server@.pending == Seq::<SyncState>::empty(),
            r.osc_server@.outbox == Seq::<Seq<u8>>::empty(),
            r.osc_server@.counter == 0,
            r.options == options,
    {
        let osc_server = OscServer::new(client_address, server_address);
        Server { options, osc_server }
    }

    /// Issues a barrier through the core; the caller blocks on the
    /// returned counter as described at [`OscServer::sync`].
    pub fn sync(&mut self) -> (r: ScClientResult<i32>)
        requires
            old(self).osc_server@.counter < i32::MAX,
        ensures
            final(self).options == old(self).options,
            final(self).osc_server@.client == old(self).osc_server@.client,
            final(self).osc_server@.server == old(self).osc_server@.server,
            final(self).osc_server@.registry == old(self).osc_server@.registry,
            final(self).osc_server@.counter == old(self).osc_server@.counter + 1,
            r matches Ok(uid) && uid == old(self).osc_server@.counter + 1,
            final(self).osc_server@.pending == old(self).osc_server@.pending.push(
                SyncState { uid: (old(self).osc_server@.counter + 1) as i32, resolved: false },
            ),
            final(self).osc_server@.outbox == old(self).osc_server@.outbox.push(
                wire_bytes(sync_request((old(self).osc_server@.counter + 1) as i32)),
            ),
    {
        self.osc_server.sync()
    }

    /// Subscribes to or unsubscribes from server notifications: registers
    /// the notification responder and queues the subscription request
    /// carrying one as its argument for on, zero for off.
    pub fn set_receive_notifications(&mut self, is_receiving: bool) -> (r: ScClientResult<()>)
        ensures
            final(self).options == old(self).options,
            final(self).osc_server@.client == old(self).osc_server@.client,
            final(self).osc_server@.server == old(self).osc_server@.server,
            final(self).osc_server@.pending == old(self).osc_server@.pending,
            final(self).osc_server@.counter == old(self).osc_server@.counter,
            r is Ok,
            final(self).osc_server@.registry == registry_with(
                old(self).osc_server@.registry,
                RespV::Notify { is_receiving },
            ),
            final(self).osc_server@.outbox == old(self).osc_server@.outbox.push(
                wire_bytes(
                    wire_request(
                        "/notify"@,
                        seq![
                            OscTypeView::Int(
                                if is_receiving {
                                    1
                                } else {
                                    0
                                },
                            ),
                        ],
                    ),
                ),
            ),
    {
        proof {
            lemma_reserved_distinct();
        }
        let responder = NotifyResponder::new(is_receiving);
        let add = self.osc_server.add_responder(OscResponder::Notify(responder));
        if let Err(e) = add {
            return Err(e);
        }
        let value: i32 = if is_receiving {
            1
        } else {
            0
        };
        let mut args: Vec<OscType> = Vec::new();
        args.push(OscType::Int(value));
        proof {
            assert(args.deep_view() =~= seq![OscTypeView::Int(value)]);
            reveal_strlit("/notify");
            assert forall|i: int|
                0 <= i < args.deep_view().len() implies crate::types::arg_wf(
                #[trigger] args.deep_view()[i],
            ) by {
                assert(args.deep_view()[i] == OscTypeView::Int(value));
            }
            lemma_wf_request("/notify"@, args.deep_view());
        }
        match self.osc_server.send_message("/notify", Some(args)) {
            Ok(_) => Ok(()),
            Err(e) => Err(e),
        }
    }

    /// Queues a status query and registers the status responder, which
    /// stays registered and decodes every status reply.
    pub fn get_status(&mut self) -> (r: ScClientResult<()>)
        ensures
            final(self).options == old(self).options,
            final(self).osc_server@.client == old(self).osc_server@.client,
            final(self).osc_server@.server == old(self).osc_server@.server,
            final(self).osc_server@.pending == old(self).osc_server@.pending,
            final(self).osc_server@.counter == old(self).osc_server@.counter,
            r is Ok,
            final(self).osc_server@.registry == registry_with(
                old(self).osc_server@.registry,
                RespV::Status,
            ),
            final(self).osc_server@.outbox == old(self).osc_server@.outbox.push(
                wire_bytes(wire_request("/status"@, Seq::<OscTypeView>::empty())),
            ),
    {
        proof {
            lemma_reserved_distinct();
        }
        let add = self.osc_server.add_responder(OscResponder::Status(StatusResponder::new()));
        if let Err(e) = add {
            return Err(e);
        }
        proof {
            reveal_strlit("/status");
            lemma_wf_request("/status"@, Seq::<OscTypeView>::empty());
        }
        match self.osc_server.send_message("/status", None) {
            Ok(_) => Ok(()),
            Err(e) => Err(e),
        }
    }

    /// Queues a version query and registers the version responder, which
    /// decodes the one reply and is then removed.
    pub fn get_version(&mut self) -> (r: ScClientResult<()>)
        ensures
            final(self).options == old(self).options,
            final(self).osc_server@.client == old(self).osc_server@.client,
            final(self).osc_server@.server == old(self).osc_server@.server,
            final(self).osc_server@.pending == old(self).osc_server@.pending,
            final(self).osc_server@.counter == old(self).osc_server@.counter,
            r is Ok,
            final(self).osc_server@.registry == registry_with(
                old(self).osc_server@.registry,
                RespV::Version,
            ),
            final(self).osc_server@.outbox == old(self).osc_server@.outbox.push(
                wire_bytes(wire_request("/version"@, Seq::<OscTypeView>::empty())),
            ),
    {
        proof {
            lemma_reserved_distinct();
        }
        let add = self.osc_server.add_responder(OscResponder::Version(VersionResponder::new()));
        if let Err(e) = add {
            return Err(e);
        }
        proof {
            reveal_strlit("/version");
            lemma_wf_request("/version"@, Seq::<OscTypeView>::empty());
        }
        match self.osc_server.send_message("/version", None) {
            Ok(_) => Ok(()),
            Err(e) => Err(e),
        }
    }

    /// Queues a request to switch the server's OSC echo mode.
    pub fn set_dump_osc_mode(&mut self, mode: DumpOscMode) -> (r: ScClientResult<()>)
        ensures
            final(self).options == old(self).options,
            final(self).osc_server@.client == old(self).osc_server@.client,
            final(self).osc_server@.server == old(self).osc_server@.server,
            final(self).osc_server@.pending == old(self).osc_server@.pending,
            final(self).osc_server@.counter == old(self).osc_server@.counter,
            final(self).osc_server@.registry == old(self).osc_server@.registry,
            r is Ok,
            final(self).osc_server@.outbox == old(self).osc_server@.outbox.push(
                wire_bytes(
                    wire_request("/dumpOSC"@, seq![OscTypeView::Int(dump_mode_code(mode))]),
                ),
            ),
    {
        proof {
            lemma_reserved_distinct();
        }
        let code = dump_mode_code_exec(mode);
        let mut args: Vec<OscType> = Vec::new();
        args.push(OscType::Int(code));
        proof {
            assert(args.deep_view() =~= seq![OscTypeView::Int(dump_mode_code(mode))]);
            reveal_strlit("/dumpOSC");
            assert forall|i: int|
                0 <= i < args.deep_view().len() implies crate::types::arg_wf(
                #[trigger] args.deep_view()[i],
            ) by {
                assert(args.deep_view()[i] == OscTypeView::Int(code));
            }
            lemma_wf_request("/dumpOSC"@, args.deep_view());
        }
        match self.osc_server.send_message("/dumpOSC", Some(args)) {
            Ok(_) => Ok(()),
            Err(e) => Err(e),
        }
    }

    /// Queues a request to drop every message the server has scheduled but
    /// not yet executed.
    pub fn clear_message_queue(&mut self) -> (r: ScClientResult<()>)
        ensures
            final(self).options == old(self).options,
            final(self).osc_server@.client == old(self).osc_server@.client,
            final(self).osc_server@.server == old(self).osc_server@.server,
            final(self).osc_server@.pending == old(self).osc_server@.pending,
            final(self).osc_server@.counter == old(self).osc_server@.counter,
            final(self).osc_server@.registry == old(self).osc_server@.registry,
            r is Ok,
            final(self).osc_server@.outbox == old(self).osc_server@.outbox.push(
                wire_bytes(wire_request("/clearSched"@, Seq::<OscTypeView>::empty())),
            ),
    {
        proof {
            reveal_strlit("/clearSched");
            lemma_wf_request("/clearSched"@, Seq::<OscTypeView>::empty());
        }
        match self.osc_server.send_message("/clearSched", None) {
            Ok(_) => Ok(()),
            Err(e) => Err(e),
        }
    }

    /// Queues a request to switch the server's error reporting mode.
    pub fn set_error_mode(&mut self, error_mode: ScServerErrorMode) -> (r: ScClientResult<()>)
        ensures
            final(self).options == old(self).options,
            final(self).osc_server@.client == old(self).osc_server@.client,
            final(self).osc_server@.server == old(self).osc_server@.server,
            final(self).osc_server@.pending == old(self).osc_server@.pending,
            final(self).osc_server@.counter == old(self).osc_server@.counter,
            final(self).osc_server@.registry == old(self).osc_server@.registry,
            r is Ok,
            final(self).osc_server@.outbox == old(self).osc_server@.outbox.push(
                wire_bytes(
                    wire_request("/error"@, seq![OscTypeView::Int(error_mode_code(error_mode))]),
                ),
            ),
    {
        proof {
            lemma_reserved_distinct();
        }
        let code = error_mode_code_exec(error_mode);
        let mut args: Vec<OscType> = Vec::new();
        args.push(OscType::Int(code));
        proof {
            assert(args.deep_view() =~= seq![OscTypeView::Int(error_mode_code(error_mode))]);
            reveal_strlit("/error");
            assert forall|i: int|
                0 <= i < args.deep_view().len() implies crate::types::arg_wf(
                #[trigger] args.deep_view()[i],
            ) by {
                assert(args.deep_view()[i] == OscTypeView::Int(code));
            }
            lemma_wf_request("/error"@, args.deep_view());
        }
        match self.osc_server.send_message("/error", Some(args)) {
            Ok(_) => Ok(()),
            Err(e) => Err(e),
        }
    }

    /// Queues a plugin command: the command name travels as the first
    /// argument, the given arguments after it.  A name or argument unsafe
    /// for the wire is refused with an encoding error.
    pub fn call_plugin_command(&mut self, command_name: &str, arguments: Option<Vec<OscType>>)
        -> (r: ScClientResult<()>)
        ensures
            final(self).options == old(self).options,
            final(self).osc_server@.client == old(self).osc_server@.client,
            final(self).osc_server@.server == old(self).osc_server@.server,
            final(self).osc_server@.pending == old(self).osc_server@.pending,
            final(self).osc_server@.counter == old(self).osc_server@.counter,
            final(self).osc_server@.registry == old(self).osc_server@.registry,
            ({
                let m = wire_request(
                    "/cmd"@,
                    seq![OscTypeView::Str(command_name@)] + (match arguments {
                        Some(v) => v.deep_view(),
                        None => Seq::<OscTypeView>::empty(),
                    }),
                );
                if msg_wf(m) {
                    r is Ok
                        && final(self).osc_server@.outbox
                        == old(self).osc_server@.outbox.push(wire_bytes(m))
                } else {
                    r matches Err(e) && e.kind == ScErrorKind::Encoding
                        && final(self).osc_server@.outbox == old(self).osc_server@.outbox
                }
            }),
    {
        let mut send_args: Vec<OscType> = Vec::new();
        send_args.push(OscType::Str(command_name.to_owned()));
        let ghost tail = match &arguments {
            Some(v) => v.deep_view(),
            None => Seq::<OscTypeView>::empty(),
        };
        match arguments {
            Some(command_args) => {
                let mut rest = command_args;
                let ghost restv = rest.deep_view();
                send_args.append(&mut rest);
                proof {
                    assert(send_args.deep_view() =~= seq![OscTypeView::Str(command_name@)]
                        + restv);
                }
            },
            None => {
                proof {
                    assert(send_args.deep_view() =~= seq![OscTypeView::Str(command_name@)]
                        + Seq::<OscTypeView>::empty());
                }
            },
        }
        match self.osc_server.send_message("/cmd", Some(send_args)) {
            Ok(_) => Ok(()),
            Err(e) => Err(e),
        }
    }

    /// Begins an orderly shutdown of the remote process: registers the
    /// quit responder, queues the quit request, and issues a barrier so
    /// the caller can wait until the server has processed everything —
    /// including the quit — before reaping the process.  Returns the
    /// barrier counter to block on.
    pub fn shutdown(&mut self) -> (r: ScClientResult<i32>)
        requires
            old(self).osc_server@.counter < i32::MAX,
        ensures
            final(self).options == old(self).options,
            final(self).osc_server@.client == old(self).osc_server@.client,
            final(self).osc_server@.server == old(self).osc_server@.server,
            final(self).osc_server@.counter == old(self).osc_server@.counter + 1,
            r matches Ok(uid) && uid == old(self).osc_server@.counter + 1,
            final(self).osc_server@.registry == registry_with(
                old(self).osc_server@.registry,
                RespV::Quit,
            ),
            final(self).osc_server@.pending == old(self).osc_server@.pending.push(
                SyncState { uid: (old(self).osc_server@.counter + 1) as i32, resolved: false },
            ),
            final(self).osc_server@.outbox == old(self).osc_server@.outbox.push(
                wire_bytes(wire_request("/quit"@, Seq::<OscTypeView>::empty())),
            ).push(wire_bytes(sync_request((old(self).osc_server@.counter + 1) as i32))),
    {
        proof {
            lemma_reserved_distinct();
        }
        let add = self.osc_server.add_responder(OscResponder::Quit(QuitResponder));
        if let Err(e) = add {
            return Err(e);
        }
        proof {
            reveal_strlit("/quit");
            lemma_wf_request("/quit"@, Seq::<OscTypeView>::empty());
        }
        if let Err(e) = self.osc_server.send_message("/quit", None) {
            return Err(e);
        }
        self.osc_server.sync()
    }
}

/// None of the request builders' own reply addresses is the reserved
/// barrier-acknowledgment address.
pub proof fn lemma_reserved_distinct()
    ensures
        "/notify"@ != "/synced"@,
        "/status.reply"@ != "/synced"@,
        "/version.reply"@ != "/synced"@,
        "/quit"@ != "/synced"@,
        "/n_set"@ != "/synced"@,
{
    reveal_strlit("/notify");
    reveal_strlit("/synced");
    reveal_strlit("/status.reply");
    reveal_strlit("/version.reply");
    reveal_strlit("/quit");
    reveal_strlit("/n_set");
    assert("/notify"@[1] != "/synced"@[1]);
    assert("/status.reply"@.len() != "/synced"@.len());
    assert("/version.reply"@.len() != "/synced"@.len());
    assert("/quit"@.len() != "/synced"@.len());
    assert("/n_set"@.len() != "/synced"@.len());
}

/// A request whose address is a NUL-free path starting with '/' and whose
/// arguments are all well formed is a well-formed message.
pub proof fn lemma_wf_request(addr: Seq<char>, args: Seq<OscTypeView>)
    requires
        addr.len() > 0,
        addr[0] == '/',
        forall|i: int| 0 <= i < addr.len() ==> #[trigger] addr[i] != '\0',
        forall|i: int| 0 <= i < args.len() ==> crate::types::arg_wf(#[trigger] args[i]),
    ensures
        msg_wf(wire_request(addr, args)),
{
    if addr.contains('\0') {
        let k = choose|k: int| 0 <= k < addr.len() && addr[k] == '\0';
        assert(addr[k] != '\0');
    }
}

} // verus!