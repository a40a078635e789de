//! Synth definitions: sending, loading and freeing them on the server.

use vstd::prelude::*;
use crate::codec::wire_bytes;
use crate::error::{ScClientResult, ScErrorKind};
use crate::osc_server::wire_request;
use crate::server::Server;
use crate::types::{clone_bytes, msg_wf, OscType, OscTypeView};

verus! {

/// Requests that ship synth definitions to the server or drop them.  Each
/// request is fire-and-forget; completion arrives as a completion
/// notification under the request's own address.
pub struct SynthDefinition;

impl SynthDefinition {
    /// Queues the raw bytes of a synth definition file for the server to
    /// receive.  A buffer too large for the wire's length field is refused
    /// with an encoding error.
    pub fn send(server: &mut Server, buf: &Vec<u8>) -> (r: ScClientResult<()>)
        ensures
            final(server).options == old(server).options,
            final(server).osc_server@.client == old(server).osc_server@.client,
            final(server).osc_server@.server == old(server).osc_server@.server,
            final(server).osc_server@.pending == old(server).osc_server@.pending,
            final(server).osc_server@.counter == old(server).osc_server@.counter,
            final(server).osc_server@.registry == old(server).osc_server@.registry,
            ({
                let m = wire_request("/d_recv"@, seq![OscTypeView::Blob(buf@)]);
                if msg_wf(m) {
                    r is Ok
                        && final(server).osc_server@.outbox
                        == old(server).osc_server@.outbox.push(wire_bytes(m))
                } else {
                    r matches Err(e) && e.kind == ScErrorKind::Encoding
                        && final(server).osc_server@.outbox == old(server).osc_server@.outbox
                }
            }),
    {
        let mut args: Vec<OscType> = Vec::new();
        args.push(OscType::Blob(clone_bytes(buf)));
        proof {
            assert(args.deep_view() =~= seq![OscTypeView::Blob(buf@)]);
        }
        match server.osc_server.send_message("/d_recv", Some(args)) {
            Ok(_) => Ok(()),
            Err(e) => Err(e),
        }
    }

    /// Queues a request to load a synth definition file by path; the path
    /// may be a pattern.  A path unsafe for the wire is refused with an
    /// encoding error.
    pub fn load(server: &mut Server, file_path: &str) -> (r: ScClientResult<()>)
        ensures
            final(server).options == old(server).options,
            final(server).osc_server@.client == old(server).osc_server@.client,
            final(server).osc_server@.server == old(server).osc_server@.server,
            final(server).osc_server@.pending == old(server).osc_server@.pending,
            final(server).osc_server@.counter == old(server).osc_server@.counter,
            final(server).osc_server@.registry == old(server).osc_server@.registry,
            ({
                let m = wire_request("/d_load"@, seq![OscTypeView::Str(file_path@)]);
                if msg_wf(m) {
                    r is Ok
                        && final(server).osc_server@.outbox
                        == old(server).osc_server@.outbox.push(wire_bytes(m))
                } else {
                    r matches Err(e) && e.kind == ScErrorKind::Encoding
                        && final(server).osc_server@.outbox == old(server).osc_server@.outbox
                }
            }),
    {
        let mut args: Vec<OscType> = Vec::new();
        args.push(OscType::Str(file_path.to_owned()));
        proof {
            assert(args.deep_view() =~= seq![OscTypeView::Str(file_path@)]);
        }
        match server.osc_server.send_message("/d_load", Some(args)) {
            Ok(_) => Ok(()),
            Err(e) => Err(e),
        }
    }

    /// Queues a request to load every synth definition file under a
    /// directory.  A path unsafe for the wire is refused with an encoding
    /// error.
    pub fn load_directory(server: &mut Server, path: &str) -> (r: ScClientResult<()>)
        ensures
            final(server).options == old(server).options,
            final(server).osc_server@.client == old(server).osc_server@.client,
            final(server).osc_server@.server == old(server).osc_server@.server,
            final(server).osc_server@.pending == old(server).osc_server@.pending,
            final(server).osc_server@.counter == old(server).osc_server@.counter,
            final(server).osc_server@.registry == old(server).osc_server@.registry,
            ({
                let m = wire_request("/d_loadDir"@, seq![OscTypeView::Str(path@)]);
                if msg_wf(m) {
                    r is Ok
                        && final(server).osc_server@.outbox
                        == old(server).osc_server@.outbox.push(wire_bytes(m))
                } else {
                    r matches Err(e) && e.kind == ScErrorKind::Encoding
                        && final(server).osc_server@.outbox == old(server).osc_server@.outbox
                }
            }),
    {
        let mut args: Vec<OscType> = Vec::new();
        args.push(OscType::Str(path.to_owned()));
        proof {
            assert(args.deep_view() =~= seq![OscTypeView::Str(path@)]);
        }
        match server.osc_server.send_message("/d_loadDir", Some(args)) {
            Ok(_) => Ok(()),
            Err(e) => Err(e),
        }
    }

    /// Queues a request to remove a loaded synth definition by name.  A
    /// name unsafe for the wire is refused with an encoding error.
    pub fn free(server: &mut Server, name: &str) -> (r: ScClientResult<()>)
        ensures
            final(server).options == old(server).options,
            final(server).osc_server@.client == old(server).osc_server@.client,
            final(server).osc_server@.server == old(server).osc_server@.server,
            final(server).osc_server@.pending == old(server).osc_server@.pending,
            final(server).osc_server@.counter == old(server).osc_server@.counter,
            final(server).osc_server@.registry == old(server).osc_server@.registry,
            ({
                let m = wire_request("/d_free"@, seq![OscTypeView::Str(name@)]);
                if msg_wf(m) {
                    r is Ok
                        && final(server).osc_server@.outbox
                        == old(server).osc_server@.outbox.push(wire_bytes(m))
                } else {
                    r matches Err(e) && e.kind == ScErrorKind::Encoding
                        && final(server).osc_server@.outbox == old(server).osc_server@.outbox
                }
            }),
    {
        let mut args: Vec<OscType> = Vec::new();
        args.push(OscType::Str(name.to_owned()));
        proof {
            assert(args.deep_view() =~= seq![OscTypeView::Str(name@)]);
        }
        match server.osc_server.send_message("/d_free", Some(args)) {
            Ok(_) => Ok(()),
            Err(e) => Err(e),
        }
    }
}

} // verus!
