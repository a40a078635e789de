//! Client library for supervising a SuperCollider sound server over its
//! UDP-based OSC control protocol.
//!
//! The heart of the crate is [`OscServer`]: a message/response correlation
//! core that queues outbound datagrams, routes inbound datagrams to
//! registered responders, and correlates barrier (`/sync`) requests with
//! their acknowledgments by an embedded counter value.  All protocol logic
//! is verified; sockets, processes and threads live with the caller, which
//! transmits the datagrams the core queues and feeds received datagrams
//! back in.

pub mod codec;
pub mod error;
pub mod options;
pub mod osc_server;
pub mod responders;
pub mod server;
pub mod synth;
pub mod synth_definition;
pub mod types;

pub use codec::{decode_datagram, encode_message, encode_then_decode};
pub use error::{ScClientError, ScClientResult, ScErrorKind};
pub use responders::{
    ControlValueResponder, NotifyResponder, OscResponder, QuitResponder, ResponseType,
    StatusResponder, SyncResponder, UserResponder, VersionResponder,
};
pub use options::Options;
pub use osc_server::{
    DispatchOutcome, OscServer, ReceiveOutcome, RemoteFailureNotification, SyncState,
};
pub use server::{DumpOscMode, ScServerErrorMode, Server, ServerStatus, ServerVersion};
pub use synth::{AddAction, Synth};
pub use synth_definition::SynthDefinition;
pub use types::{Endpoint, NodeValue, Message, OscType};
