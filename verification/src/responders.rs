//! Registered interests in inbound replies.
//!
//! A responder pairs a reply address with a match refinement and a
//! continuation policy.  The dispatcher invokes every responder whose
//! address and refinement accept an inbound message, and removes those whose
//! continuation is one-shot.  Heterogeneous callbacks are represented as a
//! tagged variant: each variant carries the data its reply decoder needs,
//! and the caller turns the structured reply (a status record, a version
//! record, node control values) into whatever action it likes.

use vstd::prelude::*;
use crate::server::{ServerStatus, ServerVersion};
use crate::types::{clone_args, Message, MessageView, NodeValue, OscType, OscTypeView};

verus! {

/// Whether a responder stays registered after it fires.
#[derive(Clone, Copy, Debug, PartialEq, Eq, Structural)]
pub enum ResponseType {
    /// The responder is removed after its first matching dispatch.
    Once,
    /// The responder stays registered and fires on every match.
    Always,
}

/// Acknowledges a notification-subscription change.
#[derive(Debug)]
pub struct NotifyResponder {
    pub is_receiving: bool,
}

impl NotifyResponder {
    pub fn new(is_receiving: bool) -> (r: Self)
        ensures
            r.is_receiving == is_receiving,
    {
        NotifyResponder { is_receiving }
    }

    pub fn get_address(&self) -> (r: String)
        ensures
            r@ == "/notify"@,
    {
        "/notify".to_owned()
    }

    pub fn get_response_type(&self) -> (r: ResponseType)
        ensures
            r == ResponseType::Once,
    {
        ResponseType::Once
    }
}

impl Clone for NotifyResponder {
    fn clone(&self) -> (r: Self)
        ensures
            r == *self,
    {
        NotifyResponder { is_receiving: self.is_receiving }
    }
}

/// Acknowledges the quit request sent at shutdown.
#[derive(Debug)]
pub struct QuitResponder;

impl QuitResponder {
    pub fn get_address(&self) -> (r: String)
        ensures
            r@ == "/quit"@,
    {
        "/quit".to_owned()
    }

    pub fn get_response_type(&self) -> (r: ResponseType)
        ensures
            r == ResponseType::Once,
    {
        ResponseType::Once
    }
}

impl Clone for QuitResponder {
    fn clone(&self) -> (r: Self) {
        QuitResponder
    }
}

/// The value of an argument read as an integer field, zero when it is
/// anything else.
pub open spec fn spec_int_field(a: OscTypeView) -> i32 {
    match a {
        OscTypeView::Int(n) => n,
        _ => 0,
    }
}

/// The bit pattern of an argument read as a float field, zero when it is
/// anything else.
pub open spec fn spec_float_field(a: OscTypeView) -> u32 {
    match a {
        OscTypeView::Float(b) => b,
        _ => 0,
    }
}

/// The value of an argument read as a string field, empty when it is
/// anything else.
pub open spec fn spec_str_field(a: OscTypeView) -> Seq<char> {
    match a {
        OscTypeView::Str(s) => s,
        _ => Seq::empty(),
    }
}

fn int_field(a: &OscType) -> (r: i32)
    ensures
        r == spec_int_field(a@),
{
    match a {
        OscType::Int(n) => *n,
        _ => 0,
    }
}

fn float_field(a: &OscType) -> (r: u32)
    ensures
        r == spec_float_field(a@),
{
    match a {
        OscType::Float(b) => *b,
        _ => 0,
    }
}

fn str_field(a: &OscType) -> (r: String)
    ensures
        r@ == spec_str_field(a@),
{
    match a {
        OscType::Str(s) => s.clone(),
        _ => String::new(),
    }
}

/// The status record a status reply's eight arguments carry.
pub open spec fn spec_server_status(args: Seq<OscTypeView>) -> ServerStatus {
    ServerStatus {
        num_of_ugens: spec_int_field(args[0]),
        num_of_synths: spec_int_field(args[1]),
        num_of_groups: spec_int_field(args[2]),
        num_of_synthdefs: spec_int_field(args[3]),
        avg_cpu: spec_float_field(args[4]),
        peak_cpu: spec_float_field(args[5]),
        nom_sample_rate: spec_float_field(args[6]),
        actual_sample_rate: spec_float_field(args[7]),
    }
}

/// Decodes status replies into [`ServerStatus`] records.
#[derive(Debug)]
pub struct StatusResponder;

impl StatusResponder {
    pub fn new() -> (r: Self) {
        StatusResponder
    }

    pub fn get_address(&self) -> (r: String)
        ensures
            r@ == "/status.reply"@,
    {
        "/status.reply".to_owned()
    }

    pub fn get_responder_type(&self) -> (r: ResponseType)
        ensures
            r == ResponseType::Always,
    {
        ResponseType::Always
    }

    /// The structured status a reply carries, or nothing when the reply is
    /// too short to hold one.
    pub fn callback(&self, message: &Message) -> (r: Option<ServerStatus>)
        ensures
            r == (if message@.args.len() >= 8 {
                Some(spec_server_status(message@.args))
            } else {
                None::<ServerStatus>
            }),
    {
        if message.args.len() < 8 {
            return None;
        }
        Some(ServerStatus {
            num_of_ugens: int_field(&message.args[0]),
            num_of_synths: int_field(&message.args[1]),
            num_of_groups: int_field(&message.args[2]),
            num_of_synthdefs: int_field(&message.args[3]),
            avg_cpu: float_field(&message.args[4]),
            peak_cpu: float_field(&message.args[5]),
            nom_sample_rate: float_field(&message.args[6]),
            actual_sample_rate: float_field(&message.args[7]),
        })
    }
}

impl Clone for StatusResponder {
    fn clone(&self) -> (r: Self) {
        StatusResponder
    }
}

/// Decodes version replies into [`ServerVersion`] records.
#[derive(Debug)]
pub struct VersionResponder;

impl VersionResponder {
    pub fn new() -> (r: Self) {
        VersionResponder
    }

    pub fn get_address(&self) -> (r: String)
        ensures
            r@ == "/version.reply"@,
    {
        "/version.reply".to_owned()
    }

    pub fn get_response_type(&self) -> (r: ResponseType)
        ensures
            r == ResponseType::Once,
    {
        ResponseType::Once
    }

    /// The structured version a reply carries, or nothing when the reply is
    /// too short to hold one.
    pub fn callback(&self, message: &Message) -> (r: Option<ServerVersion>)
        ensures
            message@.args.len() >= 6 ==> (r matches Some(v) && v.program_name@ == spec_str_field(
                message@.args[0],
            ) && v.major_version == spec_int_field(message@.args[1]) && v.minor_version
                == spec_int_field(message@.args[2]) && v.patch_name@ == spec_str_field(
                message@.args[3],
            ) && v.git_branch@ == spec_str_field(message@.args[4]) && v.commit_hash@
                == spec_str_field(message@.args[5])),
            message@.args.len() < 6 ==> r is None,
    {
        if message.args.len() < 6 {
            return None;
        }
        Some(ServerVersion {
            program_name: str_field(&message.args[0]),
            major_version: int_field(&message.args[1]),
            minor_version: int_field(&message.args[2]),
            patch_name: str_field(&message.args[3]),
            git_branch: str_field(&message.args[4]),
            commit_hash: str_field(&message.args[5]),
        })
    }
}

impl Clone for VersionResponder {
    fn clone(&self) -> (r: Self) {
        VersionResponder
    }
}

/// The consecutive pairs of an even-length argument list.
pub open spec fn spec_node_values(args: Seq<OscTypeView>) -> Seq<(OscTypeView, OscTypeView)> {
    Seq::new(args.len() / 2, |i: int| (args[2 * i], args[2 * i + 1]))
}

/// Whether a reply's node values answer exactly the queried parameters:
/// one pair per queried parameter, each naming a queried parameter.
pub open spec fn spec_check_params(
    params: Seq<OscTypeView>,
    nvs: Seq<(OscTypeView, OscTypeView)>,
) -> bool {
    &&& params.len() == nvs.len()
    &&& forall|i: int| 0 <= i < nvs.len() ==> params.contains((#[trigger] nvs[i]).0)
}

/// Whether a node-set message answers this control-value query: it names
/// the queried synth, carries whole name/value pairs, and answers exactly
/// the queried parameters.
pub open spec fn spec_control_value_matches(
    synth_id: i32,
    params: Seq<OscTypeView>,
    args: Seq<OscTypeView>,
) -> bool {
    &&& args.len() >= 1
    &&& args[0] == OscTypeView::Int(synth_id)
    &&& (args.len() - 1) % 2 == 0
    &&& spec_check_params(params, spec_node_values(args.skip(1)))
}

/// Matches node-set replies that answer one synth's control-value query.
#[derive(Debug)]
pub struct ControlValueResponder {
    pub synth_id: i32,
    pub params: Vec<OscType>,
}

impl ControlValueResponder {
    pub fn new(synth_id: i32, params: Vec<OscType>) -> (r: Self)
        ensures
            r.synth_id == synth_id,
            r.params == params,
    {
        ControlValueResponder { synth_id, params }
    }

    pub fn get_address(&self) -> (r: String)
        ensures
            r@ == "/n_set"@,
    {
        "/n_set".to_owned()
    }

    /// The consecutive pairs of an even-length argument list.
    pub fn args_into_node_values(&self, value: &Vec<OscType>) -> (r: Vec<NodeValue>)
        requires
            value@.len() % 2 == 0,
        ensures
            r@.len() == value@.len() / 2,
            forall|i: int|
                0 <= i < r@.len() ==> (#[trigger] r@[i]).0@ == value.deep_view()[2 * i]
                    && r@[i].1@ == value.deep_view()[2 * i + 1],
    {
        let mut r: Vec<NodeValue> = Vec::new();
        let total: usize = value.len();
        let n: usize = total / 2;
        let mut i: usize = 0;
        while i < n
            invariant
                value@.len() % 2 == 0,
                total == value@.len(),
                n == total / 2,
                0 <= i <= n,
                r@.len() == i,
                forall|j: int|
                    0 <= j < i ==> (#[trigger] r@[j]).0@ == value.deep_view()[2 * j] && r@[j].1@
                        == value.deep_view()[2 * j + 1],
            decreases n - i,
        {
            proof {
                assert(2 * (i as int) + 1 < total as int) by {
                    assert(i < n);
                    assert(n == total / 2);
                }
            }
            let name = value[2 * i].clone();
            let val = value[2 * i + 1].clone();
            r.push(NodeValue(name, val));
            proof {
                assert(r@[i as int].0@ == value.deep_view()[2 * (i as int)]);
                assert(r@[i as int].1@ == value.deep_view()[2 * (i as int) + 1]);
            }
            i += 1;
        }
        r
    }

    /// Whether the reply's pairs answer exactly the queried parameters.
    pub fn check_params(&self, params: &Vec<NodeValue>) -> (b: bool)
        ensures
            b == spec_check_params(
                self.params.deep_view(),
                params@.map_values(|nv: NodeValue| (nv.0@, nv.1@)),
            ),
    {
        let ghost nvs = params@.map_values(|nv: NodeValue| (nv.0@, nv.1@));
        if self.params.len() != params.len() {
            return false;
        }
        let n: usize = params.len();
        let mut i: usize = 0;
        while i < n
            invariant
                n == params.len() == self.params.len(),
                0 <= i <= n,
                nvs == params@.map_values(|nv: NodeValue| (nv.0@, nv.1@)),
                forall|j: int|
                    0 <= j < i ==> self.params.deep_view().contains((#[trigger] nvs[j]).0),
            decreases n - i,
        {
            if !osc_vec_contains(&self.params, &params[i].0) {
                assert(!self.params.deep_view().contains(nvs[i as int].0));
                return false;
            }
            assert(nvs[i as int].0 == params@[i as int].0@);
            i += 1;
        }
        true
    }

    /// The node values carried by a matching reply, or nothing when the
    /// reply does not answer this query.
    pub fn callback(&self, message: &Message) -> (r: Option<Vec<NodeValue>>)
        ensures
            spec_control_value_matches(self.synth_id, self.params.deep_view(), message@.args) ==> (
            r matches Some(v) && v@.map_values(|nv: NodeValue| (nv.0@, nv.1@)) == spec_node_values(
                message@.args.skip(1),
            )),
            !spec_control_value_matches(self.synth_id, self.params.deep_view(), message@.args)
                ==> r is None,
    {
        let ghost argsv = message@.args;
        if message.args.len() == 0 {
            return None;
        }
        let probe = OscType::Int(self.synth_id);
        if !(message.args[0] == probe) {
            return None;
        }
        if (message.args.len() - 1) % 2 != 0 {
            return None;
        }
        let mut tail: Vec<OscType> = Vec::new();
        let n: usize = message.args.len();
        let mut i: usize = 1;
        while i < n
            invariant
                1 <= i <= n,
                n == message.args.len(),
                argsv == message@.args,
                tail@.len() == i - 1,
                tail.deep_view() =~= argsv.subrange(1, i as int),
            decreases n - i,
        {
            let ghost pre = tail.deep_view();
            let elem = message.args[i].clone();
            tail.push(elem);
            proof {
                assert(tail.deep_view() =~= pre.push(elem@));
                assert(pre.push(elem@) =~= argsv.subrange(1, i + 1));
            }
            i += 1;
        }
        proof {
            assert(tail.deep_view() =~= argsv.skip(1));
        }
        let node_values = self.args_into_node_values(&tail);
        let ghost nvs = node_values@.map_values(|nv: NodeValue| (nv.0@, nv.1@));
        proof {
            assert(nvs =~= spec_node_values(argsv.skip(1)));
        }
        if self.check_params(&node_values) {
            Some(node_values)
        } else {
            None
        }
    }
}

impl Clone for ControlValueResponder {
    fn clone(&self) -> (r: Self)
        ensures
            r.synth_id == self.synth_id,
            r.params.deep_view() == self.params.deep_view(),
    {
        ControlValueResponder { synth_id: self.synth_id, params: clone_args(&self.params) }
    }
}

/// Whether an argument list holds this argument value.
pub fn osc_vec_contains(hay: &Vec<OscType>, needle: &OscType) -> (b: bool)
    ensures
        b == hay.deep_view().contains(needle@),
{
    let n: usize = hay.len();
    let mut i: usize = 0;
    while i < n
        invariant
            n == hay.len(),
            0 <= i <= n,
            forall|j: int| 0 <= j < i ==> hay.deep_view()[j] != needle@,
        decreases n - i,
    {
        if hay[i] == *needle {
            assert(hay.deep_view()[i as int] == needle@);
            return true;
        }
        i += 1;
    }
    proof {
        if hay.deep_view().contains(needle@) {
            let k = choose|k: int|
                0 <= k < hay.deep_view().len() && hay.deep_view()[k] == needle@;
            assert(hay.deep_view()[k] != needle@);
        }
    }
    false
}

/// Wakes the barrier that issued the matching counter value.
#[derive(Debug)]
pub struct SyncResponder;

impl SyncResponder {
    pub fn new() -> (r: Self) {
        SyncResponder
    }

    pub fn get_address(&self) -> (r: String)
        ensures
            r@ == "/synced"@,
    {
        "/synced".to_owned()
    }

    pub fn get_response_type(&self) -> (r: ResponseType)
        ensures
            r == ResponseType::Always,
    {
        ResponseType::Always
    }
}

impl Clone for SyncResponder {
    fn clone(&self) -> (r: Self) {
        SyncResponder
    }
}

/// A caller-registered interest: an address, an optional first-argument
/// refinement, and a continuation policy.  The token identifies the
/// caller's callback on the caller's side.
#[derive(Debug)]
pub struct UserResponder {
    pub token: u64,
    pub address: String,
    pub response_type: ResponseType,
    pub first_arg: Option<OscType>,
}

impl Clone for UserResponder {
    fn clone(&self) -> (r: Self)
        ensures
            r.token == self.token,
            r.address@ == self.address@,
            r.response_type == self.response_type,
            match (r.first_arg, self.first_arg) {
                (Some(a), Some(b)) => a@ == b@,
                (None, None) => true,
                _ => false,
            },
    {
        let first_arg = match &self.first_arg {
            Some(a) => Some(a.clone()),
            None => None,
        };
        UserResponder {
            token: self.token,
            address: self.address.clone(),
            response_type: self.response_type,
            first_arg,
        }
    }
}

/// A registered responder: one of the client's own reply decoders, or a
/// caller-registered interest.
#[derive(Debug)]
pub enum OscResponder {
    Notify(NotifyResponder),
    Quit(QuitResponder),
    Status(StatusResponder),
    Version(VersionResponder),
    ControlValue(ControlValueResponder),
    Sync(SyncResponder),
    User(UserResponder),
}

/// The mathematical value of a responder.
pub ghost enum RespV {
    Notify { is_receiving: bool },
    Quit,
    Status,
    Version,
    ControlValue { synth_id: i32, params: Seq<OscTypeView> },
    Sync,
    User { token: u64, address: Seq<char>, once: bool, first_arg: Option<OscTypeView> },
}

impl View for OscResponder {
    type V = RespV;

    open spec fn view(&self) -> RespV {
        match self {
            OscResponder::Notify(n) => RespV::Notify { is_receiving: n.is_receiving },
            OscResponder::Quit(_) => RespV::Quit,
            OscResponder::Status(_) => RespV::Status,
            OscResponder::Version(_) => RespV::Version,
            OscResponder::ControlValue(c) => RespV::ControlValue {
                synth_id: c.synth_id,
                params: c.params.deep_view(),
            },
            OscResponder::Sync(_) => RespV::Sync,
            OscResponder::User(u) => RespV::User {
                token: u.token,
                address: u.address@,
                once: u.response_type == ResponseType::Once,
                first_arg: match u.first_arg {
                    Some(a) => Some(a@),
                    None => None,
                },
            },
        }
    }
}

impl DeepView for OscResponder {
    type V = RespV;

    open spec fn deep_view(&self) -> RespV {
        self.view()
    }
}

impl Clone for OscResponder {
    fn clone(&self) -> (r: Self)
        ensures
            r@ == self@,
    {
        match self {
            OscResponder::Notify(n) => OscResponder::Notify(n.clone()),
            OscResponder::Quit(q) => OscResponder::Quit(q.clone()),
            OscResponder::Status(s) => OscResponder::Status(s.clone()),
            OscResponder::Version(v) => OscResponder::Version(v.clone()),
            OscResponder::ControlValue(c) => OscResponder::ControlValue(c.clone()),
            OscResponder::Sync(s) => OscResponder::Sync(s.clone()),
            OscResponder::User(u) => OscResponder::User(u.clone()),
        }
    }
}

/// The reply address a responder listens on.
pub open spec fn resp_addr(r: RespV) -> Seq<char> {
    match r {
        RespV::Notify { .. } => "/notify"@,
        RespV::Quit => "/quit"@,
        RespV::Status => "/status.reply"@,
        RespV::Version => "/version.reply"@,
        RespV::ControlValue { .. } => "/n_set"@,
        RespV::Sync => "/synced"@,
        RespV::User { address, .. } => address,
    }
}

/// Whether a responder's refinement accepts a message already known to
/// carry its address.
pub open spec fn resp_matches(r: RespV, m: MessageView) -> bool {
    match r {
        RespV::ControlValue { synth_id, params } => spec_control_value_matches(
            synth_id,
            params,
            m.args,
        ),
        RespV::User { first_arg: Some(a), .. } => m.args.len() >= 1 && m.args[0] == a,
        _ => true,
    }
}

/// Whether a responder is removed after firing on this message.
pub open spec fn resp_once(r: RespV, m: MessageView) -> bool {
    match r {
        RespV::Notify { .. } => true,
        RespV::Quit => true,
        RespV::Status => false,
        RespV::Version => true,
        RespV::ControlValue { .. } => true,
        RespV::Sync => false,
        RespV::User { once, .. } => once,
    }
}

impl OscResponder {
    /// The reply address this responder listens on.
    pub fn get_address(&self) -> (r: String)
        ensures
            r@ == resp_addr(self@),
    {
        match self {
            OscResponder::Notify(n) => n.get_address(),
            OscResponder::Quit(q) => q.get_address(),
            OscResponder::Status(s) => s.get_address(),
            OscResponder::Version(v) => v.get_address(),
            OscResponder::ControlValue(c) => c.get_address(),
            OscResponder::Sync(s) => s.get_address(),
            OscResponder::User(u) => u.address.clone(),
        }
    }

    /// Whether this responder's refinement accepts the message.
    pub fn matches_message(&self, m: &Message) -> (b: bool)
        ensures
            b == resp_matches(self@, m@),
    {
        match self {
            OscResponder::ControlValue(c) => {
                let r = c.callback(m);
                r.is_some()
            },
            OscResponder::User(u) => {
                match &u.first_arg {
                    Some(a) => {
                        if m.args.len() == 0 {
                            false
                        } else {
                            m.args[0] == *a
                        }
                    },
                    None => true,
                }
            },
            _ => true,
        }
    }

    /// Whether this responder is removed after firing on the message.
    pub fn removed_after(&self, m: &Message) -> (b: bool)
        ensures
            b == resp_once(self@, m@),
    {
        match self {
            OscResponder::Notify(_) => true,
            OscResponder::Quit(_) => true,
            OscResponder::Status(_) => false,
            OscResponder::Version(_) => true,
            OscResponder::ControlValue(_) => true,
            OscResponder::Sync(_) => false,
            OscResponder::User(u) => {
                let rt = u.response_type;
                rt == ResponseType::Once
            },
        }
    }
}

} // verus!
