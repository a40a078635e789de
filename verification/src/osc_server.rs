//! The message/response correlation core.
//!
//! [`OscServer`] owns the responder registry, a monotonically increasing
//! barrier counter with its outstanding-barrier list, and an outbox of
//! encoded datagrams.  Callers register responders and queue requests; the
//! owner of the socket transmits whatever [`OscServer::take_outgoing`]
//! yields and feeds every received datagram to
//! [`OscServer::on_receive_packet`], which validates the sender, decodes
//! the datagram, and routes each carried message: failure notifications are
//! surfaced without invoking responders, completion notifications are
//! re-dispatched under the completed request's own address, and everything
//! else fires exactly the registered responders whose address and
//! refinement accept it, removing the one-shot ones.
//!
//! Barrier correlation is by counter value: each `sync` embeds a fresh
//! counter in its request, and only an acknowledgment carrying that same
//! counter resolves it, so concurrent barriers never satisfy each other.

use vstd::prelude::*;
use crate::codec::{decode_datagram, encode_message, parse_datagram, wire_bytes};
use crate::error::{ScClientError, ScClientResult, ScErrorKind};
use crate::responders::{resp_addr, resp_matches, resp_once, OscResponder, RespV, SyncResponder};
use crate::types::{msg_wf, str_is, Endpoint, Message, MessageView, OscType, OscTypeView};

verus! {

#[verifier::external_type_specification]
#[verifier::external_body]
#[verifier::reject_recursive_types(K)]
#[verifier::reject_recursive_types(V)]
pub struct ExCHashMap<K, V>(chashmap::CHashMap<K, V>);

/// A registry with nothing in it.
pub open spec fn empty_registry() -> Map<Seq<char>, Seq<RespV>> {
    Map::empty()
}

/// What the registry's concurrent hash map holds: for each address, the
/// responders registered under it, oldest first.
pub uninterp spec fn chm_view(m: chashmap::CHashMap<String, Vec<OscResponder>>) -> Map<
    Seq<char>,
    Seq<RespV>,
>;

/// Relies on chashmap::CHashMap::new: the new map holds nothing.
#[verifier::external_body]
fn chm_new() -> (m: chashmap::CHashMap<String, Vec<OscResponder>>)
    ensures
        chm_view(m) == empty_registry(),
{
    chashmap::CHashMap::new()
}

/// Relies on chashmap::CHashMap::get: the value stored at the key, copied
/// out entry by entry, or nothing when the key is absent.
#[verifier::external_body]
fn chm_get(m: &chashmap::CHashMap<String, Vec<OscResponder>>, key: &String) -> (r: Option<
    Vec<OscResponder>,
>)
    ensures
        match r {
            Some(v) => chm_view(*m).contains_key(key@) && v.deep_view() == chm_view(*m)[key@],
            None => !chm_view(*m).contains_key(key@),
        },
{
    m.get(key).map(|g| (*g).clone())
}

/// Relies on chashmap::CHashMap::insert: afterwards the map holds `val` at
/// `key` and is unchanged elsewhere.
#[verifier::external_body]
fn chm_insert(
    m: &mut chashmap::CHashMap<String, Vec<OscResponder>>,
    key: String,
    val: Vec<OscResponder>,
)
    ensures
        chm_view(*final(m)) == chm_view(*old(m)).insert(key@, val.deep_view()),
{
    m.insert(key, val);
}

/// Relies on chashmap::CHashMap::remove: afterwards the key is absent and
/// the map is unchanged elsewhere.
#[verifier::external_body]
fn chm_remove(m: &mut chashmap::CHashMap<String, Vec<OscResponder>>, key: &String)
    ensures
        chm_view(*final(m)) == chm_view(*old(m)).remove(key@),
{
    m.remove(key);
}

/// One outstanding barrier: the counter value its request carried, and
/// whether its acknowledgment has arrived.
#[derive(Clone, Copy, Debug, PartialEq, Eq, Structural)]
pub struct SyncState {
    pub uid: i32,
    pub resolved: bool,
}

/// A failure notification from the remote process: which request failed
/// and why.  Surfaced as an observable outcome, never dispatched to
/// responders.
#[derive(Debug)]
pub struct RemoteFailureNotification {
    pub address: String,
    pub description: String,
}

impl Clone for RemoteFailureNotification {
    fn clone(&self) -> (r: Self)
        ensures
            r.address@ == self.address@,
            r.description@ == self.description@,
    {
        RemoteFailureNotification {
            address: self.address.clone(),
            description: self.description.clone(),
        }
    }
}

/// What dispatching one inbound message produced.
#[derive(Debug)]
pub enum DispatchOutcome {
    /// The responders that fired, in registration order.
    Responders(Vec<OscResponder>),
    /// The message was a failure notification.
    Failure(RemoteFailureNotification),
    /// The message was a completion notification without a usable embedded
    /// address.
    NoAction,
}

/// The mathematical value of a [`DispatchOutcome`].
pub ghost enum OutcomeV {
    Fired(Seq<RespV>),
    Failure { address: Seq<char>, description: Seq<char> },
    NoAction,
}

impl View for DispatchOutcome {
    type V = OutcomeV;

    open spec fn view(&self) -> OutcomeV {
        match self {
            DispatchOutcome::Responders(v) => OutcomeV::Fired(v.deep_view()),
            DispatchOutcome::Failure(f) => OutcomeV::Failure {
                address: f.address@,
                description: f.description@,
            },
            DispatchOutcome::NoAction => OutcomeV::NoAction,
        }
    }
}

impl DeepView for DispatchOutcome {
    type V = OutcomeV;

    open spec fn deep_view(&self) -> OutcomeV {
        self.view()
    }
}

/// What receiving one datagram produced.
#[derive(Debug)]
pub enum ReceiveOutcome {
    /// The datagram came from an address other than the configured remote
    /// endpoint and was discarded untouched.
    Rejected,
    /// The datagram could not be decoded and was discarded untouched.
    DecodeFailed,
    /// The datagram's messages were dispatched, in order.
    Dispatched(Vec<DispatchOutcome>),
}

/// The mathematical state of the correlation core.
pub ghost struct CoreV {
    /// For each address, the responders registered under it, oldest first.
    pub registry: Map<Seq<char>, Seq<RespV>>,
    /// The outstanding barriers, oldest first.
    pub pending: Seq<SyncState>,
    /// The encoded datagrams queued for transmission, oldest first.
    pub outbox: Seq<Seq<u8>>,
    /// The barrier counter: the value the most recent barrier request
    /// carried.
    pub counter: i32,
    /// The local listening endpoint.
    pub client: Endpoint,
    /// The remote server endpoint; only datagrams from it are dispatched.
    pub server: Endpoint,
}

/// The responders of `rs` that fire on `m`, in order.
pub open spec fn fired_of(rs: Seq<RespV>, m: MessageView) -> Seq<RespV>
    decreases rs.len(),
{
    if rs.len() == 0 {
        Seq::empty()
    } else {
        fired_of(rs.drop_last(), m) + (if resp_matches(rs.last(), m) {
            seq![rs.last()]
        } else {
            Seq::empty()
        })
    }
}

/// The responders of `rs` still registered after `m` was dispatched: all
/// but those that fired and are one-shot.
pub open spec fn retained_of(rs: Seq<RespV>, m: MessageView) -> Seq<RespV>
    decreases rs.len(),
{
    if rs.len() == 0 {
        Seq::empty()
    } else {
        retained_of(rs.drop_last(), m) + (if resp_matches(rs.last(), m) && resp_once(
            rs.last(),
            m,
        ) {
            Seq::empty()
        } else {
            seq![rs.last()]
        })
    }
}

/// The responders that fire when `m` is dispatched under key `k`.
pub open spec fn fired_at(reg: Map<Seq<char>, Seq<RespV>>, k: Seq<char>, m: MessageView) -> Seq<
    RespV,
> {
    if reg.contains_key(k) {
        fired_of(reg[k], m)
    } else {
        Seq::empty()
    }
}

/// The registry with one more responder registered under its own
/// address, behind those already there.
pub open spec fn registry_with(reg: Map<Seq<char>, Seq<RespV>>, rv: RespV) -> Map<
    Seq<char>,
    Seq<RespV>,
> {
    reg.insert(
        resp_addr(rv),
        (if reg.contains_key(resp_addr(rv)) {
            reg[resp_addr(rv)]
        } else {
            Seq::<RespV>::empty()
        }).push(rv),
    )
}

/// The registry after `m` was dispatched under key `k`.
pub open spec fn registry_after(reg: Map<Seq<char>, Seq<RespV>>, k: Seq<char>, m: MessageView) -> Map<
    Seq<char>,
    Seq<RespV>,
> {
    if reg.contains_key(k) {
        reg.insert(k, retained_of(reg[k], m))
    } else {
        reg
    }
}

/// The counter value a barrier acknowledgment carries, if any.
pub open spec fn synced_uid(args: Seq<OscTypeView>) -> Option<i32> {
    if args.len() >= 1 {
        match args[0] {
            OscTypeView::Int(n) => Some(n),
            _ => None,
        }
    } else {
        None
    }
}

/// The outstanding barriers after an acknowledgment carrying `uid`
/// arrived: exactly the barriers that sent `uid` are resolved.
pub open spec fn resolve_pending(p: Seq<SyncState>, uid: i32) -> Seq<SyncState> {
    p.map_values(
        |st: SyncState|
            if st.uid == uid {
                SyncState { uid: st.uid, resolved: true }
            } else {
                st
            },
    )
}

/// The string argument at `i`, or empty when missing or not a string.
pub open spec fn str_arg_or_empty(args: Seq<OscTypeView>, i: int) -> Seq<char> {
    if args.len() > i {
        match args[i] {
            OscTypeView::Str(s) => s,
            _ => Seq::empty(),
        }
    } else {
        Seq::empty()
    }
}

/// One step of the dispatcher: what routing a single decoded message does
/// to the core, and what it produces.
pub open spec fn step_message(s: CoreV, m: MessageView) -> (CoreV, OutcomeV) {
    if m.addr == "/fail"@ {
        (
            s,
            OutcomeV::Failure {
                address: str_arg_or_empty(m.args, 0),
                description: str_arg_or_empty(m.args, 1),
            },
        )
    } else if m.addr == "/done"@ {
        if m.args.len() >= 1 {
            match m.args[0] {
                OscTypeView::Str(k) => (
                    CoreV { registry: registry_after(s.registry, k, m), ..s },
                    OutcomeV::Fired(fired_at(s.registry, k, m)),
                ),
                _ => (s, OutcomeV::NoAction),
            }
        } else {
            (s, OutcomeV::NoAction)
        }
    } else {
        let pending = if m.addr == "/synced"@ {
            match synced_uid(m.args) {
                Some(uid) => resolve_pending(s.pending, uid),
                None => s.pending,
            }
        } else {
            s.pending
        };
        (
            CoreV { registry: registry_after(s.registry, m.addr, m), pending, ..s },
            OutcomeV::Fired(fired_at(s.registry, m.addr, m)),
        )
    }
}

/// The dispatcher's run over the messages of one datagram, in order.
pub open spec fn run_messages(s: CoreV, ms: Seq<MessageView>) -> (CoreV, Seq<OutcomeV>)
    decreases ms.len(),
{
    if ms.len() == 0 {
        (s, Seq::empty())
    } else {
        let (s1, o) = step_message(s, ms[0]);
        let (s2, os) = run_messages(s1, ms.drop_first());
        (s2, seq![o] + os)
    }
}

/// The message/response correlation core for one remote server.
pub struct OscServer {
    client_address: Endpoint,
    server_address: Endpoint,
    responders: chashmap::CHashMap<String, Vec<OscResponder>>,
    sync_uid: i32,
    sync_states: Vec<SyncState>,
    outbox: Vec<Vec<u8>>,
}

impl View for OscServer {
    type V = CoreV;

    closed spec fn view(&self) -> CoreV {
        CoreV {
            registry: chm_view(self.responders),
            pending: self.sync_states@,
            outbox: self.outbox.deep_view(),
            counter: self.sync_uid,
            client: self.client_address,
            server: self.server_address,
        }
    }
}

impl OscServer {
    /// A fresh core: the barrier-acknowledgment responder is registered on
    /// its reserved address, nothing else is, no barrier is outstanding and
    /// nothing is queued.
    pub fn new(client_address: Endpoint, server_address: Endpoint) -> (r: Self)
        ensures
            r@.client == client_address,
            r@.server == server_address,
            r@.registry == empty_registry().insert("/synced"@, seq![RespV::Sync]),
            r@.pending == Seq::<SyncState>::empty(),
            r@.outbox == Seq::<Seq<u8>>::empty(),
            r@.counter == 0,
    {
        let mut responders = chm_new();
        let sync_responder = SyncResponder::new();
        let address = sync_responder.get_address();
        let mut entry: Vec<OscResponder> = Vec::new();
        entry.push(OscResponder::Sync(sync_responder));
        proof {
            assert(entry.deep_view() =~= seq![RespV::Sync]);
        }
        chm_insert(&mut responders, address, entry);
        let r = OscServer {
            client_address,
            server_address,
            responders,
            sync_uid: 0,
            sync_states: Vec::new(),
            outbox: Vec::new(),
        };
        proof {
            assert(r@.outbox =~= Seq::<Seq<u8>>::empty());
        }
        r
    }

    /// The local listening endpoint this core was configured with.
    pub fn get_client_address(&self) -> (r: Endpoint)
        ensures
            r == self@.client,
    {
        self.client_address
    }

    /// The remote server endpoint this core was configured with.
    pub fn get_server_address(&self) -> (r: Endpoint)
        ensures
            r == self@.server,
    {
        self.server_address
    }

    /// Registers a responder under its own address.  The barrier
    /// acknowledgment address is reserved for the barrier protocol: a
    /// responder for it is refused and the registry is left untouched.
    pub fn add_responder(&mut self, responder: OscResponder) -> (r: ScClientResult<()>)
        ensures
            final(self)@.client == old(self)@.client,
            final(self)@.server == old(self)@.server,
            final(self)@.pending == old(self)@.pending,
            final(self)@.outbox == old(self)@.outbox,
            final(self)@.counter == old(self)@.counter,
            if resp_addr(responder@) == "/synced"@ {
                &&& r matches Err(e) && e.kind == ScErrorKind::ReservedAddress
                &&& final(self)@.registry == old(self)@.registry
            } else {
                &&& r is Ok
                &&& final(self)@.registry == registry_with(old(self)@.registry, responder@)
            },
    {
        let address = responder.get_address();
        if str_is(&address, "/synced") {
            return Err(
                ScClientError::with_kind(
                    ScErrorKind::ReservedAddress,
                    "can't add responder for reserved address",
                ),
            );
        }
        let mut entry = match chm_get(&self.responders, &address) {
            Some(v) => v,
            None => Vec::new(),
        };
        proof {
            if !old(self)@.registry.contains_key(address@) {
                assert(entry.deep_view() =~= Seq::<RespV>::empty());
            }
        }
        let ghost prev = entry.deep_view();
        let ghost rv = responder@;
        entry.push(responder);
        proof {
            assert(entry@.last()@ == rv);
            assert(entry.deep_view() =~= prev.push(rv));
        }
        chm_insert(&mut self.responders, address, entry);
        Ok(())
    }

    /// Removes every responder registered for the address.  Idempotent:
    /// removing from an address with no responders changes nothing.
    pub fn remove_responder_for_address(&mut self, address: &str)
        ensures
            final(self)@.client == old(self)@.client,
            final(self)@.server == old(self)@.server,
            final(self)@.pending == old(self)@.pending,
            final(self)@.outbox == old(self)@.outbox,
            final(self)@.counter == old(self)@.counter,
            final(self)@.registry == old(self)@.registry.remove(address@),
    {
        let key: String = address.to_owned();
        chm_remove(&mut self.responders, &key);
    }

    /// Encodes `(address, arguments)` and queues the datagram for
    /// transmission, returning how many bytes it holds.  A malformed
    /// message is refused with an encoding error and nothing is queued.
    pub fn send_message(&mut self, address: &str, arguments: Option<Vec<OscType>>) -> (r:
        ScClientResult<usize>)
        ensures
            final(self)@.client == old(self)@.client,
            final(self)@.server == old(self)@.server,
            final(self)@.pending == old(self)@.pending,
            final(self)@.counter == old(self)@.counter,
            final(self)@.registry == old(self)@.registry,
            ({
                let m = MessageView {
                    addr: address@,
                    args: match arguments {
                        Some(v) => v.deep_view(),
                        None => Seq::<OscTypeView>::empty(),
                    },
                };
                if msg_wf(m) {
                    &&& r matches Ok(n) && n == wire_bytes(m).len()
                    &&& final(self)@.outbox == old(self)@.outbox.push(wire_bytes(m))
                } else {
                    &&& r matches Err(e) && e.kind == ScErrorKind::Encoding
                    &&& final(self)@.outbox == old(self)@.outbox
                }
            }),
    {
        let ghost mspec = MessageView {
            addr: address@,
            args: match &arguments {
                Some(v) => v.deep_view(),
                None => Seq::<OscTypeView>::empty(),
            },
        };
        let args = match arguments {
            Some(v) => v,
            None => Vec::new(),
        };
        proof {
            assert(args.deep_view() =~= mspec.args);
        }
        let message = Message { addr: address.to_owned(), args };
        proof {
            assert(message@.addr == mspec.addr);
            assert(message@.args == mspec.args);
            assert(message@ == mspec);
        }
        match encode_message(&message) {
            Ok(bytes) => {
                let n = bytes.len();
                let ghost prev = self.outbox.deep_view();
                self.outbox.push(bytes);
                proof {
                    assert(self.outbox.deep_view() =~~= prev.push(wire_bytes(mspec)));
                }
                Ok(n)
            },
            Err(e) => Err(e),
        }
    }

    /// The datagrams queued so far, oldest first; the outbox is left
    /// empty.  The socket's owner transmits them in this order.
    pub fn take_outgoing(&mut self) -> (r: Vec<Vec<u8>>)
        ensures
            final(self)@.client == old(self)@.client,
            final(self)@.server == old(self)@.server,
            final(self)@.pending == old(self)@.pending,
            final(self)@.counter == old(self)@.counter,
            final(self)@.registry == old(self)@.registry,
            r.deep_view() == old(self)@.outbox,
            final(self)@.outbox == Seq::<Seq<u8>>::empty(),
    {
        let mut taken: Vec<Vec<u8>> = Vec::new();
        core::mem::swap(&mut taken, &mut self.outbox);
        proof {
            assert(self.outbox.deep_view() =~= Seq::<Seq<u8>>::empty());
        }
        taken
    }

    /// Dispatches `message` to the responders registered under `key`:
    /// every responder whose refinement accepts the message fires, in
    /// registration order, and the one-shot ones among them are removed.
    pub fn call_responder_for_key(&mut self, key: &String, message: &Message) -> (fired: Vec<
        OscResponder,
    >)
        ensures
            final(self)@.client == old(self)@.client,
            final(self)@.server == old(self)@.server,
            final(self)@.pending == old(self)@.pending,
            final(self)@.outbox == old(self)@.outbox,
            final(self)@.counter == old(self)@.counter,
            final(self)@.registry == registry_after(old(self)@.registry, key@, message@),
            fired.deep_view() == fired_at(old(self)@.registry, key@, message@),
    {
        match chm_get(&self.responders, key) {
            None => {
                let fired: Vec<OscResponder> = Vec::new();
                proof {
                    assert(fired.deep_view() =~= Seq::<RespV>::empty());
                }
                fired
            },
            Some(entries) => {
                let ghost rs = entries.deep_view();
                let mut fired: Vec<OscResponder> = Vec::new();
                let mut retained: Vec<OscResponder> = Vec::new();
                let n: usize = entries.len();
                let mut i: usize = 0;
                proof {
                    assert(fired.deep_view() =~= Seq::<RespV>::empty());
                    assert(retained.deep_view() =~= Seq::<RespV>::empty());
                    assert(rs.take(0) =~= Seq::<RespV>::empty());
                }
                while i < n
                    invariant
                        0 <= i <= n,
                        n == entries.len(),
                        rs == entries.deep_view(),
                        fired.deep_view() == fired_of(rs.take(i as int), message@),
                        retained.deep_view() == retained_of(rs.take(i as int), message@),
                    decreases n - i,
                {
                    let r = &entries[i];
                    let is_match = r.matches_message(message);
                    let once = r.removed_after(message);
                    proof {
                        assert(entries.deep_view()[i as int] == entries@[i as int].deep_view());
                        assert(r@ == rs[i as int]);
                        assert(rs.take(i as int + 1).drop_last() =~= rs.take(i as int));
                        assert(rs.take(i as int + 1).last() == rs[i as int]);
                    }
                    if is_match {
                        let ghost fprev = fired.deep_view();
                        fired.push(r.clone());
                        proof {
                            assert(fired.deep_view() =~= fprev.push(rs[i as int]));
                            assert(fprev + seq![rs[i as int]] =~= fprev.push(rs[i as int]));
                        }
                        if !once {
                            let ghost kprev = retained.deep_view();
                            retained.push(r.clone());
                            proof {
                                assert(retained.deep_view() =~= kprev.push(rs[i as int]));
                                assert(kprev + seq![rs[i as int]] =~= kprev.push(rs[i as int]));
                            }
                        } else {
                            proof {
                                assert(retained.deep_view() + Seq::<RespV>::empty()
                                    =~= retained.deep_view());
                            }
                        }
                    } else {
                        let ghost kprev = retained.deep_view();
                        retained.push(r.clone());
                        proof {
                            assert(fired.deep_view() + Seq::<RespV>::empty() =~= fired.deep_view());
                            assert(retained.deep_view() =~= kprev.push(rs[i as int]));
                            assert(kprev + seq![rs[i as int]] =~= kprev.push(rs[i as int]));
                        }
                    }
                    i += 1;
                }
                proof {
                    assert(rs.take(n as int) =~= rs);
                }
                chm_insert(&mut self.responders, key.clone(), retained);
                fired
            },
        }
    }

    /// Marks every outstanding barrier that sent `uid` as resolved.
    fn mark_synced(&mut self, uid: i32)
        ensures
            final(self)@.client == old(self)@.client,
            final(self)@.server == old(self)@.server,
            final(self)@.registry == old(self)@.registry,
            final(self)@.outbox == old(self)@.outbox,
            final(self)@.counter == old(self)@.counter,
            final(self)@.pending == resolve_pending(old(self)@.pending, uid),
    {
        let n: usize = self.sync_states.len();
        let mut v: Vec<SyncState> = Vec::new();
        let mut i: usize = 0;
        while i < n
            invariant
                0 <= i <= n,
                n == self.sync_states.len(),
                v@.len() == i,
                forall|j: int|
                    0 <= j < i ==> v@[j] == (if self.sync_states@[j].uid == uid {
                        SyncState { uid, resolved: true }
                    } else {
                        self.sync_states@[j]
                    }),
            decreases n - i,
        {
            let st = self.sync_states[i];
            if st.uid == uid {
                v.push(SyncState { uid: st.uid, resolved: true });
            } else {
                v.push(st);
            }
            i += 1;
        }
        proof {
            assert(v@ =~= resolve_pending(self.sync_states@, uid));
        }
        self.sync_states = v;
    }

    /// Routes one decoded message: a failure notification is surfaced
    /// without touching the registry, a completion notification is
    /// re-dispatched under its embedded address, a barrier acknowledgment
    /// resolves exactly the barrier whose counter it carries, and
    /// everything else is dispatched under its own address.
    pub fn on_message(&mut self, message: &Message) -> (out: DispatchOutcome)
        ensures
            final(self)@.client == old(self)@.client,
            final(self)@.server == old(self)@.server,
            final(self)@ == step_message(old(self)@, message@).0,
            out@ == step_message(old(self)@, message@).1,
    {
        if str_is(&message.addr, "/fail") {
            let address = if message.args.len() >= 1 {
                match &message.args[0] {
                    OscType::Str(s) => s.clone(),
                    _ => String::new(),
                }
            } else {
                String::new()
            };
            let description = if message.args.len() >= 2 {
                match &message.args[1] {
                    OscType::Str(s) => s.clone(),
                    _ => String::new(),
                }
            } else {
                String::new()
            };
            proof {
                assert(address@ == str_arg_or_empty(message@.args, 0));
                assert(description@ == str_arg_or_empty(message@.args, 1));
            }
            DispatchOutcome::Failure(RemoteFailureNotification { address, description })
        } else if str_is(&message.addr, "/done") {
            if message.args.len() >= 1 {
                let embedded = match &message.args[0] {
                    OscType::Str(s) => Some(s.clone()),
                    _ => None,
                };
                match embedded {
                    Some(key) => {
                        let fired = self.call_responder_for_key(&key, message);
                        DispatchOutcome::Responders(fired)
                    },
                    None => DispatchOutcome::NoAction,
                }
            } else {
                DispatchOutcome::NoAction
            }
        } else {
            let key = message.addr.clone();
            let fired = self.call_responder_for_key(&key, message);
            if str_is(&message.addr, "/synced") {
                if message.args.len() >= 1 {
                    let uid = match &message.args[0] {
                        OscType::Int(n) => Some(*n),
                        _ => None,
                    };
                    match uid {
                        Some(n) => self.mark_synced(n),
                        None => (),
                    }
                }
            }
            DispatchOutcome::Responders(fired)
        }
    }

    /// Handles one received datagram.  A datagram from any sender other
    /// than the configured remote endpoint is rejected untouched; a
    /// malformed datagram is discarded untouched; otherwise each carried
    /// message is routed in order.  No failure here ever stops the core:
    /// the caller keeps listening.
    pub fn on_receive_packet(&mut self, sender: Endpoint, buf: &[u8]) -> (out: ReceiveOutcome)
        ensures
            final(self)@.client == old(self)@.client,
            final(self)@.server == old(self)@.server,
            sender != old(self)@.server ==> (out is Rejected && final(self)@ == old(self)@),
            sender == old(self)@.server ==> match parse_datagram(buf@) {
                Some(ms) => out matches ReceiveOutcome::Dispatched(v) && final(self)@ == run_messages(
                    old(self)@,
                    ms,
                ).0 && v.deep_view() == run_messages(old(self)@, ms).1,
                None => out is DecodeFailed && final(self)@ == old(self)@,
            },
    {
        if !(sender == self.server_address) {
            return ReceiveOutcome::Rejected;
        }
        match decode_datagram(buf) {
            None => ReceiveOutcome::DecodeFailed,
            Some(msgs) => {
                let ghost all = msgs.deep_view();
                let mut outs: Vec<DispatchOutcome> = Vec::new();
                let n: usize = msgs.len();
                let mut i: usize = 0;
                proof {
                    assert(all.skip(0) =~= all);
                    assert(outs.deep_view() =~= Seq::<OutcomeV>::empty());
                    assert(Seq::<OutcomeV>::empty() + run_messages(self@, all).1 =~= run_messages(
                        self@,
                        all,
                    ).1);
                }
                while i < n
                    invariant
                        0 <= i <= n,
                        n == msgs.len(),
                        all == msgs.deep_view(),
                        self@.client == old(self)@.client,
                        self@.server == old(self)@.server,
                        run_messages(old(self)@, all).0 == run_messages(
                            self@,
                            all.skip(i as int),
                        ).0,
                        run_messages(old(self)@, all).1 == outs.deep_view() + run_messages(
                            self@,
                            all.skip(i as int),
                        ).1,
                    decreases n - i,
                {
                    let ghost pre = self@;
                    let ghost rest = all.skip(i as int);
                    proof {
                        assert(rest.len() > 0);
                        assert(rest[0] == all[i as int]);
                        assert(msgs.deep_view()[i as int] == msgs@[i as int].deep_view());
                        assert(rest.drop_first() =~= all.skip(i as int + 1));
                    }
                    let m = &msgs[i];
                    let o = self.on_message(m);
                    proof {
                        assert(m@ == all[i as int]);
                        assert(step_message(pre, rest[0]).0 == self@);
                        assert(step_message(pre, rest[0]).1 == o@);
                        assert(run_messages(pre, rest).0 == run_messages(
                            self@,
                            all.skip(i as int + 1),
                        ).0);
                        assert(run_messages(pre, rest).1 == seq![o@] + run_messages(
                            self@,
                            all.skip(i as int + 1),
                        ).1);
                    }
                    let ghost oprev = outs.deep_view();
                    outs.push(o);
                    proof {
                        assert(outs.deep_view() =~= oprev.push(outs@.last()@));
                        assert(oprev + (seq![outs@.last()@] + run_messages(
                            self@,
                            all.skip(i as int + 1),
                        ).1) =~= outs.deep_view() + run_messages(self@, all.skip(i as int + 1)).1);
                    }
                    i += 1;
                }
                proof {
                    assert(all.skip(n as int) =~= Seq::<MessageView>::empty());
                    assert(outs.deep_view() + Seq::<OutcomeV>::empty() =~= outs.deep_view());
                }
                ReceiveOutcome::Dispatched(outs)
            },
        }
    }

    /// Issues a barrier: increments the counter, records the new barrier
    /// as outstanding, and queues a barrier request carrying the counter
    /// value as its sole argument.  The caller blocks until
    /// [`OscServer::get_sync_state_for_uid`] reports the returned counter
    /// resolved, then discards it with
    /// [`OscServer::remove_sync_state_for_uid`].
    pub fn sync(&mut self) -> (r: ScClientResult<i32>)
        requires
            old(self)@.counter < i32::MAX,
        ensures
            final(self)@.client == old(self)@.client,
            final(self)@.server == old(self)@.server,
            final(self)@.registry == old(self)@.registry,
            final(self)@.counter == old(self)@.counter + 1,
            r matches Ok(uid) && uid == old(self)@.counter + 1,
            final(self)@.pending == old(self)@.pending.push(
                SyncState { uid: (old(self)@.counter + 1) as i32, resolved: false },
            ),
            final(self)@.outbox == old(self)@.outbox.push(
                wire_bytes(sync_request((old(self)@.counter + 1) as i32)),
            ),
    {
        self.sync_uid = self.sync_uid + 1;
        let uid = self.sync_uid;
        self.sync_states.push(SyncState { uid, resolved: false });
        let mut args: Vec<OscType> = Vec::new();
        args.push(OscType::Int(uid));
        proof {
            reveal_strlit("/sync");
            assert(args.deep_view() =~= seq![OscTypeView::Int(uid)]);
            assert(msg_wf(sync_request(uid))) by {
                let a = sync_request(uid).addr;
                assert(a.len() == 5);
                assert(a[0] == '/');
                if a.contains('\0') {
                    let k = choose|k: int| 0 <= k < a.len() && a[k] == '\0';
                }
            }
        }
        match self.send_message("/sync", Some(args)) {
            Ok(_) => Ok(uid),
            Err(e) => Err(e),
        }
    }

    /// The barrier counter's current value: the value the most recent
    /// barrier request carried, zero before any was issued.
    pub fn get_sync_counter(&self) -> (r: i32)
        ensures
            r == self@.counter,
    {
        self.sync_uid
    }

    /// Whether the barrier that sent `uid` has been resolved by its
    /// acknowledgment.  A counter never issued, or already discarded,
    /// reports unresolved.
    pub fn get_sync_state_for_uid(&self, uid: i32) -> (b: bool)
        ensures
            b == pending_resolved(self@.pending, uid),
    {
        let n: usize = self.sync_states.len();
        let mut i: usize = 0;
        while i < n
            invariant
                0 <= i <= n,
                n == self.sync_states.len(),
                forall|j: int|
                    0 <= j < i ==> !(self.sync_states@[j].uid == uid
                        && self.sync_states@[j].resolved),
            decreases n - i,
        {
            let st = self.sync_states[i];
            if st.uid == uid && st.resolved {
                return true;
            }
            i += 1;
        }
        false
    }

    /// Discards the barrier record for `uid`.  Idempotent.
    pub fn remove_sync_state_for_uid(&mut self, uid: i32)
        ensures
            final(self)@.client == old(self)@.client,
            final(self)@.server == old(self)@.server,
            final(self)@.registry == old(self)@.registry,
            final(self)@.outbox == old(self)@.outbox,
            final(self)@.counter == old(self)@.counter,
            final(self)@.pending == without_uid(old(self)@.pending, uid),
    {
        let n: usize = self.sync_states.len();
        let mut v: Vec<SyncState> = Vec::new();
        let mut i: usize = 0;
        proof {
            assert(self.sync_states@.take(0) =~= Seq::<SyncState>::empty());
        }
        while i < n
            invariant
                0 <= i <= n,
                n == self.sync_states.len(),
                v@ == without_uid(self.sync_states@.take(i as int), uid),
            decreases n - i,
        {
            let ghost p = self.sync_states@;
            proof {
                assert(p.take(i as int + 1).drop_last() =~= p.take(i as int));
                assert(p.take(i as int + 1).last() == p[i as int]);
            }
            let st = self.sync_states[i];
            if st.uid != uid {
                let ghost vprev = v@;
                v.push(st);
                proof {
                    assert(vprev + seq![p[i as int]] =~= v@);
                }
            } else {
                proof {
                    assert(v@ + Seq::<SyncState>::empty() =~= v@);
                }
            }
            i += 1;
        }
        proof {
            assert(self.sync_states@.take(n as int) =~= self.sync_states@);
        }
        self.sync_states = v;
    }
}

/// A request message: an address with its arguments.
pub open spec fn wire_request(addr: Seq<char>, args: Seq<OscTypeView>) -> MessageView {
    MessageView { addr, args }
}

/// The barrier request that `sync` queues for counter value `uid`.
pub open spec fn sync_request(uid: i32) -> MessageView {
    MessageView { addr: "/sync"@, args: seq![OscTypeView::Int(uid)] }
}

/// Whether the outstanding-barrier list records `uid` as resolved.
pub open spec fn pending_resolved(p: Seq<SyncState>, uid: i32) -> bool {
    exists|i: int| 0 <= i < p.len() && p[i].uid == uid && p[i].resolved
}

/// The outstanding-barrier list with every record for `uid` discarded.
pub open spec fn without_uid(p: Seq<SyncState>, uid: i32) -> Seq<SyncState>
    decreases p.len(),
{
    if p.len() == 0 {
        Seq::empty()
    } else {
        without_uid(p.drop_last(), uid) + (if p.last().uid == uid {
            Seq::empty()
        } else {
            seq![p.last()]
        })
    }
}

proof fn lemma_contains_singleton<T>(y: T, x: T)
    ensures
        seq![y].contains(x) <==> x == y,
{
    if seq![y].contains(x) {
        let i = choose|i: int| 0 <= i < seq![y].len() && seq![y][i] == x;
        assert(seq![y][0] == y);
    }
    if x == y {
        assert(seq![y][0] == x);
    }
}

proof fn lemma_contains_push<T>(s: Seq<T>, e: T, x: T)
    ensures
        s.push(e).contains(x) <==> s.contains(x) || e == x,
{
    if s.push(e).contains(x) {
        let i = choose|i: int| 0 <= i < s.push(e).len() && s.push(e)[i] == x;
        if i < s.len() {
            assert(s[i] == x);
        } else {
            assert(e == x);
        }
    }
    if s.contains(x) {
        let i = choose|i: int| 0 <= i < s.len() && s[i] == x;
        assert(s.push(e)[i] == x);
    }
    if e == x {
        assert(s.push(e)[s.len() as int] == x);
    }
}

proof fn lemma_contains_concat<T>(a: Seq<T>, b: Seq<T>, x: T)
    ensures
        (a + b).contains(x) <==> a.contains(x) || b.contains(x),
{
    if (a + b).contains(x) {
        let i = choose|i: int| 0 <= i < (a + b).len() && (a + b)[i] == x;
        if i < a.len() {
            assert(a[i] == x);
        } else {
            assert(b[i - a.len()] == x);
        }
    }
    if a.contains(x) {
        let i = choose|i: int| 0 <= i < a.len() && a[i] == x;
        assert((a + b)[i] == x);
    }
    if b.contains(x) {
        let i = choose|i: int| 0 <= i < b.len() && b[i] == x;
        assert((a + b)[a.len() + i] == x);
    }
}

/// Law: dispatching a message under a key fires a responder if and only
/// if it is registered there and its refinement accepts the message — no
/// other responder is invoked.
pub proof fn lemma_dispatch_fires_exactly_matching(rs: Seq<RespV>, m: MessageView, r: RespV)
    ensures
        fired_of(rs, m).contains(r) <==> rs.contains(r) && resp_matches(r, m),
    decreases rs.len(),
{
    if rs.len() == 0 {
        assert(!fired_of(rs, m).contains(r));
        assert(!rs.contains(r));
    } else {
        let dl = rs.drop_last();
        let last = rs.last();
        lemma_dispatch_fires_exactly_matching(dl, m, r);
        let tail = if resp_matches(last, m) {
            seq![last]
        } else {
            Seq::<RespV>::empty()
        };
        lemma_contains_concat(fired_of(dl, m), tail, r);
        assert(rs =~= dl.push(last));
        lemma_contains_push(dl, last, r);
        if resp_matches(last, m) {
            lemma_contains_singleton(last, r);
        } else {
            assert(!tail.contains(r));
        }
    }
}

/// Law: a responder with one-shot continuation that fires on a message is
/// absent from the registry entry immediately after that dispatch, and no
/// later dispatch from that entry can invoke it again.
pub proof fn lemma_once_responder_removed(rs: Seq<RespV>, m: MessageView, r: RespV)
    requires
        resp_matches(r, m),
        resp_once(r, m),
    ensures
        !retained_of(rs, m).contains(r),
    decreases rs.len(),
{
    if rs.len() == 0 {
    } else {
        let dl = rs.drop_last();
        let last = rs.last();
        lemma_once_responder_removed(dl, m, r);
        let tail = if resp_matches(last, m) && resp_once(last, m) {
            Seq::<RespV>::empty()
        } else {
            seq![last]
        };
        lemma_contains_concat(retained_of(dl, m), tail, r);
        if !(resp_matches(last, m) && resp_once(last, m)) {
            lemma_contains_singleton(last, r);
            assert(last != r);
        }
    }
}

/// Law: once a one-shot responder has fired, dispatching any further
/// message to what remains of its registry entry never invokes it.
pub proof fn lemma_once_responder_not_refired(
    rs: Seq<RespV>,
    m: MessageView,
    m2: MessageView,
    r: RespV,
)
    requires
        resp_matches(r, m),
        resp_once(r, m),
    ensures
        !fired_of(retained_of(rs, m), m2).contains(r),
{
    lemma_once_responder_removed(rs, m, r);
    lemma_dispatch_fires_exactly_matching(retained_of(rs, m), m2, r);
}

/// Law: a responder with reschedule continuation that fires stays
/// registered, and fires again on any further message its refinement
/// accepts.
pub proof fn lemma_reschedule_responder_retained(rs: Seq<RespV>, m: MessageView, r: RespV)
    requires
        rs.contains(r),
        resp_matches(r, m),
        !resp_once(r, m),
    ensures
        fired_of(rs, m).contains(r),
        retained_of(rs, m).contains(r),
    decreases rs.len(),
{
    lemma_dispatch_fires_exactly_matching(rs, m, r);
    if rs.len() == 0 {
    } else {
        let dl = rs.drop_last();
        let last = rs.last();
        assert(rs =~= dl.push(last));
        lemma_contains_push(dl, last, r);
        let tail = if resp_matches(last, m) && resp_once(last, m) {
            Seq::<RespV>::empty()
        } else {
            seq![last]
        };
        lemma_contains_concat(retained_of(dl, m), tail, r);
        if dl.contains(r) {
            lemma_reschedule_responder_retained(dl, m, r);
        } else {
            assert(last == r);
            assert(tail == seq![r]);
            lemma_contains_singleton(r, r);
        }
    }
}

/// Law: barriers resolve independently, by exact counter match.  An
/// acknowledgment carrying one counter value leaves every other barrier's
/// state untouched, and resolves every barrier that sent that value.
pub proof fn lemma_sync_counters_independent(p: Seq<SyncState>, c1: i32, c2: i32)
    requires
        c1 != c2,
    ensures
        pending_resolved(resolve_pending(p, c1), c2) == pending_resolved(p, c2),
        (exists|i: int| 0 <= i < p.len() && p[i].uid == c1) ==> pending_resolved(
            resolve_pending(p, c1),
            c1,
        ),
{
    let q = resolve_pending(p, c1);
    assert(q.len() == p.len());
    if pending_resolved(q, c2) {
        let i = choose|i: int| 0 <= i < q.len() && q[i].uid == c2 && q[i].resolved;
        assert(p[i].uid == c2 && p[i].resolved);
        assert(pending_resolved(p, c2));
    }
    if pending_resolved(p, c2) {
        let i = choose|i: int| 0 <= i < p.len() && p[i].uid == c2 && p[i].resolved;
        assert(q[i].uid == c2 && q[i].resolved);
        assert(pending_resolved(q, c2));
    }
    if exists|i: int| 0 <= i < p.len() && p[i].uid == c1 {
        let i = choose|i: int| 0 <= i < p.len() && p[i].uid == c1;
        assert(q[i].uid == c1 && q[i].resolved);
        assert(pending_resolved(q, c1));
    }
}

/// A well-formed registry: every responder is filed under its own reply
/// address.  Construction keeps this: registration files a responder
/// under its own address, and dispatch only ever keeps or drops entries.
pub open spec fn registry_wf(reg: Map<Seq<char>, Seq<RespV>>) -> bool {
    forall|k: Seq<char>, i: int|
        reg.contains_key(k) && 0 <= i < reg[k].len() ==> resp_addr(#[trigger] reg[k][i]) == k
}

/// Registering a responder keeps the registry well formed.
pub proof fn lemma_register_preserves_wf(reg: Map<Seq<char>, Seq<RespV>>, rv: RespV)
    requires
        registry_wf(reg),
    ensures
        registry_wf(registry_with(reg, rv)),
{
    let reg2 = registry_with(reg, rv);
    assert forall|k: Seq<char>, i: int|
        reg2.contains_key(k) && 0 <= i < reg2[k].len() implies resp_addr(#[trigger] reg2[k][i])
        == k by {
        if k == resp_addr(rv) {
            let prev = if reg.contains_key(k) {
                reg[k]
            } else {
                Seq::<RespV>::empty()
            };
            if i < prev.len() {
                assert(reg2[k][i] == prev[i]);
            } else {
                assert(reg2[k][i] == rv);
            }
        } else {
            assert(reg2[k] == reg[k]);
        }
    }
}

/// Unregistering an address keeps the registry well formed.
pub proof fn lemma_remove_preserves_wf(reg: Map<Seq<char>, Seq<RespV>>, k: Seq<char>)
    requires
        registry_wf(reg),
    ensures
        registry_wf(reg.remove(k)),
{
}

proof fn lemma_retained_subset(rs: Seq<RespV>, m: MessageView, r: RespV)
    requires
        retained_of(rs, m).contains(r),
    ensures
        rs.contains(r),
    decreases rs.len(),
{
    if rs.len() == 0 {
    } else {
        let dl = rs.drop_last();
        let last = rs.last();
        let tail = if resp_matches(last, m) && resp_once(last, m) {
            Seq::<RespV>::empty()
        } else {
            seq![last]
        };
        lemma_contains_concat(retained_of(dl, m), tail, r);
        assert(rs =~= dl.push(last));
        lemma_contains_push(dl, last, r);
        if retained_of(dl, m).contains(r) {
            lemma_retained_subset(dl, m, r);
        } else {
            lemma_contains_singleton(last, r);
        }
    }
}

/// Dispatching a message keeps the registry well formed.
pub proof fn lemma_dispatch_preserves_wf(reg: Map<Seq<char>, Seq<RespV>>, k: Seq<char>, m: MessageView)
    requires
        registry_wf(reg),
    ensures
        registry_wf(registry_after(reg, k, m)),
{
    if reg.contains_key(k) {
        let reg2 = registry_after(reg, k, m);
        assert forall|k2: Seq<char>, i: int|
            reg2.contains_key(k2) && 0 <= i < reg2[k2].len() implies resp_addr(
            #[trigger] reg2[k2][i],
        ) == k2 by {
            if k2 == k {
                lemma_retained_subset(reg[k], m, reg2[k2][i]);
                let j = choose|j: int| 0 <= j < reg[k].len() && reg[k][j] == reg2[k2][i];
                assert(resp_addr(reg[k][j]) == k);
            } else {
                assert(reg2[k2] == reg[k2]);
            }
        }
    }
}

/// One dispatcher step keeps the registry well formed.
pub proof fn lemma_step_preserves_wf(s: CoreV, m: MessageView)
    requires
        registry_wf(s.registry),
    ensures
        registry_wf(step_message(s, m).0.registry),
{
    if m.addr == "/fail"@ {
    } else if m.addr == "/done"@ {
        if m.args.len() >= 1 {
            match m.args[0] {
                OscTypeView::Str(k) => lemma_dispatch_preserves_wf(s.registry, k, m),
                _ => (),
            }
        }
    } else {
        lemma_dispatch_preserves_wf(s.registry, m.addr, m);
    }
}

/// A whole dispatcher run keeps the registry well formed.
pub proof fn lemma_run_preserves_wf(s: CoreV, ms: Seq<MessageView>)
    requires
        registry_wf(s.registry),
    ensures
        registry_wf(run_messages(s, ms).0.registry),
    decreases ms.len(),
{
    if ms.len() == 0 {
    } else {
        lemma_step_preserves_wf(s, ms[0]);
        lemma_run_preserves_wf(step_message(s, ms[0]).0, ms.drop_first());
    }
}

/// Law: in a well-formed registry, dispatching under a key invokes only
/// responders that listen on exactly that key and whose refinement accepts
/// the message, and each of them was registered there.
pub proof fn lemma_fired_responders_carry_address(
    reg: Map<Seq<char>, Seq<RespV>>,
    k: Seq<char>,
    m: MessageView,
    r: RespV,
)
    requires
        registry_wf(reg),
        fired_at(reg, k, m).contains(r),
    ensures
        resp_addr(r) == k,
        resp_matches(r, m),
        reg.contains_key(k) && reg[k].contains(r),
{
    assert(reg.contains_key(k));
    lemma_dispatch_fires_exactly_matching(reg[k], m, r);
    let j = choose|j: int| 0 <= j < reg[k].len() && reg[k][j] == r;
    assert(resp_addr(reg[k][j]) == k);
}

} // verus!
