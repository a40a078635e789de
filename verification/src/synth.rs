//! Synth nodes: creation on the server and control-value queries.

use vstd::prelude::*;
use crate::codec::wire_bytes;
use crate::error::{ScClientResult, ScErrorKind};
use crate::osc_server::{registry_with, wire_request};
use crate::responders::{ControlValueResponder, OscResponder, RespV};
use crate::server::Server;
use crate::types::{arg_wf, clone_args, msg_wf, osc_str_wf, NodeValue, OscType, OscTypeView};

verus! {

/// Relies on uid::Id::new and uid::Id::get: `new` draws the next value of
/// a process-global counter starting at one (so the result is never zero),
/// and `get` hands that value out.
#[verifier::external_body]
fn next_raw_id() -> (r: usize)
    ensures
        r >= 1,
{
    uid::Id::<i32>::new().get()
}

/// Where a new node is placed relative to its add target.
#[derive(Clone, Copy, Debug, PartialEq, Eq, Structural)]
pub enum AddAction {
    /// add the new node to the the head of the group specified by the add target ID.
    Head,
    /// add the new node to the the tail of the group specified by the add target ID.
    Tail,
    /// add the new node just before the node specified by the add target ID.
    Before,
    /// add the new node just after the node specified by the add target ID.
    After,
    /// the new node replaces the node specified by the add target ID. The target node is freed.
    Replace,
}

/// The wire code of an add action.
pub open spec fn add_action_code(a: AddAction) -> i32 {
    match a {
        AddAction::Head => 0,
        AddAction::Tail => 1,
        AddAction::Before => 2,
        AddAction::After => 3,
        AddAction::Replace => 4,
    }
}

fn add_action_code_exec(a: &AddAction) -> (r: i32)
    ensures
        r == add_action_code(*a),
{
    match a {
        AddAction::Head => 0,
        AddAction::Tail => 1,
        AddAction::Before => 2,
        AddAction::After => 3,
        AddAction::Replace => 4,
    }
}

/// The name/value pairs flattened into one argument list, in order.
pub open spec fn flatten_model(nvs: Seq<NodeValue>) -> Seq<OscTypeView>
    decreases nvs.len(),
{
    if nvs.len() == 0 {
        Seq::empty()
    } else {
        flatten_model(nvs.drop_last()) + seq![nvs.last().0@, nvs.last().1@]
    }
}

/// Whether a node creation's inputs are safe for the wire: the synth name
/// and every control name and value.
pub open spec fn s_new_wf(name: Seq<char>, args: Seq<NodeValue>) -> bool {
    &&& osc_str_wf(name)
    &&& forall|i: int|
        0 <= i < args.len() ==> arg_wf((#[trigger] args[i]).0@) && arg_wf(args[i].1@)
}

/// The node-creation request: the synth definition name, the node id, the
/// placement, the target, then the flattened control pairs.
pub open spec fn s_new_request(
    name: Seq<char>,
    id: i32,
    action: i32,
    target_id: i32,
    args: Seq<NodeValue>,
) -> crate::types::MessageView {
    wire_request(
        "/s_new"@,
        seq![
            OscTypeView::Str(name),
            OscTypeView::Int(id),
            OscTypeView::Int(action),
            OscTypeView::Int(target_id),
        ] + flatten_model(args),
    )
}

proof fn lemma_flatten_wf(args: Seq<NodeValue>)
    ensures
        (forall|j: int|
            0 <= j < flatten_model(args).len() ==> arg_wf(#[trigger] flatten_model(args)[j]))
            <==> (forall|i: int|
            0 <= i < args.len() ==> arg_wf((#[trigger] args[i]).0@) && arg_wf(args[i].1@)),
    decreases args.len(),
{
    if args.len() == 0 {
    } else {
        let dl = args.drop_last();
        let last = args.last();
        lemma_flatten_wf(dl);
        let f = flatten_model(args);
        let fd = flatten_model(dl);
        assert(f == fd + seq![last.0@, last.1@]);
        assert(f.len() == fd.len() + 2);
        if forall|j: int| 0 <= j < f.len() ==> arg_wf(#[trigger] f[j]) {
            assert forall|j: int| 0 <= j < fd.len() implies arg_wf(#[trigger] fd[j]) by {
                assert(f[j] == fd[j]);
                assert(arg_wf(f[j]));
            }
            assert forall|i: int|
                0 <= i < args.len() implies arg_wf((#[trigger] args[i]).0@) && arg_wf(
                args[i].1@,
            ) by {
                if i < dl.len() {
                    assert(args[i] == dl[i]);
                } else {
                    assert(args[i] == last);
                    assert(f[fd.len() as int] == last.0@);
                    assert(f[fd.len() as int + 1] == last.1@);
                    assert(arg_wf(f[fd.len() as int]));
                    assert(arg_wf(f[fd.len() as int + 1]));
                }
            }
        }
        if forall|i: int|
            0 <= i < args.len() ==> arg_wf((#[trigger] args[i]).0@) && arg_wf(args[i].1@) {
            assert forall|i: int|
                0 <= i < dl.len() implies arg_wf((#[trigger] dl[i]).0@) && arg_wf(dl[i].1@) by {
                assert(args[i] == dl[i]);
                assert(arg_wf(args[i].0@) && arg_wf(args[i].1@));
            }
            assert forall|j: int| 0 <= j < f.len() implies arg_wf(#[trigger] f[j]) by {
                if j < fd.len() {
                    assert(f[j] == fd[j]);
                } else if j == fd.len() as int {
                    assert(args[args.len() - 1] == last);
                    assert(arg_wf(args[args.len() - 1].0@));
                    assert(f[j] == last.0@);
                } else {
                    assert(args[args.len() - 1] == last);
                    assert(arg_wf(args[args.len() - 1].1@));
                    assert(f[j] == last.1@);
                }
            }
        }
    }
}

/// A synth node created on the server: its definition name, its node id,
/// and the target it was placed against.
#[derive(Debug)]
pub struct Synth {
    name: String,
    id: i32,
    target_id: i32,
}

/// The mathematical value of a [`Synth`].
pub ghost struct SynthV {
    pub name: Seq<char>,
    pub id: i32,
    pub target_id: i32,
}

impl View for Synth {
    type V = SynthV;

    closed spec fn view(&self) -> SynthV {
        SynthV { name: self.name@, id: self.id, target_id: self.target_id }
    }
}

/// The name/value pairs flattened into one argument list.
pub fn flatten_args(args: &Vec<NodeValue>) -> (r: Vec<OscType>)
    ensures
        r.deep_view() == flatten_model(args@),
{
    let mut r: Vec<OscType> = Vec::new();
    let n: usize = args.len();
    let mut i: usize = 0;
    proof {
        assert(args@.take(0) =~= Seq::<NodeValue>::empty());
        assert(r.deep_view() =~= Seq::<OscTypeView>::empty());
    }
    while i < n
        invariant
            0 <= i <= n,
            n == args.len(),
            r.deep_view() == flatten_model(args@.take(i as int)),
        decreases n - i,
    {
        proof {
            assert(args@.take(i as int + 1).drop_last() =~= args@.take(i as int));
            assert(args@.take(i as int + 1).last() == args@[i as int]);
        }
        let ghost prev = r.deep_view();
        let name = args[i].0.clone();
        let value = args[i].1.clone();
        r.push(name);
        r.push(value);
        proof {
            assert(r.deep_view() =~= prev + seq![args@[i as int].0@, args@[i as int].1@]);
        }
        i += 1;
    }
    proof {
        assert(args@.take(n as int) =~= args@);
    }
    r
}

impl Synth {
    /// Creates a node on the server: draws a fresh node id and queues the
    /// node-creation request naming this synth definition, the id, the
    /// placement and the control pairs.  A name or control value unsafe
    /// for the wire is refused with an encoding error and nothing is
    /// queued.
    pub fn new(
        server: &mut Server,
        name: &str,
        add_action: &AddAction,
        target_id: i32,
        args: &Vec<NodeValue>,
    ) -> (r: ScClientResult<Synth>)
        ensures
            final(server).options == old(server).options,
            final(server).osc_server@.client == old(server).osc_server@.client,
            final(server).osc_server@.server == old(server).osc_server@.server,
            final(server).osc_server@.pending == old(server).osc_server@.pending,
            final(server).osc_server@.counter == old(server).osc_server@.counter,
            final(server).osc_server@.registry == old(server).osc_server@.registry,
            r is Ok <==> s_new_wf(name@, args@),
            match r {
                Ok(sy) => sy@.name == name@ && sy@.target_id == target_id && sy@.id >= 0
                    && final(server).osc_server@.outbox == old(server).osc_server@.outbox.push(
                    wire_bytes(
                        s_new_request(
                            name@,
                            sy@.id,
                            add_action_code(*add_action),
                            target_id,
                            args@,
                        ),
                    ),
                ),
                Err(e) => e.kind == ScErrorKind::Encoding && final(server).osc_server@.outbox
                    == old(server).osc_server@.outbox,
            },
    {
        let id = Synth::init_id();
        let synth = Synth { name: name.to_owned(), id, target_id };
        let code = add_action_code_exec(add_action);
        let mut send_args: Vec<OscType> = Vec::new();
        send_args.push(OscType::Str(name.to_owned()));
        send_args.push(OscType::Int(id));
        send_args.push(OscType::Int(code));
        send_args.push(OscType::Int(target_id));
        let ghost head = send_args.deep_view();
        proof {
            assert(head =~= seq![
                OscTypeView::Str(name@),
                OscTypeView::Int(id),
                OscTypeView::Int(add_action_code(*add_action)),
                OscTypeView::Int(target_id),
            ]);
        }
        let mut flattened = flatten_args(args);
        send_args.append(&mut flattened);
        proof {
            assert(send_args.deep_view() =~= head + flatten_model(args@));
        }
        let ghost m = s_new_request(name@, id, add_action_code(*add_action), target_id, args@);
        proof {
            reveal_strlit("/s_new");
            lemma_flatten_wf(args@);
            if s_new_wf(name@, args@) {
                assert forall|j: int|
                    0 <= j < m.args.len() implies arg_wf(#[trigger] m.args[j]) by {
                    if j >= 4 {
                        assert(m.args[j] == flatten_model(args@)[j - 4]);
                    }
                }
                crate::server::lemma_wf_request("/s_new"@, m.args);
            } else {
                if !osc_str_wf(name@) {
                    assert(m.args[0] == OscTypeView::Str(name@));
                    assert(!arg_wf(m.args[0]));
                    assert(!msg_wf(m));
                } else {
                    let i = choose|i: int|
                        0 <= i < args@.len() && !(arg_wf((#[trigger] args@[i]).0@) && arg_wf(
                            args@[i].1@,
                        ));
                    lemma_flatten_pair(args@, i);
                    assert(m.args[4 + 2 * i] == flatten_model(args@)[2 * i]);
                    assert(m.args[4 + 2 * i + 1] == flatten_model(args@)[2 * i + 1]);
                    if msg_wf(m) {
                        assert(arg_wf(m.args[4 + 2 * i]));
                        assert(arg_wf(m.args[4 + 2 * i + 1]));
                    }
                    assert(!msg_wf(m));
                }
            }
        }
        match server.osc_server.send_message("/s_new", Some(send_args)) {
            Ok(_) => Ok(synth),
            Err(e) => Err(e),
        }
    }

    fn init_id() -> (r: i32)
        ensures
            r >= 0,
    {
        let raw = next_raw_id();
        let reduced: usize = raw % 0x8000_0000;
        reduced as i32
    }

    /// The node id this synth was created under.
    pub fn get_id(&self) -> (r: i32)
        ensures
            r == self@.id,
    {
        self.id
    }

    /// The synth definition name this node was created from.
    pub fn get_name(&self) -> (r: String)
        ensures
            r@ == self@.name,
    {
        self.name.clone()
    }

    /// The id of the node this synth was placed against.
    pub fn get_target_id(&self) -> (r: i32)
        ensures
            r == self@.target_id,
    {
        self.target_id
    }

    /// Queries current control values: registers a responder matching
    /// node-set replies that name this node and exactly these parameters,
    /// then queues the query.  A parameter unsafe for the wire is refused
    /// with an encoding error; the responder stays registered either way,
    /// as it was already in place when the request was built.
    pub fn get_control_value(&self, server: &mut Server, params: &Vec<OscType>) -> (r:
        ScClientResult<()>)
        ensures
            final(server).options == old(server).options,
            final(server).osc_server@.client == old(server).osc_server@.client,
            final(server).osc_server@.server == old(server).osc_server@.server,
            final(server).osc_server@.pending == old(server).osc_server@.pending,
            final(server).osc_server@.counter == old(server).osc_server@.counter,
            final(server).osc_server@.registry == registry_with(
                old(server).osc_server@.registry,
                RespV::ControlValue { synth_id: self@.id, params: params.deep_view() },
            ),
            ({
                let m = wire_request(
                    "/s_get"@,
                    seq![OscTypeView::Int(self@.id)] + params.deep_view(),
                );
                if msg_wf(m) {
                    r is Ok
                        && final(server).osc_server@.outbox
                        == old(server).osc_server@.outbox.push(wire_bytes(m))
                } else {
                    r matches Err(e) && e.kind == ScErrorKind::Encoding
                        && final(server).osc_server@.outbox == old(server).osc_server@.outbox
                }
            }),
    {
        proof {
            crate::server::lemma_reserved_distinct();
        }
        let responder = ControlValueResponder::new(self.id, clone_args(params));
        let add = server.osc_server.add_responder(OscResponder::ControlValue(responder));
        if let Err(e) = add {
            return Err(e);
        }
        let mut send_args: Vec<OscType> = Vec::new();
        send_args.push(OscType::Int(self.id));
        let mut rest = clone_args(params);
        send_args.append(&mut rest);
        proof {
            assert(send_args.deep_view() =~= seq![OscTypeView::Int(self@.id)]
                + params.deep_view());
        }
        match server.osc_server.send_message("/s_get", Some(send_args)) {
            Ok(_) => Ok(()),
            Err(e) => Err(e),
        }
    }
}

proof fn lemma_flatten_pair(args: Seq<NodeValue>, i: int)
    requires
        0 <= i < args.len(),
    ensures
        flatten_model(args)[2 * i] == args[i].0@,
        flatten_model(args)[2 * i + 1] == args[i].1@,
        flatten_model(args).len() == 2 * args.len(),
    decreases args.len(),
{
    if args.len() == 0 {
    } else {
        let dl = args.drop_last();
        if i < dl.len() {
            lemma_flatten_pair(dl, i);
            assert(flatten_model(args)[2 * i] == flatten_model(dl)[2 * i]);
            assert(flatten_model(args)[2 * i + 1] == flatten_model(dl)[2 * i + 1]);
        } else {
            if dl.len() > 0 {
                lemma_flatten_pair(dl, 0);
            }
            assert(flatten_model(args).len() == flatten_model(dl).len() + 2);
            lemma_flatten_len(dl);
        }
    }
}

proof fn lemma_flatten_len(args: Seq<NodeValue>)
    ensures
        flatten_model(args).len() == 2 * args.len(),
    decreases args.len(),
{
    if args.len() == 0 {
    } else {
        lemma_flatten_len(args.drop_last());
    }
}

} // verus!
