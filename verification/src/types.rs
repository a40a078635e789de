//! Value types of the wire protocol: endpoints, typed message arguments,
//! messages, and node control-value pairs.

use vstd::prelude::*;

verus! {

/// An IPv4 address and port, identifying the local listening socket or the
/// remote server socket.
#[derive(Clone, Copy, Debug, PartialEq, Eq, Structural)]
pub struct Endpoint {
    pub ip0: u8,
    pub ip1: u8,
    pub ip2: u8,
    pub ip3: u8,
    pub port: u16,
}

impl Endpoint {
    pub fn new(ip0: u8, ip1: u8, ip2: u8, ip3: u8, port: u16) -> (r: Self)
        ensures
            r == (Endpoint { ip0, ip1, ip2, ip3, port }),
    {
        Endpoint { ip0, ip1, ip2, ip3, port }
    }
}

/// A typed argument of a protocol message.
///
/// A `Float` carries the IEEE-754 bit pattern of the 32-bit value that
/// travels on the wire; the bits are preserved exactly in both directions,
/// and callers that want the numeric value reinterpret the bits themselves.
#[derive(Debug)]
pub enum OscType {
    Int(i32),
    Float(u32),
    Str(String),
    Blob(Vec<u8>),
}

/// The mathematical value of an [`OscType`].
pub ghost enum OscTypeView {
    Int(i32),
    Float(u32),
    Str(Seq<char>),
    Blob(Seq<u8>),
}

impl View for OscType {
    type V = OscTypeView;

    open spec fn view(&self) -> OscTypeView {
        match self {
            OscType::Int(x) => OscTypeView::Int(*x),
            OscType::Float(x) => OscTypeView::Float(*x),
            OscType::Str(s) => OscTypeView::Str(s@),
            OscType::Blob(b) => OscTypeView::Blob(b@),
        }
    }
}

impl DeepView for OscType {
    type V = OscTypeView;

    open spec fn deep_view(&self) -> OscTypeView {
        self.view()
    }
}

impl PartialEq for OscType {
    fn eq(&self, other: &OscType) -> (r: bool) {
        match (self, other) {
            (OscType::Int(a), OscType::Int(b)) => *a == *b,
            (OscType::Float(a), OscType::Float(b)) => *a == *b,
            (OscType::Str(a), OscType::Str(b)) => *a == *b,
            (OscType::Blob(a), OscType::Blob(b)) => u8_vec_eq(a, b),
            _ => false,
        }
    }
}

impl vstd::std_specs::cmp::PartialEqSpecImpl for OscType {
    open spec fn obeys_eq_spec() -> bool {
        true
    }

    open spec fn eq_spec(&self, other: &OscType) -> bool {
        self@ == other@
    }
}

/// A copy of a byte vector with the same contents.
pub fn clone_bytes(v: &Vec<u8>) -> (r: Vec<u8>)
    ensures
        r@ == v@,
{
    let r = v.clone();
    proof {
        assert forall|i: int| 0 <= i < v@.len() implies r@[i] == v@[i] by {
            assert(cloned::<u8>(v[i], r[i]));
        }
        assert(r@ =~= v@);
    }
    r
}

impl Clone for OscType {
    fn clone(&self) -> (r: Self)
        ensures
            r@ == self@,
    {
        match self {
            OscType::Int(x) => OscType::Int(*x),
            OscType::Float(x) => OscType::Float(*x),
            OscType::Str(s) => OscType::Str(s.clone()),
            OscType::Blob(b) => OscType::Blob(clone_bytes(b)),
        }
    }
}

/// A copy of an argument list with the same deep view.
pub fn clone_args(v: &Vec<OscType>) -> (r: Vec<OscType>)
    ensures
        r.deep_view() == v.deep_view(),
{
    let mut r: Vec<OscType> = Vec::new();
    let n: usize = v.len();
    let mut i: usize = 0;
    while i < n
        invariant
            n == v.len(),
            0 <= i <= n,
            r.len() == i,
            forall|j: int| 0 <= j < i ==> r.deep_view()[j] == v.deep_view()[j],
        decreases n - i,
    {
        r.push(v[i].clone());
        i += 1;
    }
    proof {
        assert(r.deep_view() =~= v.deep_view());
    }
    r
}

/// Byte-vector equality, pinned to the views.
pub fn u8_vec_eq(a: &Vec<u8>, b: &Vec<u8>) -> (r: bool)
    ensures
        r == (a@ == b@),
{
    if a.len() != b.len() {
        assert(a@ != b@);
        return false;
    }
    let n: usize = a.len();
    let mut i: usize = 0;
    while i < n
        invariant
            n == a.len() == b.len(),
            0 <= i <= n,
            forall|j: int| 0 <= j < i ==> a@[j] == b@[j],
        decreases n - i,
    {
        if a[i] != b[i] {
            return false;
        }
        i += 1;
    }
    assert(a@ =~= b@);
    true
}

/// A single protocol message: an address path plus its typed arguments.
#[derive(Debug)]
pub struct Message {
    pub addr: String,
    pub args: Vec<OscType>,
}

/// The mathematical value of an [`Message`].
pub ghost struct MessageView {
    pub addr: Seq<char>,
    pub args: Seq<OscTypeView>,
}

impl View for Message {
    type V = MessageView;

    open spec fn view(&self) -> MessageView {
        MessageView { addr: self.addr@, args: self.args.deep_view() }
    }
}

impl DeepView for Message {
    type V = MessageView;

    open spec fn deep_view(&self) -> MessageView {
        self.view()
    }
}

/// Argument-list equality, pinned to the deep views.
pub fn osc_args_eq(a: &Vec<OscType>, b: &Vec<OscType>) -> (r: bool)
    ensures
        r == (a.deep_view() == b.deep_view()),
{
    if a.len() != b.len() {
        assert(a.deep_view().len() != b.deep_view().len());
        return false;
    }
    let n: usize = a.len();
    let mut i: usize = 0;
    while i < n
        invariant
            n == a.len() == b.len(),
            0 <= i <= n,
            forall|j: int| 0 <= j < i ==> a.deep_view()[j] == b.deep_view()[j],
        decreases n - i,
    {
        if !(a[i] == b[i]) {
            assert(a.deep_view()[i as int] != b.deep_view()[i as int]);
            return false;
        }
        i += 1;
    }
    assert(a.deep_view() =~= b.deep_view());
    true
}

impl PartialEq for Message {
    fn eq(&self, other: &Message) -> (r: bool) {
        let addr_eq = self.addr == other.addr;
        let args_eq = osc_args_eq(&self.args, &other.args);
        addr_eq && args_eq
    }
}

impl vstd::std_specs::cmp::PartialEqSpecImpl for Message {
    open spec fn obeys_eq_spec() -> bool {
        true
    }

    open spec fn eq_spec(&self, other: &Message) -> bool {
        self@ == other@
    }
}

impl Clone for Message {
    fn clone(&self) -> (r: Self)
        ensures
            r@ == self@,
    {
        Message { addr: self.addr.clone(), args: clone_args(&self.args) }
    }
}

/// Whether `a` and the string slice `b` hold the same characters.
pub fn str_is(a: &String, b: &str) -> (r: bool)
    ensures
        r == (a@ == b@),
{
    let t: String = b.to_owned();
    *a == t
}

/// A string is safe on the wire when it holds no NUL character: the wire
/// format terminates strings with NUL, so an interior NUL would change the
/// string in transit.
pub open spec fn osc_str_wf(s: Seq<char>) -> bool {
    !s.contains('\0')
}

/// A well-formed argument survives the trip over the wire unchanged.
pub open spec fn arg_wf(a: OscTypeView) -> bool {
    match a {
        OscTypeView::Str(s) => osc_str_wf(s),
        OscTypeView::Blob(b) => b.len() < 0x1_0000_0000,
        _ => true,
    }
}

/// A well-formed message: the address is a nonempty NUL-free path starting
/// with '/', and every argument is well formed.
pub open spec fn msg_wf(m: MessageView) -> bool {
    &&& m.addr.len() > 0
    &&& m.addr[0] == '/'
    &&& osc_str_wf(m.addr)
    &&& forall|i: int| 0 <= i < m.args.len() ==> arg_wf(#[trigger] m.args[i])
}

/// Whether `s` holds no NUL character.
pub fn str_has_no_nul(s: &str) -> (b: bool)
    ensures
        b == osc_str_wf(s@),
{
    let n: usize = s.unicode_len();
    let mut i: usize = 0;
    while i < n
        invariant
            n == s@.len(),
            0 <= i <= n,
            forall|j: int| 0 <= j < i ==> s@[j] != '\0',
        decreases n - i,
    {
        if s.get_char(i) == '\0' {
            assert(s@.contains('\0'));
            return false;
        }
        i += 1;
    }
    assert(!s@.contains('\0')) by {
        if s@.contains('\0') {
            let k = choose|k: int| 0 <= k < s@.len() && s@[k] == '\0';
        }
    }
    true
}

/// Whether a single argument is well formed.
pub fn arg_well_formed(a: &OscType) -> (b: bool)
    ensures
        b == arg_wf(a@),
{
    match a {
        OscType::Int(_) => true,
        OscType::Float(_) => true,
        OscType::Str(s) => str_has_no_nul(s.as_str()),
        OscType::Blob(v) => v.len() <= 0xffff_ffff,
    }
}

/// Whether a whole message is well formed.
pub fn message_well_formed(m: &Message) -> (b: bool)
    ensures
        b == msg_wf(m@),
{
    let addr = m.addr.as_str();
    if addr.unicode_len() == 0 {
        return false;
    }
    if addr.get_char(0) != '/' {
        return false;
    }
    if !str_has_no_nul(addr) {
        return false;
    }
    let n: usize = m.args.len();
    let mut i: usize = 0;
    while i < n
        invariant
            n == m.args.len(),
            0 <= i <= n,
            forall|j: int| 0 <= j < i ==> arg_wf(#[trigger] m@.args[j]),
    decreases n - i,
    {
        if !arg_well_formed(&m.args[i]) {
            assert(!arg_wf(m@.args[i as int]));
            return false;
        }
        i += 1;
    }
    true
}

/// A control name together with its value, as carried by node set/get
/// messages.
#[derive(Debug)]
pub struct NodeValue(pub OscType, pub OscType);

impl PartialEq for NodeValue {
    fn eq(&self, other: &NodeValue) -> (r: bool) {
        self.0 == other.0 && self.1 == other.1
    }
}

impl vstd::std_specs::cmp::PartialEqSpecImpl for NodeValue {
    open spec fn obeys_eq_spec() -> bool {
        true
    }

    open spec fn eq_spec(&self, other: &NodeValue) -> bool {
        self.0@ == other.0@ && self.1@ == other.1@
    }
}

impl Clone for NodeValue {
    fn clone(&self) -> (r: Self)
        ensures
            r.0@ == self.0@,
            r.1@ == self.1@,
    {
        NodeValue(self.0.clone(), self.1.clone())
    }
}

impl NodeValue {
    /// The pair as the two-argument list that node messages carry.
    pub fn to_args(&self) -> (r: Vec<OscType>)
        ensures
            r.deep_view() == seq![self.0@, self.1@],
    {
        let mut r: Vec<OscType> = Vec::new();
        r.push(self.0.clone());
        r.push(self.1.clone());
        proof {
            assert(r.deep_view() =~= seq![self.0@, self.1@]);
        }
        r
    }
}

impl From<NodeValue> for Vec<OscType> {
    fn from(node_arg: NodeValue) -> (r: Vec<OscType>) {
        node_arg.to_args()
    }
}

impl vstd::std_specs::convert::FromSpecImpl<NodeValue> for Vec<OscType> {
    open spec fn obeys_from_spec() -> bool {
        false
    }

    open spec fn from_spec(t: NodeValue) -> Vec<OscType> {
        vstd::pervasive::arbitrary()
    }
}

impl From<(OscType, OscType)> for NodeValue {
    fn from(osc_tuple: (OscType, OscType)) -> (r: NodeValue) {
        NodeValue(osc_tuple.0, osc_tuple.1)
    }
}

impl vstd::std_specs::convert::FromSpecImpl<(OscType, OscType)> for NodeValue {
    open spec fn obeys_from_spec() -> bool {
        true
    }

    open spec fn from_spec(t: (OscType, OscType)) -> NodeValue {
        NodeValue(t.0, t.1)
    }
}

} // verus!
