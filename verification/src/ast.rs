//! The two-phase hydration engine and the frozen AST it produces.
//!
//! Declarations of ten node kinds may arrive in any order and may
//! reference one another by name.  A name that is referenced before it is
//! declared gets a placeholder slot; declaring it later fills that same
//! slot, so every handle handed out earlier observes the finished value.
//! Declaring a name twice under one kind fails with [`Error::Present`],
//! reusing a name under another kind fails with [`Error::TypeMismatch`],
//! and a session with placeholders still unfilled fails at
//! [`AstHydration::finish`] with [`Error::Incomplete`]; otherwise
//! `finish` freezes the slot table into an immutable [`Ast`].
//!
//! Every operation is specified against a mathematical model: a sequence
//! of slots, each holding a name, a kind, and optionally its resolved
//! node.  The public proof functions at the end of this file state the
//! laws the protocol obeys.

use vstd::prelude::*;

pub mod nodes;

verus! {

use crate::node::Kind;
use nodes::{MethodData, MethodDataView};

/// What can go wrong while hydrating.
#[derive(Copy, Clone, Debug, PartialEq, Eq, Structural)]
pub enum Error {
    /// The name is already fully declared under this kind.
    Present,
    /// The name is already bound to a different kind.
    TypeMismatch,
    /// A name was referenced but never declared.
    Incomplete,
}

/// A declaration name, as the slot table stores it.
#[derive(Debug, Clone, PartialEq, Eq, Hash)]
pub struct HydratingName(pub String);

impl View for HydratingName {
    type V = Seq<char>;

    open spec fn view(&self) -> Seq<char> {
        self.0@
    }
}

/// A resolved node of any kind.
pub enum Node {
    Package(nodes::Package),
    File(nodes::File),
    Message(nodes::Message),
    Enum(nodes::Enum),
    EnumValue(nodes::EnumValue),
    Service(nodes::Service),
    Method(nodes::Method),
    Field(nodes::Field),
    Oneof(nodes::Oneof),
    Extension(nodes::Extension),
}

/// The mathematical content of a resolved node.
pub enum NodeView {
    Package { name: Seq<char> },
    File { name: Seq<char> },
    Message { name: Seq<char> },
    Enum { name: Seq<char> },
    EnumValue { name: Seq<char> },
    Service { name: Seq<char> },
    Method { input: int, output: int, file: int, name: Seq<char>, deprecated: bool },
    Field { name: Seq<char> },
    Oneof { name: Seq<char> },
    Extension { name: Seq<char> },
}

impl View for Node {
    type V = NodeView;

    open spec fn view(&self) -> NodeView {
        match self {
            Node::Package(n) => NodeView::Package { name: n.name@ },
            Node::File(n) => NodeView::File { name: n.name@ },
            Node::Message(n) => NodeView::Message { name: n.name@ },
            Node::Enum(n) => NodeView::Enum { name: n.name@ },
            Node::EnumValue(n) => NodeView::EnumValue { name: n.name@ },
            Node::Service(n) => NodeView::Service { name: n.name@ },
            Node::Method(n) => NodeView::Method {
                input: n.input as int,
                output: n.output as int,
                file: n.file as int,
                name: n.name@,
                deprecated: n.deprecated,
            },
            Node::Field(n) => NodeView::Field { name: n.name@ },
            Node::Oneof(n) => NodeView::Oneof { name: n.name@ },
            Node::Extension(n) => NodeView::Extension { name: n.name@ },
        }
    }
}

/// The kind a resolved node belongs to.
pub open spec fn node_kind(n: NodeView) -> Kind {
    match n {
        NodeView::Package { .. } => Kind::Package,
        NodeView::File { .. } => Kind::File,
        NodeView::Message { .. } => Kind::Message,
        NodeView::Enum { .. } => Kind::Enum,
        NodeView::EnumValue { .. } => Kind::EnumValue,
        NodeView::Service { .. } => Kind::Service,
        NodeView::Method { .. } => Kind::Method,
        NodeView::Field { .. } => Kind::Field,
        NodeView::Oneof { .. } => Kind::Oneof,
        NodeView::Extension { .. } => Kind::Extension,
    }
}

/// One slot of a hydration session: a name bound to a kind, either still
/// a placeholder (`node` is `None`) or populated.
pub struct Entry {
    pub name: HydratingName,
    pub kind: Kind,
    pub node: Option<Node>,
}

/// The mathematical content of one slot.
pub struct EntryView {
    pub name: Seq<char>,
    pub kind: Kind,
    pub node: Option<NodeView>,
}

impl View for Entry {
    type V = EntryView;

    open spec fn view(&self) -> EntryView {
        EntryView {
            name: self.name@,
            kind: self.kind,
            node: match self.node {
                Option::Some(n) => Option::Some(n@),
                Option::None => Option::None,
            },
        }
    }
}

/// The index of the slot bound to `name`, if any.
pub open spec fn find_entry(s: Seq<EntryView>, name: Seq<char>) -> Option<int>
    decreases s.len(),
{
    if s.len() == 0 {
        Option::None
    } else if s[0].name == name {
        Option::Some(0)
    } else {
        match find_entry(s.drop_first(), name) {
            Option::Some(i) => Option::Some(i + 1),
            Option::None => Option::None,
        }
    }
}

/// What `find_entry` returns: the first slot bound to the name, or
/// nothing when no slot is.
pub proof fn lemma_find_entry_is_first(s: Seq<EntryView>, name: Seq<char>)
    ensures
        match find_entry(s, name) {
            Option::Some(i) => 0 <= i < s.len() && s[i].name == name && (forall|j: int|
                0 <= j < i ==> s[j].name != name),
            Option::None => forall|j: int| 0 <= j < s.len() ==> s[j].name != name,
        },
    decreases s.len(),
{
    if s.len() > 0 && s[0].name != name {
        lemma_find_entry_is_first(s.drop_first(), name);
        match find_entry(s.drop_first(), name) {
            Option::Some(i0) => {
                assert(s.drop_first()[i0] == s[i0 + 1]);
                assert forall|j: int| 0 <= j < i0 + 1 implies s[j].name != name by {
                    if j > 0 {
                        assert(s.drop_first()[j - 1] == s[j]);
                    }
                }
            },
            Option::None => {
                assert forall|j: int| 0 <= j < s.len() implies s[j].name != name by {
                    if j > 0 {
                        assert(s.drop_first()[j - 1] == s[j]);
                    }
                }
            },
        }
    }
}

/// The converse: a slot that matches, with no earlier match, is what
/// `find_entry` returns.
pub proof fn lemma_find_entry_at(s: Seq<EntryView>, name: Seq<char>, i: int)
    requires
        0 <= i < s.len(),
        s[i].name == name,
        forall|j: int| 0 <= j < i ==> s[j].name != name,
    ensures
        find_entry(s, name) == Option::Some(i),
    decreases s.len(),
{
    if i > 0 {
        assert(forall|j: int| 0 <= j < s.len() - 1 ==> s.drop_first()[j] == s[j + 1]);
        lemma_find_entry_at(s.drop_first(), name, i - 1);
    }
}

/// Appending slots does not change where an existing name is found, and
/// a fresh name is found at the appended slot.
pub proof fn lemma_find_entry_push(s: Seq<EntryView>, name: Seq<char>, e: EntryView)
    ensures
        find_entry(s, name) matches Option::Some(i) ==> find_entry(s.push(e), name)
            == Option::Some(i),
        find_entry(s, name) is None && e.name == name ==> find_entry(s.push(e), name)
            == Option::Some(s.len() as int),
        find_entry(s, name) is None && e.name != name ==> find_entry(s.push(e), name) is None,
{
    lemma_find_entry_is_first(s, name);
    match find_entry(s, name) {
        Option::Some(i) => {
            lemma_find_entry_at(s.push(e), name, i);
        },
        Option::None => {
            if e.name == name {
                lemma_find_entry_at(s.push(e), name, s.len() as int);
            } else {
                lemma_find_entry_is_first(s.push(e), name);
                match find_entry(s.push(e), name) {
                    Option::Some(i) => {
                        assert(s.push(e)[i].name == name);
                        if i < s.len() {
                            assert(s[i].name == name);
                        }
                        assert(false);
                    },
                    Option::None => {},
                }
            }
        },
    }
}

/// Updating a slot's node leaves every name where it was.
pub proof fn lemma_find_entry_update(s: Seq<EntryView>, name: Seq<char>, k: int, e: EntryView)
    requires
        0 <= k < s.len(),
        e.name == s[k].name,
    ensures
        find_entry(s.update(k, e), name) == find_entry(s, name),
{
    lemma_find_entry_is_first(s, name);
    match find_entry(s, name) {
        Option::Some(i) => {
            lemma_find_entry_at(s.update(k, e), name, i);
        },
        Option::None => {
            lemma_find_entry_is_first(s.update(k, e), name);
            match find_entry(s.update(k, e), name) {
                Option::Some(i) => {
                    assert(s.update(k, e)[i].name == name);
                    assert(s[i].name == name);
                    assert(false);
                },
                Option::None => {},
            }
        },
    }
}

/// A node's handles are meaningful in the slot table `s`: a method's
/// references point at message and file slots.
pub open spec fn node_ok(n: NodeView, s: Seq<EntryView>) -> bool {
    match n {
        NodeView::Method { input, output, file, .. } => {
            &&& 0 <= input < s.len() && s[input].kind == Kind::Message
            &&& 0 <= output < s.len() && s[output].kind == Kind::Message
            &&& 0 <= file < s.len() && s[file].kind == Kind::File
        },
        _ => true,
    }
}

/// Slot `i`'s node, if populated, belongs to the slot's kind and points
/// only at slots of the kinds it expects.
pub open spec fn entry_node_ok(s: Seq<EntryView>, i: int) -> bool {
    match s[i].node {
        Option::Some(n) => node_kind(n) == s[i].kind && node_ok(n, s),
        Option::None => true,
    }
}

/// The slot table's invariant: names are unique, and every populated
/// node is consistent with its slot.
pub open spec fn entries_ok(s: Seq<EntryView>) -> bool {
    &&& forall|i: int, j: int|
        #![trigger s[i].name, s[j].name]
        0 <= i < j < s.len() ==> s[i].name != s[j].name
    &&& forall|i: int| 0 <= i < s.len() ==> #[trigger] entry_node_ok(s, i)
}

/// A freshly reserved slot: bound to its name and kind, not yet
/// populated.
pub open spec fn placeholder_entry(name: Seq<char>, kind: Kind) -> EntryView {
    EntryView { name, kind, node: Option::None }
}

/// What `placeholder_K` does: look the name up, reserve a fresh slot if
/// it is unbound, hand back the existing slot if it is bound to the same
/// kind, and fail if it is bound to another kind.
pub open spec fn spec_resolve(s: Seq<EntryView>, name: Seq<char>, kind: Kind) -> (Seq<EntryView>, Result<
    int,
    Error,
>) {
    match find_entry(s, name) {
        Option::None => (s.push(placeholder_entry(name, kind)), Result::Ok(s.len() as int)),
        Option::Some(i) => if s[i].kind == kind {
            (s, Result::Ok(i))
        } else {
            (s, Result::Err(Error::TypeMismatch))
        },
    }
}

/// The lookup step of `add_K`: as `spec_resolve`, except that a slot
/// already populated under the same kind is a duplicate declaration.
pub open spec fn spec_claim(s: Seq<EntryView>, name: Seq<char>, kind: Kind) -> (Seq<EntryView>, Result<
    int,
    Error,
>) {
    match find_entry(s, name) {
        Option::None => (s.push(placeholder_entry(name, kind)), Result::Ok(s.len() as int)),
        Option::Some(i) => if s[i].kind != kind {
            (s, Result::Err(Error::TypeMismatch))
        } else if s[i].node is Some {
            (s, Result::Err(Error::Present))
        } else {
            (s, Result::Ok(i))
        },
    }
}

/// Slot `i`, populated with `n`; everything else unchanged.
pub open spec fn set_node(s: Seq<EntryView>, i: int, n: NodeView) -> Seq<EntryView> {
    s.update(i, EntryView { name: s[i].name, kind: s[i].kind, node: Option::Some(n) })
}

/// An exec handle result against its model: the same slot index or the
/// same error.
pub open spec fn res_matches(r: Result<usize, Error>, s: Result<int, Error>) -> bool {
    match (r, s) {
        (Result::Ok(i), Result::Ok(j)) => i as int == j,
        (Result::Err(a), Result::Err(b)) => a == b,
        _ => false,
    }
}

/// `spec_resolve` preserves the invariant, never touches existing slots,
/// and a returned handle points at a slot of the requested kind.
pub proof fn lemma_resolve_ok(s: Seq<EntryView>, name: Seq<char>, kind: Kind)
    requires
        entries_ok(s),
    ensures
        ({
            let (s2, r) = spec_resolve(s, name, kind);
            &&& entries_ok(s2)
            &&& s.len() <= s2.len()
            &&& (forall|j: int| 0 <= j < s.len() ==> s2[j] == s[j])
            &&& match r {
                Result::Ok(i) => 0 <= i < s2.len() && s2[i].kind == kind && s2[i].name == name,
                Result::Err(e) => e == Error::TypeMismatch && s2 == s,
            }
        }),
{
    lemma_find_entry_is_first(s, name);
    let (s2, r) = spec_resolve(s, name, kind);
    if find_entry(s, name) is None {
        assert forall|i: int| 0 <= i < s2.len() implies #[trigger] entry_node_ok(s2, i) by {
            if i < s.len() {
                assert(entry_node_ok(s, i));
            }
        }
    }
}

/// `spec_claim` preserves the invariant, never touches existing slots,
/// and a returned handle points at an unpopulated slot of the requested
/// kind bound to the name.
pub proof fn lemma_claim_ok(s: Seq<EntryView>, name: Seq<char>, kind: Kind)
    requires
        entries_ok(s),
    ensures
        ({
            let (s2, r) = spec_claim(s, name, kind);
            &&& entries_ok(s2)
            &&& s.len() <= s2.len()
            &&& (forall|j: int| 0 <= j < s.len() ==> s2[j] == s[j])
            &&& match r {
                Result::Ok(i) => 0 <= i < s2.len() && s2[i].kind == kind && s2[i].name == name
                    && s2[i].node is None,
                Result::Err(_) => s2 == s,
            }
        }),
{
    lemma_find_entry_is_first(s, name);
    let (s2, r) = spec_claim(s, name, kind);
    if find_entry(s, name) is None {
        assert forall|i: int| 0 <= i < s2.len() implies #[trigger] entry_node_ok(s2, i) by {
            if i < s.len() {
                assert(entry_node_ok(s, i));
            }
        }
    }
}

/// Populating an unpopulated slot with a consistent node preserves the
/// invariant and touches no other slot.
pub proof fn lemma_set_node(s: Seq<EntryView>, i: int, n: NodeView)
    requires
        entries_ok(s),
        0 <= i < s.len(),
        s[i].node is None,
        node_kind(n) == s[i].kind,
        node_ok(n, s),
    ensures
        ({
            let s2 = set_node(s, i, n);
            &&& entries_ok(s2)
            &&& s2.len() == s.len()
            &&& (forall|j: int|
                0 <= j < s.len() ==> s2[j].name == s[j].name && s2[j].kind == s[j].kind)
            &&& (forall|j: int| 0 <= j < s.len() && j != i ==> s2[j] == s[j])
            &&& s2[i].node == Option::Some(n)
        }),
{
    let s2 = set_node(s, i, n);
    assert forall|k: int| 0 <= k < s2.len() implies #[trigger] entry_node_ok(s2, k) by {
        assert(entry_node_ok(s, k));
        match s2[k].node {
            Option::Some(m) => {
                assert(node_ok(m, s));
            },
            Option::None => {},
        }
    }
}

/// The node a declaration of a reference-free kind resolves to: the
/// declared name, nothing more.  (A method resolves its references
/// first; see [`spec_populate_method`].)
pub open spec fn simple_node(kind: Kind, name: Seq<char>) -> NodeView
    recommends
        kind != Kind::Method,
{
    match kind {
        Kind::Package => NodeView::Package { name },
        Kind::File => NodeView::File { name },
        Kind::Message => NodeView::Message { name },
        Kind::Oneof => NodeView::Oneof { name },
        Kind::Enum => NodeView::Enum { name },
        Kind::EnumValue => NodeView::EnumValue { name },
        Kind::Service => NodeView::Service { name },
        Kind::Method => NodeView::Method {
            input: 0,
            output: 0,
            file: 0,
            name,
            deprecated: false,
        },
        Kind::Field => NodeView::Field { name },
        Kind::Extension => NodeView::Extension { name },
    }
}

/// What `add_K` does for a kind without name-valued fields: claim the
/// slot, then populate it.
pub open spec fn spec_add_simple(s: Seq<EntryView>, name: Seq<char>, kind: Kind) -> (Seq<EntryView>, Result<
    (),
    Error,
>) {
    let (s1, r) = spec_claim(s, name, kind);
    match r {
        Result::Ok(i) => (set_node(s1, i, simple_node(kind, name)), Result::Ok(())),
        Result::Err(e) => (s1, Result::Err(e)),
    }
}

/// What populating a claimed method slot does: resolve the input and
/// output message names and the file name, in that order, then write the
/// method node; the first failing resolution is the result.
pub open spec fn spec_populate_method(s: Seq<EntryView>, idx: int, d: MethodDataView) -> (Seq<
    EntryView,
>, Result<(), Error>) {
    let (s1, r1) = spec_resolve(s, d.input, Kind::Message);
    match r1 {
        Result::Err(e) => (s1, Result::Err(e)),
        Result::Ok(hi) => {
            let (s2, r2) = spec_resolve(s1, d.output, Kind::Message);
            match r2 {
                Result::Err(e) => (s2, Result::Err(e)),
                Result::Ok(ho) => {
                    let (s3, r3) = spec_resolve(s2, d.file, Kind::File);
                    match r3 {
                        Result::Err(e) => (s3, Result::Err(e)),
                        Result::Ok(hf) => (
                            set_node(
                                s3,
                                idx,
                                NodeView::Method {
                                    input: hi,
                                    output: ho,
                                    file: hf,
                                    name: d.name,
                                    deprecated: d.deprecated,
                                },
                            ),
                            Result::Ok(()),
                        ),
                    }
                },
            }
        },
    }
}

/// What `add_method` does: claim the slot, then populate it.
pub open spec fn spec_add_method(s: Seq<EntryView>, name: Seq<char>, d: MethodDataView) -> (Seq<
    EntryView,
>, Result<(), Error>) {
    let (s1, r) = spec_claim(s, name, Kind::Method);
    match r {
        Result::Ok(i) => spec_populate_method(s1, i, d),
        Result::Err(e) => (s1, Result::Err(e)),
    }
}

/// A hydration session: the growing slot table.
pub struct AstHydration {
    pub entries: Vec<Entry>,
}

impl View for AstHydration {
    type V = Seq<EntryView>;

    open spec fn view(&self) -> Seq<EntryView> {
        self.entries@.map_values(|e: Entry| e@)
    }
}

impl AstHydration {
    /// See [`entries_ok`].
    pub open spec fn wf(&self) -> bool {
        entries_ok(self@)
    }

    /// An empty session.
    pub fn new() -> (r: AstHydration)
        ensures
            r@ == Seq::<EntryView>::empty(),
            r.wf(),
    {
        let r = AstHydration { entries: Vec::new() };
        proof {
            assert(r@ =~= Seq::<EntryView>::empty());
        }
        r
    }

    /// The slot bound to `name`, if any.
    fn find_slot(&self, name: &str) -> (r: Option<usize>)
        ensures
            match r {
                Option::Some(i) => i < self@.len() && find_entry(self@, name@) == Option::Some(
                    i as int,
                ),
                Option::None => find_entry(self@, name@) is None,
            },
    {
        let key: String = name.to_owned();
        let mut i: usize = 0;
        while i < self.entries.len()
            invariant
                i <= self.entries@.len(),
                key@ == name@,
                forall|j: int| 0 <= j < i ==> self@[j].name != name@,
            decreases self.entries@.len() - i,
        {
            if self.entries[i].name.0.eq(&key) {
                proof {
                    lemma_find_entry_at(self@, name@, i as int);
                }
                return Option::Some(i);
            }
            i = i + 1;
        }
        proof {
            lemma_find_entry_is_first(self@, name@);
            match find_entry(self@, name@) {
                Option::Some(k) => {
                    assert(self@[k].name == name@);
                    assert(false);
                },
                Option::None => {},
            }
        }
        Option::None
    }

    /// Looks up or reserves the slot for `name` under `kind`; the model
    /// is [`spec_resolve`].
    pub(crate) fn placeholder_slot(&mut self, name: &str, kind: Kind) -> (r: Result<usize, Error>)
        requires
            old(self).wf(),
        ensures
            final(self).wf(),
            ({
                let (s2, rr) = spec_resolve(old(self)@, name@, kind);
                final(self)@ == s2 && res_matches(r, rr)
            }),
            old(self)@.len() <= final(self)@.len(),
            forall|j: int| 0 <= j < old(self)@.len() ==> final(self)@[j] == old(self)@[j],
            r matches Ok(i) ==> i < final(self)@.len() && final(self)@[i as int].kind == kind
                && final(self)@[i as int].name == name@,
    {
        proof {
            lemma_resolve_ok(old(self)@, name@, kind);
        }
        match self.find_slot(name) {
            Option::None => {
                let i = self.entries.len();
                self.entries.push(
                    Entry { name: HydratingName(name.to_owned()), kind, node: Option::None },
                );
                proof {
                    assert(self@ =~= old(self)@.push(placeholder_entry(name@, kind)));
                }
                Result::Ok(i)
            },
            Option::Some(i) => {
                if self.entries[i].kind == kind {
                    Result::Ok(i)
                } else {
                    Result::Err(Error::TypeMismatch)
                }
            },
        }
    }

    /// Looks up or reserves the slot for `name` under `kind` for a
    /// declaration; the model is [`spec_claim`].
    pub(crate) fn claim_slot(&mut self, name: &str, kind: Kind) -> (r: Result<usize, Error>)
        requires
            old(self).wf(),
        ensures
            final(self).wf(),
            ({
                let (s2, rr) = spec_claim(old(self)@, name@, kind);
                final(self)@ == s2 && res_matches(r, rr)
            }),
            old(self)@.len() <= final(self)@.len(),
            forall|j: int| 0 <= j < old(self)@.len() ==> final(self)@[j] == old(self)@[j],
            r matches Ok(i) ==> i < final(self)@.len() && final(self)@[i as int].kind == kind
                && final(self)@[i as int].name == name@ && final(self)@[i as int].node is None,
    {
        proof {
            lemma_claim_ok(old(self)@, name@, kind);
        }
        match self.find_slot(name) {
            Option::None => {
                let i = self.entries.len();
                self.entries.push(
                    Entry { name: HydratingName(name.to_owned()), kind, node: Option::None },
                );
                proof {
                    assert(self@ =~= old(self)@.push(placeholder_entry(name@, kind)));
                }
                Result::Ok(i)
            },
            Option::Some(i) => {
                if self.entries[i].kind != kind {
                    Result::Err(Error::TypeMismatch)
                } else {
                    let occupied = match &self.entries[i].node {
                        Option::Some(_) => true,
                        Option::None => false,
                    };
                    if occupied {
                        Result::Err(Error::Present)
                    } else {
                        Result::Ok(i)
                    }
                }
            },
        }
    }

    /// Populates the slot `idx` with `node`; the model is [`set_node`].
    pub(crate) fn finish_slot(&mut self, idx: usize, node: Node)
        requires
            old(self).wf(),
            idx < old(self)@.len(),
            old(self)@[idx as int].node is None,
            node_kind(node@) == old(self)@[idx as int].kind,
            node_ok(node@, old(self)@),
        ensures
            final(self).wf(),
            final(self)@ == set_node(old(self)@, idx as int, node@),
    {
        proof {
            lemma_set_node(old(self)@, idx as int, node@);
        }
        let name = HydratingName(self.entries[idx].name.0.clone());
        let kind = self.entries[idx].kind;
        self.entries[idx] = Entry { name, kind, node: Option::Some(node) };
        proof {
            assert(self@ =~= set_node(old(self)@, idx as int, node@));
        }
    }

    /// Declares a package under `name`.
    pub fn add_package(&mut self, name: &str, value: &nodes::PackageData) -> (r: Result<(), Error>)
        requires
            old(self).wf(),
        ensures
            final(self).wf(),
            ({
                let (s2, rr) = spec_add_simple(old(self)@, name@, Kind::Package);
                final(self)@ == s2 && r == rr
            }),
    {
        let idx = match self.claim_slot(name, Kind::Package) {
            Result::Ok(i) => i,
            Result::Err(e) => {
                return Result::Err(e);
            },
        };
        self.finish_slot(idx, Node::Package(nodes::Package { name: name.to_owned() }));
        Result::Ok(())
    }

    /// Looks up or creates the placeholder slot for a package named
    /// `name` and returns its handle.
    pub fn placeholder_package(&mut self, name: &str) -> (r: Result<usize, Error>)
        requires
            old(self).wf(),
        ensures
            final(self).wf(),
            ({
                let (s2, rr) = spec_resolve(old(self)@, name@, Kind::Package);
                final(self)@ == s2 && res_matches(r, rr)
            }),
    {
        self.placeholder_slot(name, Kind::Package)
    }

    /// Declares a file under `name`.
    pub fn add_file(&mut self, name: &str, value: &nodes::FileData) -> (r: Result<(), Error>)
        requires
            old(self).wf(),
        ensures
            final(self).wf(),
            ({
                let (s2, rr) = spec_add_simple(old(self)@, name@, Kind::File);
                final(self)@ == s2 && r == rr
            }),
    {
        let idx = match self.claim_slot(name, Kind::File) {
            Result::Ok(i) => i,
            Result::Err(e) => {
                return Result::Err(e);
            },
        };
        self.finish_slot(idx, Node::File(nodes::File { name: name.to_owned() }));
        Result::Ok(())
    }

    /// Looks up or creates the placeholder slot for a file
    /// named `name` and returns its handle.
    pub fn placeholder_file(&mut self, name: &str) -> (r: Result<usize, Error>)
        requires
            old(self).wf(),
        ensures
            final(self).wf(),
            ({
                let (s2, rr) = spec_resolve(old(self)@, name@, Kind::File);
                final(self)@ == s2 && res_matches(r, rr)
            }),
    {
        self.placeholder_slot(name, Kind::File)
    }

    /// Declares a message under `name`.
    pub fn add_message(&mut self, name: &str, value: &nodes::MessageData) -> (r: Result<(), Error>)
        requires
            old(self).wf(),
        ensures
            final(self).wf(),
            ({
                let (s2, rr) = spec_add_simple(old(self)@, name@, Kind::Message);
                final(self)@ == s2 && r == rr
            }),
    {
        let idx = match self.claim_slot(name, Kind::Message) {
            Result::Ok(i) => i,
            Result::Err(e) => {
                return Result::Err(e);
            },
        };
        self.finish_slot(idx, Node::Message(nodes::Message { name: name.to_owned() }));
        Result::Ok(())
    }

    /// Looks up or creates the placeholder slot for a message
    /// named `name` and returns its handle.
    pub fn placeholder_message(&mut self, name: &str) -> (r: Result<usize, Error>)
        requires
            old(self).wf(),
        ensures
            final(self).wf(),
            ({
                let (s2, rr) = spec_resolve(old(self)@, name@, Kind::Message);
                final(self)@ == s2 && res_matches(r, rr)
            }),
    {
        self.placeholder_slot(name, Kind::Message)
    }

    /// Declares an enum under `name`.
    pub fn add_enum(&mut self, name: &str, value: &nodes::EnumData) -> (r: Result<(), Error>)
        requires
            old(self).wf(),
        ensures
            final(self).wf(),
            ({
                let (s2, rr) = spec_add_simple(old(self)@, name@, Kind::Enum);
                final(self)@ == s2 && r == rr
            }),
    {
        let idx = match self.claim_slot(name, Kind::Enum) {
            Result::Ok(i) => i,
            Result::Err(e) => {
                return Result::Err(e);
            },
        };
        self.finish_slot(idx, Node::Enum(nodes::Enum { name: name.to_owned() }));
        Result::Ok(())
    }

    /// Looks up or creates the placeholder slot for an enum
    /// named `name` and returns its handle.
    pub fn placeholder_enum(&mut self, name: &str) -> (r: Result<usize, Error>)
        requires
            old(self).wf(),
        ensures
            final(self).wf(),
            ({
                let (s2, rr) = spec_resolve(old(self)@, name@, Kind::Enum);
                final(self)@ == s2 && res_matches(r, rr)
            }),
    {
        self.placeholder_slot(name, Kind::Enum)
    }

    /// Declares an enum value under `name`.
    pub fn add_enum_value(&mut self, name: &str, value: &nodes::EnumValueData) -> (r: Result<(), Error>)
        requires
            old(self).wf(),
        ensures
            final(self).wf(),
            ({
                let (s2, rr) = spec_add_simple(old(self)@, name@, Kind::EnumValue);
                final(self)@ == s2 && r == rr
            }),
    {
        let idx = match self.claim_slot(name, Kind::EnumValue) {
            Result::Ok(i) => i,
            Result::Err(e) => {
                return Result::Err(e);
            },
        };
        self.finish_slot(idx, Node::EnumValue(nodes::EnumValue { name: name.to_owned() }));
        Result::Ok(())
    }

    /// Looks up or creates the placeholder slot for an enum value
    /// named `name` and returns its handle.
    pub fn placeholder_enum_value(&mut self, name: &str) -> (r: Result<usize, Error>)
        requires
            old(self).wf(),
        ensures
            final(self).wf(),
            ({
                let (s2, rr) = spec_resolve(old(self)@, name@, Kind::EnumValue);
                final(self)@ == s2 && res_matches(r, rr)
            }),
    {
        self.placeholder_slot(name, Kind::EnumValue)
    }

    /// Declares a service under `name`.
    pub fn add_service(&mut self, name: &str, value: &nodes::ServiceData) -> (r: Result<(), Error>)
        requires
            old(self).wf(),
        ensures
            final(self).wf(),
            ({
                let (s2, rr) = spec_add_simple(old(self)@, name@, Kind::Service);
                final(self)@ == s2 && r == rr
            }),
    {
        let idx = match self.claim_slot(name, Kind::Service) {
            Result::Ok(i) => i,
            Result::Err(e) => {
                return Result::Err(e);
            },
        };
        self.finish_slot(idx, Node::Service(nodes::Service { name: name.to_owned() }));
        Result::Ok(())
    }

    /// Looks up or creates the placeholder slot for a service
    /// named `name` and returns its handle.
    pub fn placeholder_service(&mut self, name: &str) -> (r: Result<usize, Error>)
        requires
            old(self).wf(),
        ensures
            final(self).wf(),
            ({
                let (s2, rr) = spec_resolve(old(self)@, name@, Kind::Service);
                final(self)@ == s2 && res_matches(r, rr)
            }),
    {
        self.placeholder_slot(name, Kind::Service)
    }

    /// Declares a field under `name`.
    pub fn add_field(&mut self, name: &str, value: &nodes::FieldData) -> (r: Result<(), Error>)
        requires
            old(self).wf(),
        ensures
            final(self).wf(),
            ({
                let (s2, rr) = spec_add_simple(old(self)@, name@, Kind::Field);
                final(self)@ == s2 && r == rr
            }),
    {
        let idx = match self.claim_slot(name, Kind::Field) {
            Result::Ok(i) => i,
            Result::Err(e) => {
                return Result::Err(e);
            },
        };
        self.finish_slot(idx, Node::Field(nodes::Field { name: name.to_owned() }));
        Result::Ok(())
    }

    /// Looks up or creates the placeholder slot for a field
    /// named `name` and returns its handle.
    pub fn placeholder_field(&mut self, name: &str) -> (r: Result<usize, Error>)
        requires
            old(self).wf(),
        ensures
            final(self).wf(),
            ({
                let (s2, rr) = spec_resolve(old(self)@, name@, Kind::Field);
                final(self)@ == s2 && res_matches(r, rr)
            }),
    {
        self.placeholder_slot(name, Kind::Field)
    }

    /// Declares a oneof under `name`.
    pub fn add_oneof(&mut self, name: &str, value: &nodes::OneofData) -> (r: Result<(), Error>)
        requires
            old(self).wf(),
        ensures
            final(self).wf(),
            ({
                let (s2, rr) = spec_add_simple(old(self)@, name@, Kind::Oneof);
                final(self)@ == s2 && r == rr
            }),
    {
        let idx = match self.claim_slot(name, Kind::Oneof) {
            Result::Ok(i) => i,
            Result::Err(e) => {
                return Result::Err(e);
            },
        };
        self.finish_slot(idx, Node::Oneof(nodes::Oneof { name: name.to_owned() }));
        Result::Ok(())
    }

    /// Looks up or creates the placeholder slot for a oneof
    /// named `name` and returns its handle.
    pub fn placeholder_oneof(&mut self, name: &str) -> (r: Result<usize, Error>)
        requires
            old(self).wf(),
        ensures
            final(self).wf(),
            ({
                let (s2, rr) = spec_resolve(old(self)@, name@, Kind::Oneof);
                final(self)@ == s2 && res_matches(r, rr)
            }),
    {
        self.placeholder_slot(name, Kind::Oneof)
    }

    /// Declares an extension under `name`.
    pub fn add_extension(&mut self, name: &str, value: &nodes::ExtensionData) -> (r: Result<(), Error>)
        requires
            old(self).wf(),
        ensures
            final(self).wf(),
            ({
                let (s2, rr) = spec_add_simple(old(self)@, name@, Kind::Extension);
                final(self)@ == s2 && r == rr
            }),
    {
        let idx = match self.claim_slot(name, Kind::Extension) {
            Result::Ok(i) => i,
            Result::Err(e) => {
                return Result::Err(e);
            },
        };
        self.finish_slot(idx, Node::Extension(nodes::Extension { name: name.to_owned() }));
        Result::Ok(())
    }

    /// Looks up or creates the placeholder slot for an extension
    /// named `name` and returns its handle.
    pub fn placeholder_extension(&mut self, name: &str) -> (r: Result<usize, Error>)
        requires
            old(self).wf(),
        ensures
            final(self).wf(),
            ({
                let (s2, rr) = spec_resolve(old(self)@, name@, Kind::Extension);
                final(self)@ == s2 && res_matches(r, rr)
            }),
    {
        self.placeholder_slot(name, Kind::Extension)
    }

    /// Declares a method under `name`, resolving the message and file
    /// names its data references into handles; referenced names that are
    /// not yet declared get placeholder slots.
    pub fn add_method(&mut self, name: &str, value: &MethodData) -> (r: Result<(), Error>)
        requires
            old(self).wf(),
        ensures
            final(self).wf(),
            ({
                let (s2, rr) = spec_add_method(old(self)@, name@, value@);
                final(self)@ == s2 && r == rr
            }),
    {
        let idx = match self.claim_slot(name, Kind::Method) {
            Result::Ok(i) => i,
            Result::Err(e) => {
                return Result::Err(e);
            },
        };
        value.populate_into(self, idx)
    }

    /// Looks up or creates the placeholder slot for a method named
    /// `name` and returns its handle.
    pub fn placeholder_method(&mut self, name: &str) -> (r: Result<usize, Error>)
        requires
            old(self).wf(),
        ensures
            final(self).wf(),
            ({
                let (s2, rr) = spec_resolve(old(self)@, name@, Kind::Method);
                final(self)@ == s2 && res_matches(r, rr)
            }),
    {
        self.placeholder_slot(name, Kind::Method)
    }

    /// Freezes the session.  If any slot is still a placeholder, some
    /// name was referenced but never declared and the session fails with
    /// [`Error::Incomplete`]; otherwise every slot is resolved and the
    /// result is the immutable [`Ast`] over exactly this slot table.
    pub fn finish(self) -> (r: Result<Ast, Error>)
        requires
            self.wf(),
        ensures
            match r {
                Result::Ok(ast) => {
                    &&& (forall|i: int| 0 <= i < self@.len() ==> self@[i].node is Some)
                    &&& ast@ == self@
                    &&& ast.wf()
                },
                Result::Err(e) => {
                    &&& e == Error::Incomplete
                    &&& (exists|i: int| 0 <= i < self@.len() && self@[i].node is None)
                },
            },
    {
        let ghost s = self@;
        let mut i: usize = 0;
        while i < self.entries.len()
            invariant
                i <= self.entries@.len(),
                s == self@,
                self.wf(),
                forall|j: int| 0 <= j < i ==> s[j].node is Some,
            decreases self.entries@.len() - i,
        {
            let occupied = match &self.entries[i].node {
                Option::Some(_) => true,
                Option::None => false,
            };
            if !occupied {
                proof {
                    assert(self@[i as int] == self.entries@[i as int]@);
                    assert(s[i as int].node is None);
                }
                return Result::Err(Error::Incomplete);
            }
            i = i + 1;
        }
        let mut entries = self.entries;
        let mut nodes: Vec<(HydratingName, Node)> = Vec::new();
        while entries.len() > 0
            invariant
                nodes@.len() + entries@.len() == s.len(),
                forall|j: int|
                    0 <= j < entries@.len() ==> #[trigger] entries@[j]@ == s[nodes@.len() + j],
                forall|j: int|
                    0 <= j < nodes@.len() ==> (#[trigger] nodes@[j].0)@ == s[j].name && s[j].node
                        == Option::Some(nodes@[j].1@),
                forall|j: int| 0 <= j < s.len() ==> s[j].node is Some,
                entries_ok(s),
            decreases entries@.len(),
        {
            let ghost pre = entries@;
            let e = entries.remove(0);
            proof {
                assert(e@ == s[nodes@.len() as int]);
                assert forall|j: int|
                    0 <= j < entries@.len() implies #[trigger] entries@[j]@ == s[nodes@.len() + 1
                    + j] by {
                    assert(entries@[j] == pre[j + 1]);
                }
            }
            match e.node {
                Option::Some(n) => {
                    nodes.push((e.name, n));
                },
                Option::None => {
                    proof {
                        assert(false);
                    }
                    return Result::Err(Error::Incomplete);
                },
            }
        }
        proof {
            // Every slot was moved over: restate the loop's summary so the
            // index-array pass below can instantiate it per slot.
            assert forall|j: int|
                0 <= j < nodes@.len() implies (#[trigger] nodes@[j].0)@ == s[j].name && s[j].node
                == Option::Some(nodes@[j].1@) by {
                let p = nodes@[j];
                assert(p.0@ == s[j].name);
            }
        }
        let mut packages: Vec<usize> = Vec::new();
        let mut files: Vec<usize> = Vec::new();
        let mut messages: Vec<usize> = Vec::new();
        let mut enums: Vec<usize> = Vec::new();
        let mut enum_values: Vec<usize> = Vec::new();
        let mut services: Vec<usize> = Vec::new();
        let mut methods: Vec<usize> = Vec::new();
        let mut fields: Vec<usize> = Vec::new();
        let mut oneofs: Vec<usize> = Vec::new();
        let mut extensions: Vec<usize> = Vec::new();
        let mut k: usize = 0;
        while k < nodes.len()
            invariant
                k <= nodes@.len(),
                nodes@.len() == s.len(),
                forall|j: int|
                    0 <= j < nodes@.len() ==> (#[trigger] nodes@[j].0)@ == s[j].name && s[j].node
                        == Option::Some(nodes@[j].1@),
                entries_ok(s),
                indices_match(packages@, kind_indices(s.take(k as int), Kind::Package)),
                indices_match(files@, kind_indices(s.take(k as int), Kind::File)),
                indices_match(messages@, kind_indices(s.take(k as int), Kind::Message)),
                indices_match(enums@, kind_indices(s.take(k as int), Kind::Enum)),
                indices_match(enum_values@, kind_indices(s.take(k as int), Kind::EnumValue)),
                indices_match(services@, kind_indices(s.take(k as int), Kind::Service)),
                indices_match(methods@, kind_indices(s.take(k as int), Kind::Method)),
                indices_match(fields@, kind_indices(s.take(k as int), Kind::Field)),
                indices_match(oneofs@, kind_indices(s.take(k as int), Kind::Oneof)),
                indices_match(extensions@, kind_indices(s.take(k as int), Kind::Extension)),
            decreases nodes@.len() - k,
        {
            proof {
                assert(entry_node_ok(s, k as int));
                assert((nodes@[k as int].0)@ == s[k as int].name && s[k as int].node
                    == Option::Some(nodes@[k as int].1@));
                assert(node_kind(nodes@[k as int].1@) == s[k as int].kind);
                assert(s.take(k + 1 as int).drop_last() =~= s.take(k as int));
                assert(s.take(k + 1 as int).last() == s[k as int]);
            }
            match &nodes[k].1 {
                Node::Package(_) => packages.push(k),
                Node::File(_) => files.push(k),
                Node::Message(_) => messages.push(k),
                Node::Enum(_) => enums.push(k),
                Node::EnumValue(_) => enum_values.push(k),
                Node::Service(_) => services.push(k),
                Node::Method(_) => methods.push(k),
                Node::Field(_) => fields.push(k),
                Node::Oneof(_) => oneofs.push(k),
                Node::Extension(_) => extensions.push(k),
            }
            k = k + 1;
        }
        let ast = Ast {
            nodes,
            packages,
            files,
            messages,
            enums,
            enum_values,
            services,
            methods,
            fields,
            oneofs,
            extensions,
        };
        proof {
            assert(s.take(s.len() as int) =~= s);
            assert forall|i2: int| 0 <= i2 < s.len() implies ast@[i2] == s[i2] by {
                assert(entry_node_ok(s, i2));
            }
            assert(ast@ =~= s);
        }
        Result::Ok(ast)
    }
}

/// Placeholders are idempotent: asking again for the same name under
/// the same kind returns the same handle and the same outcome, and the
/// second call leaves the session exactly as the first left it.
pub proof fn lemma_placeholder_idempotent(s: Seq<EntryView>, name: Seq<char>, kind: Kind)
    requires
        entries_ok(s),
    ensures
        ({
            let (s1, r1) = spec_resolve(s, name, kind);
            let (s2, r2) = spec_resolve(s1, name, kind);
            s2 == s1 && r2 == r1
        }),
{
    lemma_find_entry_is_first(s, name);
    let (s1, r1) = spec_resolve(s, name, kind);
    match find_entry(s, name) {
        Option::None => {
            lemma_find_entry_push(s, name, placeholder_entry(name, kind));
        },
        Option::Some(_) => {},
    }
}

/// Declaring a name fills the very slot an earlier placeholder handed
/// out: after the declaration, handle `i` reaches exactly the declared
/// value, and no other slot has changed.
pub proof fn lemma_add_fills_placeholder(s: Seq<EntryView>, name: Seq<char>, kind: Kind, i: int)
    requires
        entries_ok(s),
        kind != Kind::Method,
        spec_resolve(s, name, kind).1 == Result::<int, Error>::Ok(i),
        spec_resolve(s, name, kind).0[i].node is None,
    ensures
        ({
            let s1 = spec_resolve(s, name, kind).0;
            let (s2, r2) = spec_add_simple(s1, name, kind);
            &&& r2 == Result::<(), Error>::Ok(())
            &&& s2.len() == s1.len()
            &&& s2[i].node == Option::Some(simple_node(kind, name))
            &&& forall|j: int| 0 <= j < s1.len() && j != i ==> s2[j] == s1[j]
        }),
{
    lemma_find_entry_is_first(s, name);
    lemma_resolve_ok(s, name, kind);
    let s1 = spec_resolve(s, name, kind).0;
    match find_entry(s, name) {
        Option::None => {
            lemma_find_entry_push(s, name, placeholder_entry(name, kind));
        },
        Option::Some(_) => {},
    }
    lemma_claim_ok(s1, name, kind);
    assert(find_entry(s1, name) == Option::Some(i));
    lemma_set_node(s1, i, simple_node(kind, name));
}

/// Duplicate rejection: after a name has been declared under a kind,
/// declaring it again under the same kind fails with `Present`, and the
/// session — the first declaration's value included — is untouched.
pub proof fn lemma_duplicate_add_rejected(s: Seq<EntryView>, name: Seq<char>, kind: Kind)
    requires
        entries_ok(s),
        kind != Kind::Method,
        spec_add_simple(s, name, kind).1 is Ok,
    ensures
        ({
            let s1 = spec_add_simple(s, name, kind).0;
            spec_add_simple(s1, name, kind) == (s1, Result::<(), Error>::Err(Error::Present))
        }),
{
    lemma_find_entry_is_first(s, name);
    lemma_claim_ok(s, name, kind);
    let (sc, rc) = spec_claim(s, name, kind);
    let i = match rc {
        Result::Ok(i) => i,
        Result::Err(_) => 0,
    };
    match find_entry(s, name) {
        Option::None => {
            lemma_find_entry_push(s, name, placeholder_entry(name, kind));
        },
        Option::Some(_) => {},
    }
    assert(find_entry(sc, name) == Option::Some(i));
    lemma_set_node(sc, i, simple_node(kind, name));
    let s1 = spec_add_simple(s, name, kind).0;
    lemma_find_entry_update(
        sc,
        name,
        i,
        EntryView { name: sc[i].name, kind: sc[i].kind, node: Option::Some(simple_node(kind, name)) },
    );
    assert(find_entry(s1, name) == Option::Some(i));
    assert(s1[i].node is Some);
}

/// Resolving one name never moves another: a slot found before a
/// placeholder call is found at the same handle after it.
pub proof fn lemma_resolve_preserves_find(
    s: Seq<EntryView>,
    rname: Seq<char>,
    rkind: Kind,
    name: Seq<char>,
    i: int,
)
    requires
        find_entry(s, name) == Option::Some(i),
    ensures
        find_entry(spec_resolve(s, rname, rkind).0, name) == Option::Some(i),
{
    match find_entry(s, rname) {
        Option::None => {
            lemma_find_entry_push(s, name, placeholder_entry(rname, rkind));
        },
        Option::Some(_) => {},
    }
}

/// The same, for methods: a second `add_method` under an already
/// declared name fails with `Present`, whatever data it carries, and
/// the session is untouched.
pub proof fn lemma_duplicate_add_method_rejected(
    s: Seq<EntryView>,
    name: Seq<char>,
    d1: MethodDataView,
    d2: MethodDataView,
)
    requires
        entries_ok(s),
        spec_add_method(s, name, d1).1 is Ok,
    ensures
        ({
            let s1 = spec_add_method(s, name, d1).0;
            spec_add_method(s1, name, d2) == (s1, Result::<(), Error>::Err(Error::Present))
        }),
{
    lemma_find_entry_is_first(s, name);
    lemma_claim_ok(s, name, Kind::Method);
    let (sc, rc) = spec_claim(s, name, Kind::Method);
    let (s1, r1) = spec_add_method(s, name, d1);
    match rc {
        Result::Err(_) => {
            assert(false);
        },
        Result::Ok(i) => {
            match find_entry(s, name) {
                Option::None => {
                    lemma_find_entry_push(s, name, placeholder_entry(name, Kind::Method));
                },
                Option::Some(_) => {},
            }
            assert(find_entry(sc, name) == Option::Some(i));
            lemma_resolve_ok(sc, d1.input, Kind::Message);
            let (sa, ra) = spec_resolve(sc, d1.input, Kind::Message);
            lemma_resolve_ok(sa, d1.output, Kind::Message);
            let (sb, rb) = spec_resolve(sa, d1.output, Kind::Message);
            lemma_resolve_ok(sb, d1.file, Kind::File);
            let (sd, rd) = spec_resolve(sb, d1.file, Kind::File);
            lemma_resolve_preserves_find(sc, d1.input, Kind::Message, name, i);
            lemma_resolve_preserves_find(sa, d1.output, Kind::Message, name, i);
            lemma_resolve_preserves_find(sb, d1.file, Kind::File, name, i);
            match (ra, rb, rd) {
                (Result::Ok(ia), Result::Ok(ob), Result::Ok(fd)) => {
                    let n = NodeView::Method {
                        input: ia,
                        output: ob,
                        file: fd,
                        name: d1.name,
                        deprecated: d1.deprecated,
                    };
                    assert(s1 == set_node(sd, i, n));
                    lemma_set_node(sd, i, n);
                    lemma_find_entry_update(
                        sd,
                        name,
                        i,
                        EntryView { name: sd[i].name, kind: sd[i].kind, node: Option::Some(n) },
                    );
                    assert(find_entry(s1, name) == Option::Some(i));
                    assert(s1[i].node is Some);
                    assert(s1[i].kind == Kind::Method);
                },
                _ => {
                    assert(false);
                },
            }
        },
    }
}

/// Kind mismatch: a name already bound to one kind cannot be declared
/// or referenced under another; the attempt fails with `TypeMismatch`
/// and changes nothing.
pub proof fn lemma_kind_mismatch_rejected(s: Seq<EntryView>, name: Seq<char>, i: int, kind: Kind)
    requires
        entries_ok(s),
        find_entry(s, name) == Option::Some(i),
        0 <= i < s.len(),
        s[i].kind != kind,
    ensures
        spec_resolve(s, name, kind) == (s, Result::<int, Error>::Err(Error::TypeMismatch)),
        kind != Kind::Method ==> spec_add_simple(s, name, kind) == (
            s,
            Result::<(), Error>::Err(Error::TypeMismatch),
        ),
{
}

/// A declaration populates no slot but its own: every slot under
/// another name keeps its state, and any slot the call appends for
/// another name is a placeholder.  A name that is only ever referenced
/// therefore stays a placeholder, and `finish` reports `Incomplete`.
pub proof fn lemma_add_touches_only_its_name(s: Seq<EntryView>, name: Seq<char>, kind: Kind)
    requires
        entries_ok(s),
        kind != Kind::Method,
    ensures
        ({
            let (s2, r) = spec_add_simple(s, name, kind);
            &&& s.len() <= s2.len()
            &&& (forall|j: int| 0 <= j < s.len() && s[j].name != name ==> s2[j] == s[j])
            &&& (forall|j: int|
                s.len() <= j < s2.len() && s2[j].name != name ==> s2[j].node is None)
        }),
{
    lemma_find_entry_is_first(s, name);
    lemma_claim_ok(s, name, kind);
    let (sc, rc) = spec_claim(s, name, kind);
    match rc {
        Result::Ok(i) => {
            lemma_set_node(sc, i, simple_node(kind, name));
        },
        Result::Err(_) => {},
    }
}

/// The same, for methods: beyond its own slot, `add_method` only ever
/// appends placeholders (for referenced names not yet declared); no
/// other slot's state changes.
pub proof fn lemma_add_method_touches_only_its_name(
    s: Seq<EntryView>,
    name: Seq<char>,
    d: MethodDataView,
)
    requires
        entries_ok(s),
    ensures
        ({
            let (s2, r) = spec_add_method(s, name, d);
            &&& s.len() <= s2.len()
            &&& (forall|j: int| 0 <= j < s.len() && s[j].name != name ==> s2[j] == s[j])
            &&& (forall|j: int|
                s.len() <= j < s2.len() && s2[j].name != name ==> s2[j].node is None)
        }),
{
    lemma_find_entry_is_first(s, name);
    lemma_claim_ok(s, name, Kind::Method);
    let (sc, rc) = spec_claim(s, name, Kind::Method);
    let (s2, r) = spec_add_method(s, name, d);
    match rc {
        Result::Err(_) => {},
        Result::Ok(i) => {
            lemma_resolve_ok(sc, d.input, Kind::Message);
            let (sa, ra) = spec_resolve(sc, d.input, Kind::Message);
            lemma_resolve_ok(sa, d.output, Kind::Message);
            let (sb, rb) = spec_resolve(sa, d.output, Kind::Message);
            lemma_resolve_ok(sb, d.file, Kind::File);
            let (sd, rd) = spec_resolve(sb, d.file, Kind::File);
            assert forall|j: int|
                s.len() <= j < sd.len() && sd[j].name != name implies sd[j].node is None by {
                if j < sc.len() {
                    assert(sd[j] == sc[j]);
                } else if j < sa.len() {
                    assert(sd[j] == sa[j]);
                } else if j < sb.len() {
                    assert(sd[j] == sb[j]);
                }
            }
            match (ra, rb, rd) {
                (Result::Ok(ia), Result::Ok(ob), Result::Ok(fd)) => {
                    let n = NodeView::Method {
                        input: ia,
                        output: ob,
                        file: fd,
                        name: d.name,
                        deprecated: d.deprecated,
                    };
                    lemma_set_node(sd, i, n);
                    assert(sd[i].name == name);
                    assert forall|j: int|
                        0 <= j < s.len() && s[j].name != name implies s2[j] == s[j] by {
                        assert(sd[j] == s[j]);
                        assert(j != i);
                    }
                },
                _ => {},
            }
        },
    }
}

/// The slot indices, in slot order, of the nodes of one kind.
pub open spec fn kind_indices(s: Seq<EntryView>, k: Kind) -> Seq<int>
    decreases s.len(),
{
    if s.len() == 0 {
        Seq::empty()
    } else if s.last().kind == k {
        kind_indices(s.drop_last(), k).push(s.len() - 1)
    } else {
        kind_indices(s.drop_last(), k)
    }
}

/// An exec index array against its model.
pub open spec fn indices_match(v: Seq<usize>, s: Seq<int>) -> bool {
    v.len() == s.len() && forall|j: int| 0 <= j < s.len() ==> v[j] as int == s[j]
}

/// The frozen AST: every slot resolved, with one index array per kind
/// and name lookup over the whole table.  Handles (slot indices) are
/// dereferenced through [`Ast::node`].
pub struct Ast {
    pub nodes: Vec<(HydratingName, Node)>,
    pub packages: Vec<usize>,
    pub files: Vec<usize>,
    pub messages: Vec<usize>,
    pub enums: Vec<usize>,
    pub enum_values: Vec<usize>,
    pub services: Vec<usize>,
    pub methods: Vec<usize>,
    pub fields: Vec<usize>,
    pub oneofs: Vec<usize>,
    pub extensions: Vec<usize>,
}

impl View for Ast {
    type V = Seq<EntryView>;

    open spec fn view(&self) -> Seq<EntryView> {
        self.nodes@.map_values(
            |p: (HydratingName, Node)|
                EntryView { name: p.0@, kind: node_kind(p.1@), node: Option::Some(p.1@) },
        )
    }
}

impl Ast {
    /// The invariant of a frozen AST: the slot table's invariant still
    /// holds, and each kind's index array lists exactly that kind's
    /// slots, in order.
    pub open spec fn wf(&self) -> bool {
        &&& entries_ok(self@)
        &&& indices_match(self.packages@, kind_indices(self@, Kind::Package))
        &&& indices_match(self.files@, kind_indices(self@, Kind::File))
        &&& indices_match(self.messages@, kind_indices(self@, Kind::Message))
        &&& indices_match(self.enums@, kind_indices(self@, Kind::Enum))
        &&& indices_match(self.enum_values@, kind_indices(self@, Kind::EnumValue))
        &&& indices_match(self.services@, kind_indices(self@, Kind::Service))
        &&& indices_match(self.methods@, kind_indices(self@, Kind::Method))
        &&& indices_match(self.fields@, kind_indices(self@, Kind::Field))
        &&& indices_match(self.oneofs@, kind_indices(self@, Kind::Oneof))
        &&& indices_match(self.extensions@, kind_indices(self@, Kind::Extension))
    }

    /// The number of nodes in the AST.
    pub fn len(&self) -> (r: usize)
        ensures
            r == self@.len(),
    {
        self.nodes.len()
    }

    /// Dereferences a handle.
    pub fn node(&self, h: usize) -> (r: &Node)
        requires
            h < self@.len(),
        ensures
            self@[h as int].node == Option::Some(r@),
            self@[h as int].kind == node_kind(r@),
    {
        &self.nodes[h].1
    }

    /// The handle bound to `name`, if any.
    pub fn get(&self, name: &str) -> (r: Option<usize>)
        ensures
            match r {
                Option::Some(i) => i < self@.len() && find_entry(self@, name@) == Option::Some(
                    i as int,
                ),
                Option::None => find_entry(self@, name@) is None,
            },
    {
        let key: String = name.to_owned();
        let mut i: usize = 0;
        while i < self.nodes.len()
            invariant
                i <= self.nodes@.len(),
                key@ == name@,
                forall|j: int| 0 <= j < i ==> self@[j].name != name@,
            decreases self.nodes@.len() - i,
        {
            if self.nodes[i].0.0.eq(&key) {
                proof {
                    lemma_find_entry_at(self@, name@, i as int);
                }
                return Option::Some(i);
            }
            i = i + 1;
        }
        proof {
            lemma_find_entry_is_first(self@, name@);
            match find_entry(self@, name@) {
                Option::Some(k2) => {
                    assert(self@[k2].name == name@);
                    assert(false);
                },
                Option::None => {},
            }
        }
        Option::None
    }
}

} // verus!
