//! Syntax trees as plain data.
//!
//! A [`SyntaxTree`] lists the nodes of a parse in the order in which a walk
//! from the root first reaches them, each with its depth. The links between
//! the nodes follow from the depths.

use vstd::prelude::*;
use vstd::utf8::{decode_utf8, encode_utf8, is_char_boundary, valid_utf8};

verus! {

/// One node of a parse, as plain values.
#[derive(Clone, Debug)]
pub struct NodeRecord {
    /// Grammar symbol of the node.
    pub kind: String,
    /// Field of the parent that the node fills, if any.
    pub field: Option<String>,
    /// False for tokens that the grammar spells out (keywords, punctuation).
    pub named: bool,
    /// Number of ancestors.
    pub depth: usize,
    /// Byte offset of the first byte of the node's text.
    pub start_byte: usize,
    /// Byte offset just behind the node's text.
    pub end_byte: usize,
    /// Row (from 0) on which the node's text starts.
    pub start_row: usize,
    /// Row (from 0) on which the node's text ends.
    pub end_row: usize,
}

/// What a [`NodeRecord`] says.
pub struct NodeFacts {
    pub kind: Seq<char>,
    pub field: Option<Seq<char>>,
    pub named: bool,
    pub depth: nat,
    pub start_byte: nat,
    pub end_byte: nat,
    pub start_row: nat,
    pub end_row: nat,
}

impl DeepView for NodeRecord {
    type V = NodeFacts;

    open spec fn deep_view(&self) -> NodeFacts {
        NodeFacts {
            kind: self.kind@,
            field: self.field.deep_view(),
            named: self.named,
            depth: self.depth as nat,
            start_byte: self.start_byte as nat,
            end_byte: self.end_byte as nat,
            start_row: self.start_row as nat,
            end_row: self.end_row as nat,
        }
    }
}

/// The last of the nodes before `j` that is less deep than node `i`.
pub open spec fn shallower_before(r: Seq<NodeFacts>, i: int, j: int) -> Option<int>
    decreases j,
{
    if j <= 0 {
        None
    } else if r[j - 1].depth < r[i].depth {
        Some(j - 1)
    } else {
        shallower_before(r, i, j - 1)
    }
}

/// The parent of node `i`: the closest node before it that is less deep.
pub open spec fn parent_of(r: Seq<NodeFacts>, i: int) -> Option<int> {
    shallower_before(r, i, i)
}

/// The children of node `i` among the first `k` nodes, in order.
pub open spec fn children_among(r: Seq<NodeFacts>, i: int, k: int) -> Seq<int>
    decreases k,
{
    if k <= 0 {
        Seq::empty()
    } else if parent_of(r, k - 1) == Some(i) {
        children_among(r, i, k - 1).push(k - 1)
    } else {
        children_among(r, i, k - 1)
    }
}

/// The children of node `i`, in order.
pub open spec fn children_of(r: Seq<NodeFacts>, i: int) -> Seq<int> {
    children_among(r, i, r.len() as int)
}

/// How many siblings stand before node `i`.
pub open spec fn slot_of(r: Seq<NodeFacts>, i: int) -> nat {
    match parent_of(r, i) {
        Some(p) => children_among(r, p, i).len(),
        None => 0,
    }
}

/// How many of the first `n` bytes of a text are line breaks.
pub open spec fn breaks(bytes: Seq<u8>, n: nat) -> nat
    decreases n,
{
    if n == 0 {
        0
    } else if bytes[n - 1] == 0x0a {
        breaks(bytes, (n - 1) as nat) + 1
    } else {
        breaks(bytes, (n - 1) as nat)
    }
}

/// How many lines a text has: one more than it has line breaks.
pub open spec fn line_count(source: Seq<char>) -> nat {
    breaks(encode_utf8(source), encode_utf8(source).len()) + 1
}

/// A node that starts and ends on characters of the source, and on the rows of
/// those. The rows can be numbered from 1 in a `u32`.
pub open spec fn record_fits(source: Seq<char>, f: NodeFacts) -> bool {
    let bytes = encode_utf8(source);
    &&& f.start_byte <= f.end_byte <= bytes.len()
    &&& is_char_boundary(bytes, f.start_byte as int)
    &&& is_char_boundary(bytes, f.end_byte as int)
    &&& f.start_row == breaks(bytes, f.start_byte)
    &&& f.end_row == breaks(bytes, f.end_byte)
    &&& f.end_row < u32::MAX
}

/// A node that lies within its parent and behind its elder siblings.
pub open spec fn is_nested(r: Seq<NodeFacts>, i: int) -> bool {
    match parent_of(r, i) {
        Some(p) => {
            let elders = children_among(r, p, i);
            &&& r[p].start_byte <= r[i].start_byte
            &&& r[i].end_byte <= r[p].end_byte
            &&& elders.len() > 0 ==> r[elders.last()].end_byte <= r[i].start_byte
        },
        None => true,
    }
}

/// A list of nodes that a walk over one tree can give: one root at depth 0,
/// each further node at most one deeper than the node before it, within its
/// parent and behind its elder siblings.
pub open spec fn is_tree(source: Seq<char>, r: Seq<NodeFacts>) -> bool {
    &&& is_walk(r)
    &&& forall|i: int| 0 <= i < r.len() ==> record_fits(source, #[trigger] r[i])
    &&& forall|i: int| 0 <= i < r.len() ==> #[trigger] is_nested(r, i)
}

/// A list of nodes with the depths of a walk over one tree.
pub open spec fn is_walk(r: Seq<NodeFacts>) -> bool {
    &&& r.len() > 0
    &&& r[0].depth == 0
    &&& forall|i: int| 0 < i < r.len() ==> 0 < (#[trigger] r[i]).depth <= r[i - 1].depth + 1
}

/// The characters of `source` whose encoding fills the bytes from `start` to `end`.
pub open spec fn byte_slice(source: Seq<char>, start: int, end: int) -> Seq<char> {
    decode_utf8(encode_utf8(source).subrange(start, end))
}

proof fn lemma_shallower_before(r: Seq<NodeFacts>, i: int, j: int)
    ensures
        shallower_before(r, i, j) matches Some(p) ==> 0 <= p < j && r[p].depth < r[i].depth
            && forall|q: int| p < q < j ==> (#[trigger] r[q]).depth >= r[i].depth,
        shallower_before(r, i, j) is None ==> forall|q: int|
            0 <= q < j ==> (#[trigger] r[q]).depth >= r[i].depth,
    decreases j,
{
    if j > 0 && !(r[j - 1].depth < r[i].depth) {
        lemma_shallower_before(r, i, j - 1);
    }
}

proof fn lemma_children_among(r: Seq<NodeFacts>, i: int, k: int, m: int)
    requires
        k <= m,
    ensures
        forall|x: int| 0 <= x < children_among(r, i, m).len() ==> i < #[trigger] children_among(
            r,
            i,
            m,
        )[x] < m && parent_of(r, children_among(r, i, m)[x]) == Some(i),
        children_among(r, i, k).len() <= children_among(r, i, m).len(),
        forall|x: int|
            0 <= x < children_among(r, i, k).len() ==> children_among(r, i, k)[x]
                == #[trigger] children_among(r, i, m)[x],
    decreases m,
{
    if m > 0 {
        lemma_shallower_before(r, m - 1, m - 1);
        if k < m {
            lemma_children_among(r, i, k, m - 1);
        } else {
            lemma_children_among(r, i, m - 1, m - 1);
        }
    }
}

proof fn lemma_slot(r: Seq<NodeFacts>, i: int)
    requires
        0 <= i < r.len(),
        parent_of(r, i) is Some,
    ensures
        slot_of(r, i) < children_of(r, parent_of(r, i)->0).len(),
        children_of(r, parent_of(r, i)->0)[slot_of(r, i) as int] == i,
{
    let p = parent_of(r, i)->0;
    lemma_children_among(r, p, i + 1, r.len() as int);
}

pub open spec fn ints(s: Seq<usize>) -> Seq<int> {
    Seq::new(s.len(), |k: int| s[k] as int)
}

/// Whether the entries tell the parent, the slot and the children of each node.
pub open spec fn are_links(
    r: Seq<NodeFacts>,
    parents: Seq<Option<usize>>,
    slots: Seq<usize>,
    children: Seq<Vec<usize>>,
) -> bool {
    &&& parents.len() == r.len()
    &&& slots.len() == r.len()
    &&& children.len() == r.len()
    &&& forall|i: int|
        0 <= i < r.len() ==> #[trigger] parents[i] == match parent_of(r, i) {
            Some(p) => Some(p as usize),
            None => None,
        }
    &&& forall|i: int| 0 <= i < r.len() ==> #[trigger] slots[i] == slot_of(r, i)
    &&& forall|i: int| 0 <= i < r.len() ==> ints(#[trigger] children[i]@) == children_of(r, i)
}

/// A source text with the nodes of its parse.
pub struct SyntaxTree {
    source: String,
    records: Vec<NodeRecord>,
    parents: Vec<Option<usize>>,
    slots: Vec<usize>,
    children: Vec<Vec<usize>>,
}

impl SyntaxTree {
    #[verifier::type_invariant]
    spec fn well_formed(self) -> bool {
        let r = self.records.deep_view();
        &&& is_tree(self.source@, r)
        &&& are_links(r, self.parents@, self.slots@, self.children@)
    }

    /// The source text.
    pub closed spec fn text(self) -> Seq<char> {
        self.source@
    }

    /// The nodes, in the order in which a walk from the root reaches them.
    pub closed spec fn nodes(self) -> Seq<NodeFacts> {
        self.records.deep_view()
    }

    /// Builds a tree from its nodes, or says that the nodes are not those of
    /// a walk over one tree of the source.
    pub fn from_records(source: String, records: Vec<NodeRecord>) -> (res: Option<SyntaxTree>)
        ensures
            res is Some <==> is_tree(source@, records.deep_view()),
            res matches Some(t) ==> t.text() == source@ && t.nodes() == records.deep_view(),
    {
        let ghost r = records.deep_view();
        let n: usize = records.len();
        if n == 0 || records[0].depth != 0 {
            return None;
        }
        let rows = break_counts(source.as_str());
        let mut i: usize = 0;
        while i < n
            invariant
                n == records.len(),
                r == records.deep_view(),
                0 <= i <= n,
                n > 0,
                r[0].depth == 0,
                counts_breaks(rows@, source@),
                forall|k: int| 0 < k < i ==> 0 < (#[trigger] r[k]).depth <= r[k - 1].depth + 1,
                forall|k: int| 0 <= k < i ==> record_fits(source@, #[trigger] r[k]),
            decreases n - i,
        {
            if i > 0 && (records[i].depth == 0 || records[i].depth - 1 > records[i - 1].depth) {
                assert(!(0 < r[i as int].depth <= r[i - 1].depth + 1));
                return None;
            }
            if !fits(&source, &rows, &records[i]) {
                assert(!record_fits(source@, r[i as int]));
                return None;
            }
            i += 1;
        }
        match link(&records) {
            Some((parents, slots, children)) => Some(
                SyntaxTree { source, records, parents, slots, children },
            ),
            None => None,
        }
    }

    /// The node that holds all others.
    pub fn root_node(&self) -> (res: Node<'_>)
        ensures
            res == self.root(),
            is_tree(self.text(), self.nodes()),
    {
        proof {
            use_type_invariant(self);
        }
        Node { tree: self, id: 0 }
    }

    /// The node that holds all others.
    pub closed spec fn root(&self) -> Node<'_> {
        Node { tree: self, id: 0 }
    }
}

/// The parent, the slot and the children of each node, or nothing where a node
/// does not lie within its parent and behind its elder siblings.
fn link(records: &Vec<NodeRecord>) -> (res: Option<
    (Vec<Option<usize>>, Vec<usize>, Vec<Vec<usize>>),
>)
    requires
        is_walk(records.deep_view()),
    ensures
        res is Some <==> forall|i: int|
            0 <= i < records@.len() ==> #[trigger] is_nested(records.deep_view(), i),
        res matches Some(found) ==> are_links(records.deep_view(), found.0@, found.1@, found.2@),
{
    let ghost r = records.deep_view();
    let n: usize = records.len();
    let mut parents: Vec<Option<usize>> = Vec::new();
    let mut slots: Vec<usize> = Vec::new();
    let mut children: Vec<Vec<usize>> = Vec::new();
    let mut j: usize = 0;
    while j < n
        invariant
            0 <= j <= n,
            children@.len() == j,
            forall|k: int| 0 <= k < j ==> (#[trigger] children@[k])@.len() == 0,
        decreases n - j,
    {
        children.push(Vec::new());
        j += 1;
    }
    assert forall|k: int| 0 <= k < n implies ints(#[trigger] children@[k]@)
        == children_among(r, k, 0) by {
        assert(ints(children@[k]@) =~= Seq::empty());
    }
    let mut open: Vec<usize> = Vec::new();
    let mut i: usize = 0;
    while i < n
        invariant
            n == records.len(),
            r == records.deep_view(),
            0 <= i <= n,
            is_walk(r),
            forall|k: int| 0 <= k < i ==> #[trigger] is_nested(r, k),
            parents@.len() == i,
            slots@.len() == i,
            children@.len() == n,
            i == 0 ==> open@.len() == 0,
            i > 0 ==> open@.len() == r[i - 1].depth + 1,
            forall|d: int|
                0 <= d < open@.len() ==> 0 <= (#[trigger] open@[d]) < i && r[open@[d] as int].depth
                    == d && forall|q: int|
                    open@[d] < q < i ==> (#[trigger] r[q]).depth > d,
            forall|k: int|
                0 <= k < i ==> #[trigger] parents@[k] == match parent_of(r, k) {
                    Some(p) => Some(p as usize),
                    None => None,
                },
            forall|k: int| 0 <= k < i ==> #[trigger] slots@[k] == slot_of(r, k),
            forall|k: int|
                0 <= k < n ==> ints(#[trigger] children@[k]@) == children_among(
                    r,
                    k,
                    i as int,
                ),
        decreases n - i,
    {
        let d: usize = records[i].depth;
        assert(r[i as int].depth == d);
        let ghost before = children@;
        proof {
            lemma_shallower_before(r, i as int, i as int);
        }
        if d == 0 {
            assert(i == 0);
            parents.push(None);
            slots.push(0);
        } else {
            assert(i > 0);
            let p: usize = open[d - 1];
            proof {
                let found = shallower_before(r, i as int, i as int);
                assert(r[p as int].depth == d - 1);
                assert(found is Some);
                let q = found->0;
                if q < p {
                    assert(r[p as int].depth >= r[i as int].depth);
                }
                if p < q {
                    assert(r[q].depth > d - 1);
                }
            }
            if !nests(&records, p, &children[p], i) {
                assert(!is_nested(r, i as int));
                return None;
            }
            parents.push(Some(p));
            slots.push(children[p].len());
            children[p].push(i);
            open.truncate(d);
        }
        open.push(i);
        assert forall|k: int| 0 <= k < n implies ints(#[trigger] children@[k]@)
            == children_among(r, k, i + 1) by {
            assert(ints(before[k]@) == children_among(r, k, i as int));
            if parent_of(r, i as int) == Some(k) {
                assert(ints(children@[k]@) =~= ints(before[k]@).push(i as int));
            }
        }
        i += 1;
    }
    Some((parents, slots, children))
}

/// Whether the entries tell how many line breaks stand before each byte of the
/// source, and before its end.
spec fn counts_breaks(rows: Seq<usize>, source: Seq<char>) -> bool {
    let bytes = encode_utf8(source);
    &&& rows.len() == bytes.len() + 1
    &&& forall|i: int| 0 <= i < rows.len() ==> #[trigger] rows[i] == breaks(bytes, i as nat)
}

/// How many line breaks stand before each byte of the source, and before its
/// end.
fn break_counts(source: &str) -> (res: Vec<usize>)
    ensures
        counts_breaks(res@, source@),
{
    let bytes: &[u8] = source.as_bytes();
    let n: usize = bytes.len();
    let mut res: Vec<usize> = Vec::new();
    let mut count: usize = 0;
    res.push(0);
    let mut i: usize = 0;
    while i < n
        invariant
            n == bytes@.len(),
            bytes@ == encode_utf8(source@),
            i <= n,
            count == breaks(bytes@, i as nat),
            count <= i,
            res@.len() == i + 1,
            forall|k: int| 0 <= k <= i ==> #[trigger] res@[k] == breaks(bytes@, k as nat),
        decreases n - i,
    {
        if bytes[i] == 0x0a {
            count += 1;
        }
        i += 1;
        res.push(count);
    }
    res
}

/// Whether the byte and row ranges of the node suit the source.
fn fits(source: &String, rows: &Vec<usize>, record: &NodeRecord) -> (res: bool)
    requires
        counts_breaks(rows@, source@),
    ensures
        res == record_fits(source@, record.deep_view()),
{
    let s: &str = source.as_str();
    proof {
        vstd::utf8::encode_utf8_valid_utf8(s@);
        if is_char_boundary(encode_utf8(s@), record.end_byte as int) {
            lemma_boundary_in_range(encode_utf8(s@), record.end_byte as int);
        }
    }
    record.start_byte <= record.end_byte && s.is_char_boundary(record.start_byte)
        && s.is_char_boundary(record.end_byte) && record.start_row == rows[record.start_byte]
        && record.end_row == rows[record.end_byte] && record.end_row < u32::MAX as usize
}

/// Whether node `i` lies within its parent `p` and behind its elder siblings.
fn nests(records: &Vec<NodeRecord>, p: usize, elders: &Vec<usize>, i: usize) -> (res: bool)
    requires
        i < records@.len(),
        parent_of(records.deep_view(), i as int) == Some(p as int),
        ints(elders@) == children_among(records.deep_view(), p as int, i as int),
    ensures
        res == is_nested(records.deep_view(), i as int),
{
    let ghost r = records.deep_view();
    proof {
        lemma_shallower_before(r, i as int, i as int);
        lemma_children_among(r, p as int, 0, i as int);
        assert(r[p as int] == records@[p as int].deep_view());
        assert(r[i as int] == records@[i as int].deep_view());
        if elders@.len() > 0 {
            let last = elders@.len() - 1;
            assert(ints(elders@)[last] == elders@[last]);
            assert(r[elders@[last] as int] == records@[elders@[last] as int].deep_view());
        }
    }
    let start: usize = records[i].start_byte;
    if records[p].start_byte > start || records[i].end_byte > records[p].end_byte {
        return false;
    }
    let count: usize = elders.len();
    count == 0 || records[elders[count - 1]].end_byte <= start
}

/// The further into a text, the more line breaks were passed.
pub proof fn lemma_breaks(bytes: Seq<u8>, a: nat, b: nat)
    requires
        a <= b,
    ensures
        breaks(bytes, a) <= breaks(bytes, b),
    decreases b,
{
    if a < b {
        lemma_breaks(bytes, a, (b - 1) as nat);
    }
}

proof fn lemma_boundary_in_range(bytes: Seq<u8>, index: int)
    requires
        valid_utf8(bytes),
        is_char_boundary(bytes, index),
    ensures
        0 <= index <= bytes.len(),
    decreases bytes.len(),
{
    if index != 0 && !(index < 0 || bytes.len() < index) {
    }
}

/// A node of a [`SyntaxTree`].
#[derive(Clone, Copy)]
pub struct Node<'a> {
    tree: &'a SyntaxTree,
    id: usize,
}

impl<'a> Node<'a> {
    #[verifier::type_invariant]
    spec fn well_formed(self) -> bool {
        self.id < self.tree.nodes().len()
    }

    /// Where the node stands in the walk over its tree.
    pub closed spec fn index(self) -> nat {
        self.id as nat
    }

    /// How many nodes of the tree stand at or behind this one.
    pub closed spec fn rank(self) -> nat {
        if self.id < self.tree.nodes().len() {
            (self.tree.nodes().len() - self.id) as nat
        } else {
            0
        }
    }

    /// What the tree records of the node.
    pub closed spec fn facts(self) -> NodeFacts {
        self.tree.nodes()[self.id as int]
    }

    /// Grammar symbol of the node.
    pub open spec fn tag(self) -> Seq<char> {
        self.facts().kind
    }

    /// Whether the node's grammar symbol is `kind`.
    pub open spec fn isa(self, kind: &str) -> bool {
        self.facts().kind == kind@
    }

    /// Text of the node.
    pub closed spec fn txt(self) -> Seq<char> {
        byte_slice(
            self.tree.text(),
            self.facts().start_byte as int,
            self.facts().end_byte as int,
        )
    }

    /// Line (from 1) on which the node starts.
    pub open spec fn top(self) -> u32 {
        (self.facts().start_row + 1) as u32
    }

    /// Line (from 1) on which the node ends.
    pub open spec fn bottom(self) -> u32 {
        (self.facts().end_row + 1) as u32
    }

    /// Number of children.
    pub closed spec fn arity(self) -> nat {
        if self.id < self.tree.nodes().len() {
            children_of(self.tree.nodes(), self.id as int).len()
        } else {
            0
        }
    }

    /// The child at position `i`.
    pub closed spec fn kid(self, i: int) -> Node<'a> {
        Node { tree: self.tree, id: children_of(self.tree.nodes(), self.id as int)[i] as usize }
    }

    /// The parent.
    pub closed spec fn up(self) -> Option<Node<'a>> {
        match parent_of(self.tree.nodes(), self.id as int) {
            Some(p) if self.id < self.tree.nodes().len() => Some(
                Node { tree: self.tree, id: p as usize },
            ),
            _ => None,
        }
    }

    /// The first child behind position `i` that fills the field `name`.
    pub open spec fn field_from(self, name: Seq<char>, i: int) -> Option<Node<'a>>
        decreases self.arity() - i,
    {
        if i < 0 || i >= self.arity() {
            None
        } else if self.kid(i).facts().field == Some(name) {
            Some(self.kid(i))
        } else {
            self.field_from(name, i + 1)
        }
    }

    /// The first child that fills the field `name`.
    pub open spec fn at(self, name: &str) -> Option<Node<'a>> {
        self.field_from(name@, 0)
    }

    /// How many siblings stand before the node.
    pub closed spec fn slot(self) -> nat {
        slot_of(self.tree.nodes(), self.id as int)
    }

    /// The sibling just before the node.
    pub open spec fn left(self) -> Option<Node<'a>> {
        match self.up() {
            Some(p) => if self.slot() > 0 {
                Some(p.kid(self.slot() - 1))
            } else {
                None
            },
            None => None,
        }
    }

    /// The named child with `n` named children before it, at or behind position `i`.
    pub open spec fn named_from(self, n: nat, i: int) -> Option<Node<'a>>
        decreases self.arity() - i,
    {
        if i < 0 || i >= self.arity() {
            None
        } else if !self.kid(i).facts().named {
            self.named_from(n, i + 1)
        } else if n == 0 {
            Some(self.kid(i))
        } else {
            self.named_from((n - 1) as nat, i + 1)
        }
    }

    /// Grammar symbol of the node.
    pub fn kind(&self) -> (res: &'a str)
        ensures
            res@ == self.tag(),
    {
        proof {
            use_type_invariant(self);
        }
        self.tree.records[self.id].kind.as_str()
    }

    /// Whether the node's grammar symbol is `kind`.
    pub fn is(&self, kind: &str) -> (res: bool)
        ensures
            res == self.isa(kind),
    {
        same(self.kind(), kind)
    }

    /// Where the node stands in the walk over its tree: no other node of the
    /// tree stands there.
    pub fn id(&self) -> (res: usize)
        ensures
            res == self.index(),
    {
        self.id
    }

    /// Whether the node is more than a token that the grammar spells out.
    pub fn is_named(&self) -> (res: bool)
        ensures
            res == self.facts().named,
    {
        proof {
            use_type_invariant(self);
        }
        self.tree.records[self.id].named
    }

    /// Whether the node fills the field `name` of its parent.
    pub fn fills(&self, name: &str) -> (res: bool)
        ensures
            res == (self.facts().field == Some(name@)),
    {
        proof {
            use_type_invariant(self);
        }
        match &self.tree.records[self.id].field {
            Some(f) => same(f.as_str(), name),
            None => false,
        }
    }

    /// Text of the node.
    pub fn text(&self) -> (res: &'a str)
        ensures
            res@ == self.txt(),
    {
        proof {
            use_type_invariant(self);
            use_type_invariant(self.tree);
        }
        let tree: &'a SyntaxTree = self.tree;
        let start: usize = tree.records[self.id].start_byte;
        let end: usize = tree.records[self.id].end_byte;
        let source: &'a str = tree.source.as_str();
        let ghost bytes = encode_utf8(source@);
        assert(record_fits(tree.source@, tree.nodes()[self.id as int]));
        proof {
            vstd::utf8::encode_utf8_valid_utf8(source@);
            lemma_boundary_in_rest(bytes, start as int, end as int);
        }
        let rest: &'a str = source.split_at(start).1;
        let res: &'a str = rest.split_at(end - start).0;
        proof {
            assert(encode_utf8(res@) =~= bytes.subrange(start as int, end as int));
            vstd::utf8::encode_utf8_decode_utf8(res@);
        }
        res
    }

    /// Byte offset of the first byte of the node's text.
    pub fn start_byte(&self) -> (res: usize)
        ensures
            res == self.facts().start_byte,
    {
        proof {
            use_type_invariant(self);
        }
        self.tree.records[self.id].start_byte
    }

    /// Byte offset just behind the node's text.
    pub fn end_byte(&self) -> (res: usize)
        ensures
            res == self.facts().end_byte,
    {
        proof {
            use_type_invariant(self);
        }
        self.tree.records[self.id].end_byte
    }

    /// Line (from 1) on which the node starts.
    pub fn start_line(&self) -> (res: u32)
        ensures
            res == self.top(),
            res == self.facts().start_row + 1,
            self.top() <= self.bottom(),
    {
        proof {
            use_type_invariant(self);
            use_type_invariant(self.tree);
        }
        proof {
            let f = self.tree.nodes()[self.id as int];
            assert(record_fits(self.tree.source@, f));
            lemma_breaks(encode_utf8(self.tree.source@), f.start_byte, f.end_byte);
        }
        self.tree.records[self.id].start_row as u32 + 1
    }

    /// Line (from 1) on which the node ends.
    pub fn end_line(&self) -> (res: u32)
        ensures
            res == self.bottom(),
            res == self.facts().end_row + 1,
            self.top() <= self.bottom(),
    {
        proof {
            use_type_invariant(self);
            use_type_invariant(self.tree);
        }
        proof {
            let f = self.tree.nodes()[self.id as int];
            assert(record_fits(self.tree.source@, f));
            lemma_breaks(encode_utf8(self.tree.source@), f.start_byte, f.end_byte);
        }
        self.tree.records[self.id].end_row as u32 + 1
    }

    /// Number of children.
    pub fn child_count(&self) -> (res: usize)
        ensures
            res == self.arity(),
    {
        proof {
            use_type_invariant(self);
            use_type_invariant(self.tree);
            assert(ints(self.tree.children@[self.id as int]@) == children_of(
                self.tree.nodes(),
                self.id as int,
            ));
        }
        self.tree.children[self.id].len()
    }

    /// The child at position `i`. It starts on a line of its parent.
    pub fn child(&self, i: usize) -> (res: Node<'a>)
        requires
            i < self.arity(),
        ensures
            res == self.kid(i as int),
            self.top() <= res.top() <= self.bottom(),
    {
        proof {
            use_type_invariant(self);
            use_type_invariant(self.tree);
            lemma_kid_lines(*self, i as int);
            lemma_lines(self.kid(i as int));
            let r = self.tree.nodes();
            assert(ints(self.tree.children@[self.id as int]@) == children_of(r, self.id as int));
            lemma_children_among(r, self.id as int, 0, r.len() as int);
            assert(ints(self.tree.children@[self.id as int]@)[i as int]
                == self.tree.children@[self.id as int]@[i as int]);
        }
        Node { tree: self.tree, id: self.tree.children[self.id][i] }
    }

    /// The child at position `i`, if there is one.
    pub open spec fn nth(self, i: int) -> Option<Node<'a>> {
        if 0 <= i < self.arity() {
            Some(self.kid(i))
        } else {
            None
        }
    }

    /// The child at position `i`, if there is one.
    pub fn get_child(&self, i: usize) -> (res: Option<Node<'a>>)
        ensures
            res == self.nth(i as int),
    {
        if i < self.child_count() {
            Some(self.child(i))
        } else {
            None
        }
    }

    /// The parent.
    pub fn parent(&self) -> (res: Option<Node<'a>>)
        ensures
            res == self.up(),
    {
        proof {
            use_type_invariant(self);
            use_type_invariant(self.tree);
            lemma_shallower_before(self.tree.nodes(), self.id as int, self.id as int);
        }
        match self.tree.parents[self.id] {
            Some(p) => Some(Node { tree: self.tree, id: p }),
            None => None,
        }
    }

    /// The first child that fills the field `name`.
    pub fn child_by_field_name(&self, name: &str) -> (res: Option<Node<'a>>)
        ensures
            res == self.at(name),
    {
        let count: usize = self.child_count();
        let mut i: usize = 0;
        while i < count
            invariant
                count == self.arity(),
                i <= count,
                self.at(name) == self.field_from(name@, i as int),
            decreases count - i,
        {
            let c = self.child(i);
            if c.fills(name) {
                return Some(c);
            }
            i += 1;
        }
        None
    }

    /// The sibling just before the node.
    pub fn prev_sibling(&self) -> (res: Option<Node<'a>>)
        ensures
            res == self.left(),
    {
        proof {
            use_type_invariant(self);
            use_type_invariant(self.tree);
        }
        match self.parent() {
            Some(p) => {
                let slot: usize = self.tree.slots[self.id];
                proof {
                    lemma_slot(self.tree.nodes(), self.id as int);
                    lemma_shallower_before(self.tree.nodes(), self.id as int, self.id as int);
                }
                if slot > 0 {
                    Some(p.child(slot - 1))
                } else {
                    None
                }
            },
            None => None,
        }
    }

    /// The named child with `n` named children before it.
    pub fn named_child(&self, n: usize) -> (res: Option<Node<'a>>)
        ensures
            res == self.named_from(n as nat, 0),
    {
        let count: usize = self.child_count();
        let mut i: usize = 0;
        let mut left: usize = n;
        while i < count
            invariant
                count == self.arity(),
                i <= count,
                self.named_from(n as nat, 0) == self.named_from(left as nat, i as int),
            decreases count - i,
        {
            let c = self.child(i);
            if c.is_named() {
                if left == 0 {
                    return Some(c);
                }
                left -= 1;
            }
            i += 1;
        }
        None
    }
}

/// Whether two strings hold the same characters.
pub fn same(a: &str, b: &str) -> (res: bool)
    ensures
        res == (a@ == b@),
{
    let x: &[u8] = a.as_bytes();
    let y: &[u8] = b.as_bytes();
    proof {
        vstd::utf8::encode_utf8_decode_utf8(a@);
        vstd::utf8::encode_utf8_decode_utf8(b@);
    }
    if x.len() != y.len() {
        return false;
    }
    let mut i: usize = 0;
    while i < x.len()
        invariant
            i <= x.len(),
            x.len() == y.len(),
            x@ == encode_utf8(a@),
            y@ == encode_utf8(b@),
            forall|k: int| 0 <= k < i ==> x@[k] == y@[k],
        decreases x.len() - i,
    {
        if x[i] != y[i] {
            assert(x@[i as int] != y@[i as int]);
            return false;
        }
        i += 1;
    }
    assert(x@ =~= y@);
    true
}

proof fn lemma_boundary_in_rest(bytes: Seq<u8>, start: int, end: int)
    requires
        valid_utf8(bytes),
        0 <= start <= end <= bytes.len(),
        is_char_boundary(bytes, start),
        is_char_boundary(bytes, end),
    ensures
        is_char_boundary(bytes.subrange(start, bytes.len() as int), end - start),
{
    let rest = bytes.subrange(start, bytes.len() as int);
    vstd::utf8::valid_utf8_split(bytes, start);
    vstd::utf8::is_char_boundary_start_end_of_seq(rest);
    if end < bytes.len() {
        assert(rest[end - start] == bytes[end]);
        vstd::utf8::is_char_boundary_iff_not_is_continuation_byte(bytes, end);
        vstd::utf8::is_char_boundary_iff_not_is_continuation_byte(rest, end - start);
    }
}

/// A child stands behind its parent in the walk.
pub broadcast proof fn lemma_kid_rank(n: Node<'_>, i: int)
    requires
        0 <= i < n.arity(),
    ensures
        (#[trigger] n.kid(i)).rank() < n.rank(),
{
    let r = n.tree.nodes();
    assert(r.len() == n.tree.records.len());
    lemma_children_among(r, n.id as int, 0, r.len() as int);
}

/// A child that fills a field is a child.
pub proof fn lemma_field_from(n: Node<'_>, name: Seq<char>, i: int)
    ensures
        n.field_from(name, i) matches Some(c) ==> exists|k: int|
            i <= k < n.arity() && 0 <= k && c == #[trigger] n.kid(k),
    decreases n.arity() - i,
{
    if 0 <= i < n.arity() {
        if n.kid(i).facts().field == Some(name) {
        } else {
            lemma_field_from(n, name, i + 1);
        }
    }
}

/// A child that fills a field stands behind its parent in the walk.
pub broadcast proof fn lemma_at_rank(n: Node<'_>, name: &str)
    ensures
        #[trigger] n.at(name) matches Some(c) ==> c.rank() < n.rank(),
{
    broadcast use lemma_kid_rank;

    lemma_field_from(n, name@, 0);
}

/// A named child stands behind its parent in the walk.
pub broadcast proof fn lemma_named_rank(n: Node<'_>, k: nat, i: int)
    ensures
        #[trigger] n.named_from(k, i) matches Some(c) ==> c.rank() < n.rank(),
    decreases n.arity() - i,
{
    broadcast use lemma_kid_rank;

    if 0 <= i < n.arity() {
        lemma_named_rank(n, k, i + 1);
        if k > 0 {
            lemma_named_rank(n, (k - 1) as nat, i + 1);
        }
    }
}

/// A parent stands before its children in the walk.
pub broadcast proof fn lemma_up_index(n: Node<'_>)
    ensures
        #[trigger] n.up() matches Some(p) ==> p.index() < n.index(),
{
    lemma_shallower_before(n.tree.nodes(), n.id as int, n.id as int);
}

/// A sibling before a node stands before it in the walk.
pub broadcast proof fn lemma_left_index(n: Node<'_>)
    ensures
        #[trigger] n.left() matches Some(s) ==> s.index() < n.index(),
{
    let r = n.tree.nodes();
    lemma_shallower_before(r, n.id as int, n.id as int);
    if n.up() is Some && n.slot() > 0 {
        assert(r.len() == n.tree.records.len());
        let p = parent_of(r, n.id as int)->0;
        lemma_children_among(r, p, n.id as int, r.len() as int);
        assert(children_of(r, p)[n.slot() - 1] == children_among(r, p, n.id as int)[n.slot() - 1]);
        lemma_children_among(r, p, 0, n.id as int);
    }
}

proof fn lemma_slot_of_child(r: Seq<NodeFacts>, i: int, m: int, x: int)
    requires
        0 <= x < children_among(r, i, m).len(),
    ensures
        children_among(r, i, children_among(r, i, m)[x]).len() == x,
    decreases m,
{
    if m > 0 && x < children_among(r, i, m - 1).len() {
        lemma_slot_of_child(r, i, m - 1, x);
    }
}

/// A node is the parent of its children, and the siblings before a child are
/// the children before it.
pub proof fn lemma_parent_of_kid(n: Node<'_>, i: int)
    requires
        0 <= i < n.arity(),
    ensures
        n.kid(i).up() == Some(n),
        n.kid(i).slot() == i,
        n.kid(i).left() == if i > 0 {
            Some(n.kid(i - 1))
        } else {
            None
        },
{
    let r = n.tree.nodes();
    assert(r.len() == n.tree.records.len());
    lemma_children_among(r, n.id as int, 0, r.len() as int);
    lemma_slot_of_child(r, n.id as int, r.len() as int, i);
}

/// A node is a child of its parent.
pub proof fn lemma_kid_of_parent(n: Node<'_>)
    ensures
        n.up() matches Some(p) ==> n.slot() < p.arity() && p.kid(n.slot() as int) == n,
{
    let r = n.tree.nodes();
    assert(r.len() == n.tree.records.len());
    if n.up() is Some {
        lemma_shallower_before(r, n.id as int, n.id as int);
        lemma_slot(r, n.id as int);
    }
}

/// Whether a node is `n` or stands below it.
pub open spec fn at_or_below(n: Node<'_>, d: Node<'_>) -> bool
    decreases d.index(),
    via at_or_below_decreases
{
    d == n || (d.up() matches Some(p) && at_or_below(n, p))
}

#[via_fn]
proof fn at_or_below_decreases(n: Node<'_>, d: Node<'_>) {
    lemma_up_index(d);
}

/// What stands below a node that stands below `n` stands below `n` too.
pub proof fn lemma_below_transitive(n: Node<'_>, m: Node<'_>, d: Node<'_>)
    requires
        at_or_below(n, m),
        at_or_below(m, d),
    ensures
        at_or_below(n, d),
    decreases d.index(),
{
    lemma_up_index(d);
    if d != m {
        lemma_below_transitive(n, m, d.up()->0);
    }
}

/// The children of a node stand below it.
pub proof fn lemma_kid_below(n: Node<'_>, i: int)
    requires
        0 <= i < n.arity(),
    ensures
        at_or_below(n, n.kid(i)),
{
    lemma_parent_of_kid(n, i);
    assert(at_or_below(n, n));
}

/// The child that fills a field of a node stands below it.
pub proof fn lemma_at_below(n: Node<'_>, name: &str)
    ensures
        n.at(name) matches Some(c) ==> at_or_below(n, c),
{
    lemma_field_from(n, name@, 0);
    if n.at(name) is Some {
        let k = choose|k: int| 0 <= k < n.arity() && n.at(name)->0 == #[trigger] n.kid(k);
        lemma_kid_below(n, k);
    }
}

/// What stands below a node stands behind it in the walk.
pub proof fn lemma_below_index(n: Node<'_>, d: Node<'_>)
    requires
        at_or_below(n, d),
    ensures
        n.index() <= d.index(),
        d != n ==> n.index() < d.index(),
    decreases d.index(),
{
    lemma_up_index(d);
    if d != n {
        lemma_below_index(n, d.up()->0);
    }
}

/// What stands below a node is one of its children or stands below one.
pub proof fn lemma_under_kid(n: Node<'_>, d: Node<'_>) -> (i: int)
    requires
        at_or_below(n, d),
        d != n,
    ensures
        0 <= i < n.arity(),
        at_or_below(n.kid(i), d),
    decreases d.index(),
{
    lemma_up_index(d);
    lemma_kid_of_parent(d);
    let p = d.up()->0;
    if p == n {
        d.slot() as int
    } else {
        lemma_under_kid(n, p)
    }
}

/// All that stands below a child stands before the next children in the walk.
pub proof fn lemma_kid_order(n: Node<'_>, i: int, j: int, d: Node<'_>)
    requires
        0 <= i < j < n.arity(),
        at_or_below(n.kid(i), d),
    ensures
        d.index() < n.kid(j).index(),
    decreases d.index(),
{
    let r = n.tree.nodes();
    let c = n.kid(i);
    let e = n.kid(j);
    assert(r.len() == n.tree.records.len());
    lemma_children_among(r, n.id as int, 0, r.len() as int);
    lemma_slot_of_child(r, n.id as int, r.len() as int, j);
    lemma_children_among(r, n.id as int, e.id as int, r.len() as int);
    lemma_children_among(r, n.id as int, 0, e.id as int);
    assert(children_of(r, n.id as int)[i] == children_among(r, n.id as int, e.id as int)[i]);
    if d != c {
        lemma_up_index(d);
        let p = d.up()->0;
        lemma_kid_order(n, i, j, p);
        lemma_below_index(c, p);
        lemma_shallower_before(r, d.id as int, d.id as int);
        lemma_shallower_before(r, e.id as int, e.id as int);
        assert(p.tree == n.tree) by {
            lemma_same_tree(c, p);
        }
        if d.id >= e.id {
            assert(r[p.id as int].depth >= r[e.id as int].depth);
            assert(d.id != e.id);
            assert(r[e.id as int].depth >= r[d.id as int].depth);
        }
    }
}

proof fn lemma_same_tree(n: Node<'_>, d: Node<'_>)
    requires
        at_or_below(n, d),
    ensures
        d.tree == n.tree,
    decreases d.index(),
{
    lemma_up_index(d);
    if d != n {
        lemma_same_tree(n, d.up()->0);
    }
}

/// Whether a node belongs to a tree that a walk can give.
pub closed spec fn is_sound(n: Node<'_>) -> bool {
    n.id < n.tree.nodes().len() && is_tree(n.tree.text(), n.tree.nodes())
}

/// How many lines the source of a node has.
pub closed spec fn source_lines(n: Node<'_>) -> nat {
    line_count(n.tree.text())
}

/// The root of a tree belongs to it.
pub proof fn lemma_root_sound(tree: &SyntaxTree)
    requires
        is_tree(tree.text(), tree.nodes()),
    ensures
        is_sound(tree.root()),
        source_lines(tree.root()) == line_count(tree.text()),
{
}

/// A node starts and ends on lines of the source, numbered from 1, and does not
/// end before it starts.
pub proof fn lemma_lines(n: Node<'_>)
    requires
        is_sound(n),
    ensures
        1 <= n.top() <= n.bottom() <= source_lines(n),
{
    let f = n.facts();
    let bytes = encode_utf8(n.tree.text());
    assert(record_fits(n.tree.text(), n.tree.nodes()[n.id as int]));
    lemma_breaks(bytes, f.start_byte, f.end_byte);
    lemma_breaks(bytes, f.end_byte, bytes.len());
}

proof fn lemma_within_parent(n: Node<'_>)
    requires
        is_sound(n),
    ensures
        n.up() matches Some(p) ==> is_sound(p) && source_lines(p) == source_lines(n) && p.top()
            <= n.top() && n.bottom() <= p.bottom(),
{
    let r = n.tree.nodes();
    if n.up() is Some {
        let bytes = encode_utf8(n.tree.text());
        let p = parent_of(r, n.id as int)->0;
        assert(r.len() == n.tree.records.len());
        lemma_shallower_before(r, n.id as int, n.id as int);
        assert(is_nested(r, n.id as int));
        assert(record_fits(n.tree.text(), r[n.id as int]));
        assert(record_fits(n.tree.text(), r[p]));
        lemma_breaks(bytes, r[p].start_byte, r[n.id as int].start_byte);
        lemma_breaks(bytes, r[n.id as int].end_byte, r[p].end_byte);
        lemma_breaks(bytes, r[n.id as int].start_byte, r[n.id as int].end_byte);
    }
}

/// A child lies within its parent, and starts no earlier than the sibling before
/// it ends.
pub proof fn lemma_kid_lines(n: Node<'_>, i: int)
    requires
        is_sound(n),
        0 <= i < n.arity(),
    ensures
        is_sound(n.kid(i)),
        source_lines(n.kid(i)) == source_lines(n),
        n.top() <= n.kid(i).top(),
        n.kid(i).bottom() <= n.bottom(),
        i > 0 ==> n.kid(i - 1).bottom() <= n.kid(i).top(),
{
    let r = n.tree.nodes();
    let bytes = encode_utf8(n.tree.text());
    assert(r.len() == n.tree.records.len());
    lemma_children_among(r, n.id as int, 0, r.len() as int);
    lemma_parent_of_kid(n, i);
    lemma_within_parent(n.kid(i));
    if i > 0 {
        let c = children_of(r, n.id as int)[i];
        let e = children_of(r, n.id as int)[i - 1];
        lemma_slot_of_child(r, n.id as int, r.len() as int, i);
        lemma_children_among(r, n.id as int, c, r.len() as int);
        assert(children_among(r, n.id as int, c).last() == e);
        assert(is_nested(r, c));
        assert(record_fits(n.tree.text(), r[c]));
        assert(record_fits(n.tree.text(), r[e]));
        lemma_breaks(bytes, r[e].end_byte, r[c].start_byte);
        lemma_breaks(bytes, r[c].start_byte, r[c].end_byte);
    }
}

/// A node that stands below another lies within it.
pub proof fn lemma_below_lines(n: Node<'_>, d: Node<'_>)
    requires
        is_sound(n),
        at_or_below(n, d),
    ensures
        is_sound(d),
        source_lines(d) == source_lines(n),
        n.top() <= d.top(),
        d.bottom() <= n.bottom(),
    decreases d.index(),
{
    lemma_up_index(d);
    if d != n {
        let p = d.up()->0;
        lemma_below_lines(n, p);
        lemma_within_parent(d);
    }
}

/// How the parts of a tree are ordered.
pub broadcast group group_tree {
    lemma_kid_rank,
    lemma_at_rank,
    lemma_named_rank,
    lemma_up_index,
    lemma_left_index,
}

} // verus!
