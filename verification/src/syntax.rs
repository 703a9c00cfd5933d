//! The syntax tree the analysis reads: nodes in document order, each with
//! its kind, span, parent and the end of its subtree.

use crate::text::{slice_matches, slice_of, slice_starts_with, str_eq};
use crate::types::{pos_le, Position, Range};
use vstd::prelude::*;

verus! {

/// One node of a syntax tree, stored at its pre-order index.
#[derive(Clone, Debug)]
pub struct SyntaxNode {
    /// The grammar's tag for the node.
    pub kind: String,
    /// The field name under which the parent holds this node, if any.
    pub field: Option<String>,
    pub start_byte: usize,
    pub end_byte: usize,
    pub start: Position,
    pub end: Position,
    /// Index of the parent; `None` for the root.
    pub parent: Option<usize>,
    /// One past the index of the last descendant.
    pub subtree_end: usize,
}

/// An optional index as an optional integer.
pub open spec fn opt(o: Option<usize>) -> Option<int> {
    match o {
        Some(x) => Some(x as int),
        None => None,
    }
}

/// What must hold of the node at index `i`.
pub open spec fn node_ok(nodes: Seq<SyntaxNode>, i: int) -> bool {
    let n = nodes[i];
    &&& i < n.subtree_end <= nodes.len()
    &&& n.start_byte <= n.end_byte
    &&& pos_le(n.start, n.end)
    &&& i == 0 ==> n.parent is None && n.subtree_end == nodes.len()
    &&& i > 0 ==> {
        let prev = nodes[i - 1];
        &&& n.parent is Some
        &&& n.parent.unwrap() < i
        &&& n.subtree_end <= nodes[n.parent.unwrap() as int].subtree_end
        &&& n.end_byte <= nodes[n.parent.unwrap() as int].end_byte
        &&& pos_le(n.end, nodes[n.parent.unwrap() as int].end)
        &&& prev.start_byte <= n.start_byte
        &&& pos_le(prev.start, n.start)
        &&& prev.subtree_end > i ==> n.parent == Some((i - 1) as usize)
        &&& n.subtree_end < nodes[n.parent.unwrap() as int].subtree_end && n.subtree_end
            < nodes.len() ==> nodes[n.subtree_end as int].parent == n.parent
    }
}

/// A node sequence is a tree in document order: the root comes first and
/// spans everything, every other node lies inside its parent, a node's first
/// child follows it directly, its next sibling follows its subtree, and
/// start positions never decrease.
pub open spec fn well_formed(nodes: Seq<SyntaxNode>) -> bool {
    &&& nodes.len() >= 1
    &&& forall|i: int| 0 <= i < nodes.len() ==> #[trigger] node_ok(nodes, i)
}

/// The source text a node covers, where its byte span lies inside `src`.
pub open spec fn node_text(nodes: Seq<SyntaxNode>, src: Seq<u8>, i: int) -> Option<Seq<u8>> {
    slice_of(src, nodes[i].start_byte as int, nodes[i].end_byte as int)
}

/// Whether node `i` has the given kind.
pub open spec fn has_kind(nodes: Seq<SyntaxNode>, i: int, kind: &str) -> bool {
    nodes[i].kind@ == kind@
}

/// Whether node `i` sits under the given field of its parent.
pub open spec fn has_field(nodes: Seq<SyntaxNode>, i: int, field: &str) -> bool {
    nodes[i].field is Some && nodes[i].field.unwrap()@ == field@
}

/// The line/column range of node `i`.
pub open spec fn node_range(nodes: Seq<SyntaxNode>, i: int) -> Range {
    Range { start: nodes[i].start, end: nodes[i].end }
}

/// Whether `c` is a child of `p`.
pub open spec fn is_child(nodes: Seq<SyntaxNode>, p: int, c: int) -> bool {
    0 <= p < c < nodes[p].subtree_end && nodes[c].parent == Some(p as usize)
}

/// The first child of `p` at or after slot `c` that sits under `field`.
pub open spec fn field_child_from(nodes: Seq<SyntaxNode>, p: int, c: int, field: &str) -> Option<
    int,
>
    decreases nodes.len() - c,
{
    if 0 <= p < c < nodes.len() && c < nodes[p].subtree_end && c < nodes[c].subtree_end <= nodes.len() {
        if has_field(nodes, c, field) {
            Some(c)
        } else {
            field_child_from(nodes, p, nodes[c].subtree_end as int, field)
        }
    } else {
        None
    }
}

/// The first child of `p` that sits under `field`.
pub open spec fn field_child(nodes: Seq<SyntaxNode>, p: int, field: &str) -> Option<int> {
    field_child_from(nodes, p, p + 1, field)
}

/// The first child of `p` at or after slot `c` that has the given kind.
pub open spec fn kind_child_from(nodes: Seq<SyntaxNode>, p: int, c: int, kind: &str) -> Option<
    int,
>
    decreases nodes.len() - c,
{
    if 0 <= p < c < nodes.len() && c < nodes[p].subtree_end && c < nodes[c].subtree_end <= nodes.len() {
        if has_kind(nodes, c, kind) {
            Some(c)
        } else {
            kind_child_from(nodes, p, nodes[c].subtree_end as int, kind)
        }
    } else {
        None
    }
}

/// The first child of `p` that has the given kind.
pub open spec fn kind_child(nodes: Seq<SyntaxNode>, p: int, kind: &str) -> Option<int> {
    kind_child_from(nodes, p, p + 1, kind)
}

/// The first child of `p` at or after slot `c` that has the given kind and
/// whose source text is `name`.
pub open spec fn named_child_from(
    nodes: Seq<SyntaxNode>,
    src: Seq<u8>,
    p: int,
    c: int,
    kind: &str,
    name: Seq<u8>,
) -> Option<int>
    decreases nodes.len() - c,
{
    if 0 <= p < c < nodes.len() && c < nodes[p].subtree_end && c < nodes[c].subtree_end
        <= nodes.len() {
        if has_kind(nodes, c, kind) && node_text(nodes, src, c) == Some(name) {
            Some(c)
        } else {
            named_child_from(nodes, src, p, nodes[c].subtree_end as int, kind, name)
        }
    } else {
        None
    }
}

/// The first child of `p` that has the given kind and whose source text is
/// `name`.
pub open spec fn named_child(
    nodes: Seq<SyntaxNode>,
    src: Seq<u8>,
    p: int,
    kind: &str,
    name: Seq<u8>,
) -> Option<int> {
    named_child_from(nodes, src, p, p + 1, kind, name)
}

/// Start positions never decrease along the document order.
pub proof fn lemma_document_order(nodes: Seq<SyntaxNode>, i: int, j: int)
    requires
        well_formed(nodes),
        0 <= i <= j < nodes.len(),
    ensures
        pos_le(nodes[i].start, nodes[j].start),
        nodes[i].start_byte <= nodes[j].start_byte,
    decreases j - i,
{
    if i < j {
        lemma_document_order(nodes, i, j - 1);
        assert(node_ok(nodes, j));
    }
}

/// The nearest node of the given kind on the way from `i` to the root,
/// `i` included.
pub open spec fn nearest_kind(nodes: Seq<SyntaxNode>, i: int, kind: &str) -> Option<int>
    decreases i,
{
    if 0 <= i < nodes.len() {
        if has_kind(nodes, i, kind) {
            Some(i)
        } else {
            match nodes[i].parent {
                Some(p) => if p < i {
                    nearest_kind(nodes, p as int, kind)
                } else {
                    None
                },
                None => None,
            }
        }
    } else {
        None
    }
}

/// The nearest index at or before `j` whose depth is below `d`; `-1` where
/// there is none.
pub open spec fn shallower_before(depths: Seq<usize>, d: usize, j: int) -> int
    decreases j + 1,
{
    if j < 0 {
        -1
    } else if j < depths.len() && depths[j] < d {
        j
    } else {
        shallower_before(depths, d, j - 1)
    }
}

/// The nearest index at or after `j` whose depth is at most `d`; the
/// number of depths where there is none.
pub open spec fn not_deeper_after(depths: Seq<usize>, d: usize, j: int) -> int
    decreases depths.len() - j,
{
    if j >= depths.len() {
        depths.len() as int
    } else if j >= 0 && depths[j] <= d {
        j
    } else {
        not_deeper_after(depths, d, j + 1)
    }
}

/// The parent that the depths give node `i`: the nearest node before it
/// that lies less deep; `-1` where there is none.
pub open spec fn parent_by_depth(depths: Seq<usize>, i: int) -> int {
    shallower_before(depths, depths[i], i - 1)
}

/// The subtree end that the depths give node `i`: the nearest node after
/// it that lies no deeper, or the end of the sequence.
pub open spec fn end_by_depth(depths: Seq<usize>, i: int) -> int {
    not_deeper_after(depths, depths[i], i + 1)
}

/// Node `i` with the parent and subtree end that the depths give it.
pub open spec fn placed(nodes: Seq<SyntaxNode>, depths: Seq<usize>, i: int) -> SyntaxNode {
    SyntaxNode {
        kind: nodes[i].kind,
        field: nodes[i].field,
        start_byte: nodes[i].start_byte,
        end_byte: nodes[i].end_byte,
        start: nodes[i].start,
        end: nodes[i].end,
        parent: if parent_by_depth(depths, i) < 0 {
            None
        } else {
            Some(parent_by_depth(depths, i) as usize)
        },
        subtree_end: end_by_depth(depths, i) as usize,
    }
}

/// The nodes, each with the parent and subtree end that the depths give
/// it.
pub open spec fn placed_all(nodes: Seq<SyntaxNode>, depths: Seq<usize>) -> Seq<SyntaxNode> {
    Seq::new(nodes.len(), |i: int| placed(nodes, depths, i))
}

/// What `shallower_before` finds lies less deep than `d`, and nothing
/// between it and `j` does.
pub proof fn lemma_shallower_before(depths: Seq<usize>, d: usize, j: int)
    requires
        -1 <= j < depths.len(),
    ensures
        -1 <= shallower_before(depths, d, j) <= j,
        shallower_before(depths, d, j) >= 0 ==> depths[shallower_before(depths, d, j)] < d,
        forall|k: int| shallower_before(depths, d, j) < k <= j ==> #[trigger] depths[k] >= d,
    decreases j + 1,
{
    if j >= 0 && !(depths[j] < d) {
        lemma_shallower_before(depths, d, j - 1);
    }
}

/// Where nothing in `(lo, hi]` lies less deep than `d`, the search from
/// `hi` finds what the search from `lo` finds.
pub proof fn lemma_skip_before(depths: Seq<usize>, d: usize, lo: int, hi: int)
    requires
        -1 <= lo <= hi < depths.len(),
        forall|k: int| lo < k <= hi ==> #[trigger] depths[k] >= d,
    ensures
        shallower_before(depths, d, hi) == shallower_before(depths, d, lo),
    decreases hi - lo,
{
    if lo < hi {
        lemma_skip_before(depths, d, lo, hi - 1);
    }
}

/// What `not_deeper_after` finds lies no deeper than `d`, and everything
/// between `j` and it lies deeper.
pub proof fn lemma_not_deeper_after(depths: Seq<usize>, d: usize, j: int)
    requires
        0 <= j <= depths.len(),
    ensures
        j <= not_deeper_after(depths, d, j) <= depths.len(),
        not_deeper_after(depths, d, j) < depths.len() ==> depths[not_deeper_after(depths, d, j)]
            <= d,
        forall|k: int| j <= k < not_deeper_after(depths, d, j) ==> #[trigger] depths[k] > d,
    decreases depths.len() - j,
{
    if j < depths.len() && !(depths[j] <= d) {
        lemma_not_deeper_after(depths, d, j + 1);
    }
}

/// Where everything in `[lo, hi)` lies deeper than `d`, the search from
/// `lo` finds what the search from `hi` finds.
pub proof fn lemma_skip_after(depths: Seq<usize>, d: usize, lo: int, hi: int)
    requires
        0 <= lo <= hi <= depths.len(),
        forall|k: int| lo <= k < hi ==> #[trigger] depths[k] > d,
    ensures
        not_deeper_after(depths, d, lo) == not_deeper_after(depths, d, hi),
    decreases hi - lo,
{
    if lo < hi {
        lemma_skip_after(depths, d, lo + 1, hi);
    }
}

/// Whether `node` is `part` but for its parent and subtree end.
pub open spec fn same_part(node: SyntaxNode, part: SyntaxNode) -> bool {
    &&& node.kind == part.kind
    &&& node.field == part.field
    &&& node.start_byte == part.start_byte
    &&& node.end_byte == part.end_byte
    &&& node.start == part.start
    &&& node.end == part.end
}

/// An optional index as an integer, `-1` for none.
pub open spec fn index_or_none(o: Option<usize>) -> int {
    match o {
        Some(x) => x as int,
        None => -1,
    }
}

/// The parent that the depths give node `i`, found along the parents of
/// the nodes before it.
fn find_parent_by_depth(nodes: &Vec<SyntaxNode>, depths: &Vec<usize>, i: usize) -> (r: Option<usize>)
    requires
        i < nodes@.len() == depths@.len(),
        forall|k: int|
            0 <= k < i ==> index_or_none(#[trigger] nodes@[k].parent) == parent_by_depth(
                depths@,
                k,
            ),
    ensures
        index_or_none(r) == parent_by_depth(depths@, i as int),
{
    let d = depths[i];
    let mut c: Option<usize> = if i > 0 {
        Some(i - 1)
    } else {
        None
    };
    while c.is_some() && depths[c.unwrap()] >= d
        invariant
            i < nodes@.len() == depths@.len(),
            d == depths@[i as int],
            -1 <= index_or_none(c) < i,
            forall|k: int|
                0 <= k < i ==> index_or_none(#[trigger] nodes@[k].parent) == parent_by_depth(
                    depths@,
                    k,
                ),
            parent_by_depth(depths@, i as int) == shallower_before(depths@, d, index_or_none(c)),
        decreases index_or_none(c) + 1,
    {
        let x = c.unwrap();
        let next = nodes[x].parent;
        proof {
            let r = parent_by_depth(depths@, x as int);
            lemma_shallower_before(depths@, depths@[x as int], x - 1);
            lemma_skip_before(depths@, d, r, x as int);
        }
        c = next;
    }
    c
}

/// The subtree end that the depths give node `i`, found along the subtree
/// ends of the nodes after it.
fn find_end_by_depth(nodes: &Vec<SyntaxNode>, depths: &Vec<usize>, i: usize) -> (r: usize)
    requires
        i < nodes@.len() == depths@.len(),
        forall|k: int|
            i < k < nodes@.len() ==> (#[trigger] nodes@[k].subtree_end) == end_by_depth(depths@, k),
    ensures
        r == end_by_depth(depths@, i as int),
        i < r <= nodes@.len(),
{
    let n = nodes.len();
    let d = depths[i];
    let mut c: usize = i + 1;
    while c < n && depths[c] > d
        invariant
            n == nodes@.len() == depths@.len(),
            d == depths@[i as int],
            i < c <= n,
            forall|k: int|
                i < k < n ==> (#[trigger] nodes@[k].subtree_end) == end_by_depth(depths@, k),
            end_by_depth(depths@, i as int) == not_deeper_after(depths@, d, c as int),
        decreases n - c,
    {
        let next = nodes[c].subtree_end;
        proof {
            lemma_not_deeper_after(depths@, depths@[c as int], c + 1);
            lemma_skip_after(depths@, d, c as int, next as int);
        }
        c = next;
    }
    proof {
        lemma_not_deeper_after(depths@, d, c as int);
    }
    c
}

/// A parsed file: a well-formed sequence of nodes.
pub struct SyntaxTree {
    nodes: Vec<SyntaxNode>,
}

impl View for SyntaxTree {
    type V = Seq<SyntaxNode>;

    closed spec fn view(&self) -> Seq<SyntaxNode> {
        self.nodes@
    }
}

/// Whether two optional indices are equal.
pub fn same_index(a: Option<usize>, b: Option<usize>) -> (r: bool)
    ensures
        r == (a == b),
{
    match (a, b) {
        (Some(x), Some(y)) => x == y,
        (None, None) => true,
        _ => false,
    }
}

fn check_node(nodes: &Vec<SyntaxNode>, i: usize) -> (r: bool)
    requires
        i < nodes.len(),
    ensures
        r == node_ok(nodes@, i as int),
{
    let n = &nodes[i];
    if !(i < n.subtree_end && n.subtree_end <= nodes.len()) {
        return false;
    }
    if n.start_byte > n.end_byte || !n.start.at_or_before(&n.end) {
        return false;
    }
    if i == 0 {
        return n.parent.is_none() && n.subtree_end == nodes.len();
    }
    let prev = &nodes[i - 1];
    match n.parent {
        None => false,
        Some(p) => {
            if p >= i {
                return false;
            }
            let parent = &nodes[p];
            if n.subtree_end > parent.subtree_end || n.end_byte > parent.end_byte
                || !n.end.at_or_before(&parent.end) {
                return false;
            }
            if prev.start_byte > n.start_byte || !prev.start.at_or_before(&n.start) {
                return false;
            }
            if prev.subtree_end > i && p != i - 1 {
                return false;
            }
            if n.subtree_end < parent.subtree_end && n.subtree_end < nodes.len() {
                return same_index(nodes[n.subtree_end].parent, n.parent);
            }
            true
        },
    }
}

impl SyntaxTree {
    #[verifier::type_invariant]
    spec fn inv(&self) -> bool {
        well_formed(self.nodes@)
    }

    /// Builds a tree from nodes in document order, or refuses them where
    /// they do not form one.
    pub fn new(nodes: Vec<SyntaxNode>) -> (r: Option<SyntaxTree>)
        ensures
            r is Some <==> well_formed(nodes@),
            r is Some ==> r.unwrap()@ == nodes@,
    {
        if nodes.len() == 0 {
            return None;
        }
        let mut i: usize = 0;
        while i < nodes.len()
            invariant
                i <= nodes.len(),
                forall|k: int| 0 <= k < i ==> #[trigger] node_ok(nodes@, k),
            decreases nodes.len() - i,
        {
            if !check_node(&nodes, i) {
                return None;
            }
            i += 1;
        }
        Some(SyntaxTree { nodes })
    }

    /// Builds a tree from nodes in document order and the depth of each:
    /// a node's parent is the nearest node before it that lies less deep,
    /// and its subtree ends at the nearest node after it that lies no
    /// deeper. The parents and subtree ends that the nodes come with are
    /// not read. Refuses the nodes where the depths are not as many, or
    /// where the nodes so placed do not form a tree.
    pub fn from_depths(nodes: Vec<SyntaxNode>, depths: &Vec<usize>) -> (r: Option<SyntaxTree>)
        ensures
            r is Some <==> nodes@.len() == depths@.len() && well_formed(
                placed_all(nodes@, depths@),
            ),
            r is Some ==> r.unwrap()@ == placed_all(nodes@, depths@),
    {
        if nodes.len() != depths.len() {
            return None;
        }
        let ghost parts = nodes@;
        let mut nodes = nodes;
        let n = nodes.len();
        let mut i: usize = 0;
        while i < n
            invariant
                i <= n,
                n == nodes@.len() == depths@.len() == parts.len(),
                forall|k: int| 0 <= k < n ==> same_part(#[trigger] nodes@[k], parts[k]),
                forall|k: int|
                    0 <= k < i ==> index_or_none(#[trigger] nodes@[k].parent) == parent_by_depth(
                        depths@,
                        k,
                    ),
            decreases n - i,
        {
            let parent = find_parent_by_depth(&nodes, depths, i);
            nodes[i].parent = parent;
            i += 1;
        }
        let mut j: usize = n;
        while j > 0
            invariant
                j <= n,
                n == nodes@.len() == depths@.len() == parts.len(),
                forall|k: int| 0 <= k < n ==> same_part(#[trigger] nodes@[k], parts[k]),
                forall|k: int|
                    0 <= k < n ==> index_or_none(#[trigger] nodes@[k].parent) == parent_by_depth(
                        depths@,
                        k,
                    ),
                forall|k: int|
                    j <= k < n ==> (#[trigger] nodes@[k].subtree_end) == end_by_depth(depths@, k),
            decreases j,
        {
            j -= 1;
            let end = find_end_by_depth(&nodes, depths, j);
            nodes[j].subtree_end = end;
        }
        proof {
            assert forall|k: int| 0 <= k < n implies nodes@[k] == placed(parts, depths@, k) by {
                assert(same_part(nodes@[k], parts[k]));
                assert(index_or_none(nodes@[k].parent) == parent_by_depth(depths@, k));
                assert(nodes@[k].subtree_end == end_by_depth(depths@, k));
            }
            assert(nodes@ =~= placed_all(parts, depths@));
        }
        SyntaxTree::new(nodes)
    }

    /// The number of nodes; a tree has at least its root.
    pub fn len(&self) -> (n: usize)
        ensures
            n == self@.len(),
            well_formed(self@),
    {
        proof {
            use_type_invariant(self);
        }
        self.nodes.len()
    }

    /// The node stored at index `i`.
    pub fn node(&self, i: usize) -> (n: &SyntaxNode)
        requires
            i < self@.len(),
        ensures
            *n == self@[i as int],
    {
        &self.nodes[i]
    }

    /// Whether node `i` has the given kind.
    pub fn kind_is(&self, i: usize, kind: &str) -> (r: bool)
        requires
            i < self@.len(),
        ensures
            r == has_kind(self@, i as int, kind),
    {
        str_eq(self.nodes[i].kind.as_str(), kind)
    }

    /// Whether node `i` sits under the given field of its parent.
    pub fn field_is(&self, i: usize, field: &str) -> (r: bool)
        requires
            i < self@.len(),
        ensures
            r == has_field(self@, i as int, field),
    {
        match &self.nodes[i].field {
            Some(f) => str_eq(f.as_str(), field),
            None => false,
        }
    }

    /// The parent of node `i`.
    pub fn parent(&self, i: usize) -> (r: Option<usize>)
        requires
            i < self@.len(),
        ensures
            r == self@[i as int].parent,
            r is Some ==> r.unwrap() < i,
            r is None <==> i == 0,
    {
        proof {
            use_type_invariant(self);
            assert(node_ok(self@, i as int));
        }
        self.nodes[i].parent
    }

    /// One past the last descendant of node `i`.
    pub fn subtree_end(&self, i: usize) -> (r: usize)
        requires
            i < self@.len(),
        ensures
            r == self@[i as int].subtree_end,
            i < r <= self@.len(),
    {
        proof {
            use_type_invariant(self);
            assert(node_ok(self@, i as int));
        }
        self.nodes[i].subtree_end
    }

    /// The line/column range of node `i`.
    pub fn range(&self, i: usize) -> (r: Range)
        requires
            i < self@.len(),
        ensures
            r == node_range(self@, i as int),
    {
        Range { start: self.nodes[i].start, end: self.nodes[i].end }
    }

    /// The source text of node `i`, where its byte span lies inside `src`.
    pub fn text_of<'a>(&self, src: &'a [u8], i: usize) -> (r: Option<&'a [u8]>)
        requires
            i < self@.len(),
        ensures
            match r {
                Some(t) => node_text(self@, src@, i as int) == Some(t@),
                None => node_text(self@, src@, i as int) is None,
            },
    {
        let start = self.nodes[i].start_byte;
        let end = self.nodes[i].end_byte;
        if start <= end && end <= src.len() {
            Some(vstd::slice::slice_subrange(src, start, end))
        } else {
            None
        }
    }

    /// Whether the source text of node `i` exists and equals `pat`.
    pub fn text_is(&self, src: &[u8], i: usize, pat: &[u8]) -> (r: bool)
        requires
            i < self@.len(),
        ensures
            r == (node_text(self@, src@, i as int) == Some(pat@)),
    {
        slice_matches(src, self.nodes[i].start_byte, self.nodes[i].end_byte, pat)
    }

    /// Whether the source text of node `i` exists and begins with `pat`.
    pub fn text_starts_with(&self, src: &[u8], i: usize, pat: &[u8]) -> (r: bool)
        requires
            i < self@.len(),
        ensures
            r == (node_text(self@, src@, i as int) is Some && pat@.is_prefix_of(
                node_text(self@, src@, i as int).unwrap(),
            )),
    {
        slice_starts_with(src, self.nodes[i].start_byte, self.nodes[i].end_byte, pat)
    }

    /// The slot of the first child of `p`: a child where it lies before the
    /// end of `p`'s subtree.
    pub(crate) fn first_child_slot(&self, p: usize) -> (c: usize)
        requires
            p < self@.len(),
        ensures
            c == p + 1,
            c <= self@[p as int].subtree_end <= self@.len(),
            c < self@[p as int].subtree_end ==> is_child(self@, p as int, c as int),
    {
        proof {
            use_type_invariant(self);
            assert(node_ok(self@, p as int));
            if p + 1 < self@[p as int].subtree_end {
                assert(node_ok(self@, p + 1));
            }
        }
        p + 1
    }

    /// The slot after child `c` of `p`: the next child where it lies before
    /// the end of `p`'s subtree.
    pub(crate) fn next_child_slot(&self, p: usize, c: usize) -> (next: usize)
        requires
            p < self@.len(),
            is_child(self@, p as int, c as int),
        ensures
            next == self@[c as int].subtree_end,
            c < next <= self@[p as int].subtree_end <= self@.len(),
            next < self@[p as int].subtree_end ==> is_child(self@, p as int, next as int),
    {
        proof {
            use_type_invariant(self);
            assert(node_ok(self@, p as int));
            assert(node_ok(self@, c as int));
        }
        self.nodes[c].subtree_end
    }

    /// The first child of `p` under the given field.
    pub fn child_by_field_name(&self, p: usize, field: &str) -> (r: Option<usize>)
        requires
            p < self@.len(),
        ensures
            match r {
                Some(c) => field_child(self@, p as int, field) == Some(c as int),
                None => field_child(self@, p as int, field) is None,
            },
            r is Some ==> is_child(self@, p as int, r.unwrap() as int),
    {
        proof {
            use_type_invariant(self);
        }
        let end = self.subtree_end(p);
        let mut c: usize = self.first_child_slot(p);
        while c < end
            invariant
                p < c <= end,
                end == self@[p as int].subtree_end,
                end <= self@.len(),
                well_formed(self@),
                c < end ==> is_child(self@, p as int, c as int),
                field_child(self@, p as int, field) == field_child_from(
                    self@,
                    p as int,
                    c as int,
                    field,
                ),
            decreases end - c,
        {
            assert(node_ok(self@, c as int));
            if self.field_is(c, field) {
                return Some(c);
            }
            c = self.next_child_slot(p, c);
        }
        None
    }

    /// The first child of `p` of the given kind.
    pub fn child_by_kind(&self, p: usize, kind: &str) -> (r: Option<usize>)
        requires
            p < self@.len(),
        ensures
            match r {
                Some(c) => kind_child(self@, p as int, kind) == Some(c as int),
                None => kind_child(self@, p as int, kind) is None,
            },
            r is Some ==> is_child(self@, p as int, r.unwrap() as int),
    {
        proof {
            use_type_invariant(self);
        }
        let end = self.subtree_end(p);
        let mut c: usize = self.first_child_slot(p);
        while c < end
            invariant
                p < c <= end,
                end == self@[p as int].subtree_end,
                end <= self@.len(),
                well_formed(self@),
                c < end ==> is_child(self@, p as int, c as int),
                kind_child(self@, p as int, kind) == kind_child_from(
                    self@,
                    p as int,
                    c as int,
                    kind,
                ),
            decreases end - c,
        {
            assert(node_ok(self@, c as int));
            if self.kind_is(c, kind) {
                return Some(c);
            }
            c = self.next_child_slot(p, c);
        }
        None
    }

    /// The first child of `p` of the given kind whose source text is `name`.
    pub fn child_by_kind_and_text(&self, src: &[u8], p: usize, kind: &str, name: &[u8]) -> (r:
        Option<usize>)
        requires
            p < self@.len(),
        ensures
            match r {
                Some(c) => named_child(self@, src@, p as int, kind, name@) == Some(c as int),
                None => named_child(self@, src@, p as int, kind, name@) is None,
            },
            r is Some ==> is_child(self@, p as int, r.unwrap() as int),
    {
        proof {
            use_type_invariant(self);
        }
        let end = self.subtree_end(p);
        let mut c: usize = self.first_child_slot(p);
        while c < end
            invariant
                p < c <= end,
                end == self@[p as int].subtree_end,
                end <= self@.len(),
                well_formed(self@),
                c < end ==> is_child(self@, p as int, c as int),
                named_child(self@, src@, p as int, kind, name@) == named_child_from(
                    self@,
                    src@,
                    p as int,
                    c as int,
                    kind,
                    name@,
                ),
            decreases end - c,
        {
            assert(node_ok(self@, c as int));
            if self.kind_is(c, kind) && self.text_is(src, c, name) {
                return Some(c);
            }
            c = self.next_child_slot(p, c);
        }
        None
    }

    /// The nearest node of the given kind on the way from `i` to the root,
    /// `i` included.
    pub fn nearest_of_kind(&self, i: usize, kind: &str) -> (r: Option<usize>)
        requires
            i < self@.len(),
        ensures
            opt(r) == nearest_kind(self@, i as int, kind),
            r is Some ==> r.unwrap() <= i && has_kind(self@, r.unwrap() as int, kind),
    {
        let mut k: usize = i;
        loop
            invariant
                k <= i < self@.len(),
                nearest_kind(self@, i as int, kind) == nearest_kind(self@, k as int, kind),
            decreases k,
        {
            if self.kind_is(k, kind) {
                return Some(k);
            }
            match self.parent(k) {
                Some(p) => {
                    k = p;
                },
                None => {
                    return None;
                },
            }
        }
    }
}

} // verus!
