//! Counting the entities of a file.

use crate::graph::{graph_binding_list, graph_binding_list_of};
use crate::syntax::{has_kind, is_child, well_formed, SyntaxNode, SyntaxTree};
use crate::types::{EntityCount, IndexingStatusParams};
use vstd::prelude::*;

verus! {

/// The number of children of `p` at or after slot `c` that are identifiers.
pub open spec fn identifier_children_from(nodes: Seq<SyntaxNode>, p: int, c: int) -> nat
    decreases nodes.len() - c,
{
    if 0 <= p < c < nodes.len() && c < nodes[p].subtree_end && c < nodes[c].subtree_end
        <= nodes.len() {
        (if has_kind(nodes, c, "identifier") {
            1nat
        } else {
            0nat
        }) + identifier_children_from(nodes, p, nodes[c].subtree_end as int)
    } else {
        0
    }
}

/// The variables that node `i` declares: for a `var` spec its identifier
/// children, for a short declaration the identifier children of its left
/// list. What stands on the right of a declaration is not counted.
pub open spec fn variables_at(nodes: Seq<SyntaxNode>, i: int) -> nat {
    match graph_binding_list(nodes, i) {
        Some(l) => identifier_children_from(nodes, l, l + 1),
        None => 0,
    }
}

/// The variables counted among the first `k` nodes.
pub open spec fn variables_upto(nodes: Seq<SyntaxNode>, k: int) -> nat
    decreases k,
{
    if k <= 0 {
        0
    } else {
        variables_upto(nodes, k - 1) + variables_at(nodes, k - 1)
    }
}

/// The number of nodes of the given kind among the first `k`.
pub open spec fn kind_count(nodes: Seq<SyntaxNode>, kind: &str, k: int) -> nat
    decreases k,
{
    if k <= 0 {
        0
    } else {
        kind_count(nodes, kind, k - 1) + if has_kind(nodes, k - 1, kind) {
            1nat
        } else {
            0nat
        }
    }
}

/// A count held in a `usize`: the number itself, or the largest `usize`
/// where it does not fit.
pub open spec fn capped(n: nat) -> usize {
    if n <= usize::MAX {
        n as usize
    } else {
        usize::MAX
    }
}

fn add_capped(a: usize, b: usize) -> (r: usize)
    ensures
        r == capped((a + b) as nat),
{
    if a > usize::MAX - b {
        usize::MAX
    } else {
        a + b
    }
}

fn count_identifier_children(tree: &SyntaxTree, p: usize) -> (r: usize)
    requires
        p < tree@.len(),
    ensures
        r == capped(identifier_children_from(tree@, p as int, p + 1)),
{
    let _ = tree.len();
    let end = tree.subtree_end(p);
    let mut c: usize = tree.first_child_slot(p);
    let mut count: usize = 0;
    let ghost mut seen: nat = 0;
    while c < end
        invariant
            p < c <= end <= tree@.len(),
            end == tree@[p as int].subtree_end,
            well_formed(tree@),
            c < end ==> is_child(tree@, p as int, c as int),
            count == capped(seen),
            identifier_children_from(tree@, p as int, p + 1) == seen + identifier_children_from(
                tree@,
                p as int,
                c as int,
            ),
        decreases end - c,
    {
        if tree.kind_is(c, "identifier") {
            count = add_capped(count, 1);
            proof {
                seen = seen + 1;
            }
        }
        c = tree.next_child_slot(p, c);
    }
    count
}

/// Counts the variables, functions, channels and goroutines of a file:
/// the names that `var` specs and short declarations declare, the
/// function declarations, the channel types and the `go` statements. A
/// count that does not fit a `usize` is reported as the largest `usize`.
pub fn count_entities(tree: &SyntaxTree, code: &str) -> (counts: EntityCount)
    ensures
        counts.variables == capped(variables_upto(tree@, tree@.len() as int)),
        counts.functions == kind_count(tree@, "function_declaration", tree@.len() as int),
        counts.channels == kind_count(tree@, "channel_type", tree@.len() as int),
        counts.goroutines == kind_count(tree@, "go_statement", tree@.len() as int),
{
    let n = tree.len();
    let mut counts = EntityCount { variables: 0, functions: 0, channels: 0, goroutines: 0 };
    let mut i: usize = 0;
    while i < n
        invariant
            i <= n,
            n == tree@.len(),
            counts.variables == capped(variables_upto(tree@, i as int)),
            counts.functions == kind_count(tree@, "function_declaration", i as int),
            counts.channels == kind_count(tree@, "channel_type", i as int),
            counts.goroutines == kind_count(tree@, "go_statement", i as int),
            counts.functions <= i,
            counts.channels <= i,
            counts.goroutines <= i,
        decreases n - i,
    {
        match graph_binding_list_of(tree, i) {
            Some(l) => {
                let names = count_identifier_children(tree, l);
                counts.variables = add_capped(counts.variables, names);
            },
            None => {},
        }
        if tree.kind_is(i, "function_declaration") {
            counts.functions = counts.functions + 1;
        }
        if tree.kind_is(i, "go_statement") {
            counts.goroutines = counts.goroutines + 1;
        }
        if tree.kind_is(i, "channel_type") {
            counts.channels = counts.channels + 1;
        }
        i += 1;
    }
    counts
}

/// The indexing status that reports the given counts.
pub fn indexing_status(counts: &EntityCount) -> (params: IndexingStatusParams)
    ensures
        params.variables == counts.variables,
        params.functions == counts.functions,
        params.channels == counts.channels,
        params.goroutines == counts.goroutines,
{
    IndexingStatusParams {
        variables: counts.variables,
        functions: counts.functions,
        channels: counts.channels,
        goroutines: counts.goroutines,
    }
}

} // verus!
