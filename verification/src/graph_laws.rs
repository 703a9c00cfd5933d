//! What the entity graph holds, counted against the syntax tree.

use crate::entities::kind_count;
use crate::graph::{
    binding_nodes_from, edges_at, fixed_id, graph_binding_list, graph_edges, graph_nodes, id_of,
    is_graph_decl, is_named_identifier, label_of, linked_decl, named_by, nodes_at, use_node,
    variable_node, EdgeView, NodeView,
};
use crate::syntax::{has_kind, node_range, SyntaxNode};
use crate::types::{GraphEdgeType, GraphEntityType};
use vstd::prelude::*;

verus! {

/// Whether a graph node is of the given sort, and a use or not as asked.
pub open spec fn node_is(v: NodeView, sort: GraphEntityType, used: bool) -> bool {
    v.entity_type == sort && (v.extra is Some) == used
}

/// The number of graph nodes of the given sort that are uses, or that are
/// none, as asked.
pub open spec fn count_nodes(s: Seq<NodeView>, sort: GraphEntityType, used: bool) -> nat
    decreases s.len(),
{
    if s.len() == 0 {
        0
    } else {
        count_nodes(s.drop_last(), sort, used) + if node_is(s.last(), sort, used) {
            1nat
        } else {
            0nat
        }
    }
}

/// The number of graph edges of the given sort.
pub open spec fn count_edges(s: Seq<EdgeView>, sort: GraphEdgeType) -> nat
    decreases s.len(),
{
    if s.len() == 0 {
        0
    } else {
        count_edges(s.drop_last(), sort) + if s.last().edge_type == sort {
            1nat
        } else {
            0nat
        }
    }
}

/// The number of identifiers with a valid text among the children of `l`
/// at or after slot `c`.
pub open spec fn named_children_from(nodes: Seq<SyntaxNode>, src: Seq<u8>, l: int, c: int) -> nat
    decreases nodes.len() - c,
{
    if 0 <= l < c < nodes.len() && c < nodes[l].subtree_end && c < nodes[c].subtree_end
        <= nodes.len() {
        (if is_named_identifier(nodes, src, c) {
            1nat
        } else {
            0nat
        }) + named_children_from(nodes, src, l, nodes[c].subtree_end as int)
    } else {
        0
    }
}

/// The number of names that node `i` binds as a declaration.
pub open spec fn names_bound_at(nodes: Seq<SyntaxNode>, src: Seq<u8>, i: int) -> nat {
    if is_graph_decl(nodes, i) {
        match graph_binding_list(nodes, i) {
            Some(l) => named_children_from(nodes, src, l, l + 1),
            None => 0,
        }
    } else {
        0
    }
}

/// The number of names that the declarations among the first `k` nodes
/// bind.
pub open spec fn names_bound(nodes: Seq<SyntaxNode>, src: Seq<u8>, k: int) -> nat
    decreases k,
{
    if k <= 0 {
        0
    } else {
        names_bound(nodes, src, k - 1) + names_bound_at(nodes, src, k - 1)
    }
}

/// The number of function declarations with a named, valid name among the
/// first `k` nodes.
pub open spec fn named_functions(nodes: Seq<SyntaxNode>, src: Seq<u8>, k: int) -> nat
    decreases k,
{
    if k <= 0 {
        0
    } else {
        named_functions(nodes, src, k - 1) + if has_kind(nodes, k - 1, "function_declaration")
            && named_by(nodes, src, k - 1, "name") is Some {
            1nat
        } else {
            0nat
        }
    }
}

/// The number of identifiers among the first `k` nodes that the graph
/// links to a declaration.
pub open spec fn linked_uses(nodes: Seq<SyntaxNode>, src: Seq<u8>, k: int) -> nat
    decreases k,
{
    if k <= 0 {
        0
    } else {
        linked_uses(nodes, src, k - 1) + if linked_decl(nodes, src, k - 1) is Some {
            1nat
        } else {
            0nat
        }
    }
}

/// The kinds that the graph tells apart are different words.
pub proof fn lemma_kinds_differ()
    ensures
        "var_spec"@ != "function_declaration"@,
        "var_spec"@ != "go_statement"@,
        "var_spec"@ != "channel_type"@,
        "var_spec"@ != "identifier"@,
        "short_var_declaration"@ != "function_declaration"@,
        "short_var_declaration"@ != "go_statement"@,
        "short_var_declaration"@ != "channel_type"@,
        "short_var_declaration"@ != "identifier"@,
        "function_declaration"@ != "go_statement"@,
        "function_declaration"@ != "channel_type"@,
        "function_declaration"@ != "identifier"@,
        "go_statement"@ != "channel_type"@,
        "go_statement"@ != "identifier"@,
        "channel_type"@ != "identifier"@,
{
    reveal_strlit("var_spec");
    reveal_strlit("short_var_declaration");
    reveal_strlit("function_declaration");
    reveal_strlit("go_statement");
    reveal_strlit("channel_type");
    reveal_strlit("identifier");
    assert("var_spec"@.len() == 8);
    assert("short_var_declaration"@.len() == 21);
    assert("function_declaration"@.len() == 20);
    assert("go_statement"@[0] != "channel_type"@[0]);
}

/// Counting graph nodes goes through concatenation.
pub proof fn lemma_count_nodes_add(
    a: Seq<NodeView>,
    b: Seq<NodeView>,
    sort: GraphEntityType,
    used: bool,
)
    ensures
        count_nodes(a + b, sort, used) == count_nodes(a, sort, used) + count_nodes(b, sort, used),
    decreases b.len(),
{
    if b.len() > 0 {
        assert((a + b).drop_last() =~= a + b.drop_last());
        lemma_count_nodes_add(a, b.drop_last(), sort, used);
    }
}

/// Counting graph edges goes through concatenation.
pub proof fn lemma_count_edges_add(a: Seq<EdgeView>, b: Seq<EdgeView>, sort: GraphEdgeType)
    ensures
        count_edges(a + b, sort) == count_edges(a, sort) + count_edges(b, sort),
    decreases b.len(),
{
    if b.len() > 0 {
        assert((a + b).drop_last() =~= a + b.drop_last());
        lemma_count_edges_add(a, b.drop_last(), sort);
    }
}

proof fn lemma_count_one(v: NodeView, sort: GraphEntityType, used: bool)
    ensures
        count_nodes(seq![v], sort, used) == if node_is(v, sort, used) {
            1nat
        } else {
            0nat
        },
{
    assert(seq![v].drop_last() =~= Seq::<NodeView>::empty());
    assert(count_nodes(Seq::<NodeView>::empty(), sort, used) == 0);
}

proof fn lemma_count_one_edge(e: EdgeView, sort: GraphEdgeType)
    ensures
        count_edges(seq![e], sort) == if e.edge_type == sort {
            1nat
        } else {
            0nat
        },
{
    assert(seq![e].drop_last() =~= Seq::<EdgeView>::empty());
    assert(count_edges(Seq::<EdgeView>::empty(), sort) == 0);
}

proof fn lemma_count_bindings(
    nodes: Seq<SyntaxNode>,
    src: Seq<u8>,
    l: int,
    c: int,
    sort: GraphEntityType,
    used: bool,
)
    ensures
        count_nodes(binding_nodes_from(nodes, src, l, c), sort, used) == if sort
            == GraphEntityType::Variable && !used {
            named_children_from(nodes, src, l, c)
        } else {
            0
        },
    decreases nodes.len() - c,
{
    if 0 <= l < c < nodes.len() && c < nodes[l].subtree_end && c < nodes[c].subtree_end
        <= nodes.len() {
        let rest = binding_nodes_from(nodes, src, l, nodes[c].subtree_end as int);
        lemma_count_bindings(nodes, src, l, nodes[c].subtree_end as int, sort, used);
        if is_named_identifier(nodes, src, c) {
            let v = crate::graph::variable_node(nodes, src, c);
            lemma_count_one(v, sort, used);
            lemma_count_nodes_add(seq![v], rest, sort, used);
        }
    }
}

/// The number of graph nodes of a sort that node `i` gives rise to.
pub open spec fn nodes_expected_at(
    nodes: Seq<SyntaxNode>,
    src: Seq<u8>,
    i: int,
    sort: GraphEntityType,
    used: bool,
) -> nat {
    if used {
        if sort == GraphEntityType::Variable && linked_decl(nodes, src, i) is Some {
            1
        } else {
            0
        }
    } else {
        match sort {
            GraphEntityType::Variable => names_bound_at(nodes, src, i),
            GraphEntityType::Function => if has_kind(nodes, i, "function_declaration") && named_by(
                nodes,
                src,
                i,
                "name",
            ) is Some {
                1
            } else {
                0
            },
            GraphEntityType::Goroutine => if has_kind(nodes, i, "go_statement") {
                1
            } else {
                0
            },
            GraphEntityType::Channel => if has_kind(nodes, i, "channel_type") {
                1
            } else {
                0
            },
            GraphEntityType::SyncBlock => 0,
        }
    }
}

proof fn lemma_nodes_at(
    nodes: Seq<SyntaxNode>,
    src: Seq<u8>,
    i: int,
    sort: GraphEntityType,
    used: bool,
)
    ensures
        count_nodes(nodes_at(nodes, src, i), sort, used) == nodes_expected_at(
            nodes,
            src,
            i,
            sort,
            used,
        ),
{
    lemma_kinds_differ();
    let s = nodes_at(nodes, src, i);
    if is_graph_decl(nodes, i) {
        match graph_binding_list(nodes, i) {
            Some(l) => {
                lemma_count_bindings(nodes, src, l, l + 1, sort, used);
            },
            None => {},
        }
    } else if s.len() == 1 {
        lemma_count_one(s[0], sort, used);
    }
}

proof fn lemma_edges_at(nodes: Seq<SyntaxNode>, src: Seq<u8>, i: int)
    ensures
        count_edges(edges_at(nodes, src, i), GraphEdgeType::Use) == if linked_decl(nodes, src, i)
            is Some {
            1nat
        } else {
            0nat
        },
        count_edges(edges_at(nodes, src, i), GraphEdgeType::Spawn) == if has_kind(
            nodes,
            i,
            "go_statement",
        ) {
            1nat
        } else {
            0nat
        },
{
    lemma_kinds_differ();
    let s = edges_at(nodes, src, i);
    if s.len() == 1 {
        lemma_count_one_edge(s[0], GraphEdgeType::Use);
        lemma_count_one_edge(s[0], GraphEdgeType::Spawn);
    } else if s.len() == 2 {
        let a = seq![s[0]];
        let b = seq![s[1]];
        lemma_count_edges_add(a, b, GraphEdgeType::Use);
        lemma_count_edges_add(a, b, GraphEdgeType::Spawn);
        lemma_count_one_edge(s[0], GraphEdgeType::Use);
        lemma_count_one_edge(s[1], GraphEdgeType::Use);
        lemma_count_one_edge(s[0], GraphEdgeType::Spawn);
        lemma_count_one_edge(s[1], GraphEdgeType::Spawn);
    }
}

/// Completeness of the graph over the first `k` syntax nodes: it holds
/// one variable node per name that a declaration binds, one function node
/// per named function declaration, one goroutine node and one spawn edge
/// per `go` statement, one channel node per channel type, and one use
/// node and one use edge per identifier that is linked to a declaration;
/// and it holds no synchronization blocks.
pub proof fn lemma_graph_complete(nodes: Seq<SyntaxNode>, src: Seq<u8>, k: int)
    ensures
        count_nodes(graph_nodes(nodes, src, k), GraphEntityType::Variable, false) == names_bound(
            nodes,
            src,
            k,
        ),
        count_nodes(graph_nodes(nodes, src, k), GraphEntityType::Function, false)
            == named_functions(nodes, src, k),
        count_nodes(graph_nodes(nodes, src, k), GraphEntityType::Goroutine, false) == kind_count(
            nodes,
            "go_statement",
            k,
        ),
        count_nodes(graph_nodes(nodes, src, k), GraphEntityType::Channel, false) == kind_count(
            nodes,
            "channel_type",
            k,
        ),
        count_nodes(graph_nodes(nodes, src, k), GraphEntityType::SyncBlock, false) == 0,
        count_nodes(graph_nodes(nodes, src, k), GraphEntityType::Variable, true) == linked_uses(
            nodes,
            src,
            k,
        ),
        count_edges(graph_edges(nodes, src, k), GraphEdgeType::Use) == linked_uses(nodes, src, k),
        count_edges(graph_edges(nodes, src, k), GraphEdgeType::Spawn) == kind_count(
            nodes,
            "go_statement",
            k,
        ),
    decreases k,
{
    if k > 0 {
        lemma_graph_complete(nodes, src, k - 1);
        let before = graph_nodes(nodes, src, k - 1);
        let here = nodes_at(nodes, src, k - 1);
        lemma_count_nodes_add(before, here, GraphEntityType::Variable, false);
        lemma_count_nodes_add(before, here, GraphEntityType::Function, false);
        lemma_count_nodes_add(before, here, GraphEntityType::Goroutine, false);
        lemma_count_nodes_add(before, here, GraphEntityType::Channel, false);
        lemma_count_nodes_add(before, here, GraphEntityType::SyncBlock, false);
        lemma_count_nodes_add(before, here, GraphEntityType::Variable, true);
        lemma_nodes_at(nodes, src, k - 1, GraphEntityType::Variable, false);
        lemma_nodes_at(nodes, src, k - 1, GraphEntityType::Function, false);
        lemma_nodes_at(nodes, src, k - 1, GraphEntityType::Goroutine, false);
        lemma_nodes_at(nodes, src, k - 1, GraphEntityType::Channel, false);
        lemma_nodes_at(nodes, src, k - 1, GraphEntityType::SyncBlock, false);
        lemma_nodes_at(nodes, src, k - 1, GraphEntityType::Variable, true);
        lemma_count_edges_add(
            graph_edges(nodes, src, k - 1),
            edges_at(nodes, src, k - 1),
            GraphEdgeType::Use,
        );
        lemma_count_edges_add(
            graph_edges(nodes, src, k - 1),
            edges_at(nodes, src, k - 1),
            GraphEdgeType::Spawn,
        );
        lemma_edges_at(nodes, src, k - 1);
    }
}

/// Whether `c` is one of the children of `p` from slot `from` on.
pub open spec fn is_listed_child(nodes: Seq<SyntaxNode>, p: int, from: int, c: int) -> bool
    decreases nodes.len() - from,
{
    if 0 <= p < from < nodes.len() && from < nodes[p].subtree_end && from < nodes[from].subtree_end
        <= nodes.len() {
        from == c || is_listed_child(nodes, p, nodes[from].subtree_end as int, c)
    } else {
        false
    }
}

/// The graph nodes of the first `i` syntax nodes open those of the first
/// `k`.
pub proof fn lemma_graph_nodes_prefix(nodes: Seq<SyntaxNode>, src: Seq<u8>, i: int, k: int)
    requires
        0 <= i <= k,
    ensures
        graph_nodes(nodes, src, i).len() <= graph_nodes(nodes, src, k).len(),
        graph_nodes(nodes, src, k).subrange(0, graph_nodes(nodes, src, i).len() as int)
            == graph_nodes(nodes, src, i),
    decreases k - i,
{
    if i < k {
        lemma_graph_nodes_prefix(nodes, src, i, k - 1);
        let shorter = graph_nodes(nodes, src, k - 1);
        let first = graph_nodes(nodes, src, i);
        assert(graph_nodes(nodes, src, k).subrange(0, first.len() as int) =~= shorter.subrange(
            0,
            first.len() as int,
        ));
    } else {
        assert(graph_nodes(nodes, src, k).subrange(0, graph_nodes(nodes, src, i).len() as int)
            =~= graph_nodes(nodes, src, i));
    }
}

/// The graph edges of the first `i` syntax nodes open those of the first
/// `k`.
pub proof fn lemma_graph_edges_prefix(nodes: Seq<SyntaxNode>, src: Seq<u8>, i: int, k: int)
    requires
        0 <= i <= k,
    ensures
        graph_edges(nodes, src, i).len() <= graph_edges(nodes, src, k).len(),
        graph_edges(nodes, src, k).subrange(0, graph_edges(nodes, src, i).len() as int)
            == graph_edges(nodes, src, i),
    decreases k - i,
{
    if i < k {
        lemma_graph_edges_prefix(nodes, src, i, k - 1);
        let shorter = graph_edges(nodes, src, k - 1);
        let first = graph_edges(nodes, src, i);
        assert(graph_edges(nodes, src, k).subrange(0, first.len() as int) =~= shorter.subrange(
            0,
            first.len() as int,
        ));
    } else {
        assert(graph_edges(nodes, src, k).subrange(0, graph_edges(nodes, src, i).len() as int)
            =~= graph_edges(nodes, src, i));
    }
}

/// Every graph node that syntax node `i` gives rise to stands in the
/// graph of the first `k` syntax nodes, after those of the nodes before
/// `i`.
pub proof fn lemma_node_in_graph(nodes: Seq<SyntaxNode>, src: Seq<u8>, k: int, i: int, m: int)
    requires
        0 <= i < k,
        0 <= m < nodes_at(nodes, src, i).len(),
    ensures
        graph_nodes(nodes, src, i).len() + m < graph_nodes(nodes, src, k).len(),
        graph_nodes(nodes, src, k)[graph_nodes(nodes, src, i).len() + m] == nodes_at(
            nodes,
            src,
            i,
        )[m],
        graph_nodes(nodes, src, k).contains(nodes_at(nodes, src, i)[m]),
{
    lemma_graph_nodes_prefix(nodes, src, i + 1, k);
    let upto = graph_nodes(nodes, src, i + 1);
    let at = graph_nodes(nodes, src, i).len() + m;
    assert(upto[at] == nodes_at(nodes, src, i)[m]);
    assert(graph_nodes(nodes, src, k).subrange(0, upto.len() as int)[at] == upto[at]);
}

/// Every graph edge that syntax node `i` gives rise to stands in the
/// graph of the first `k` syntax nodes.
pub proof fn lemma_edge_in_graph(nodes: Seq<SyntaxNode>, src: Seq<u8>, k: int, i: int, m: int)
    requires
        0 <= i < k,
        0 <= m < edges_at(nodes, src, i).len(),
    ensures
        graph_edges(nodes, src, k).contains(edges_at(nodes, src, i)[m]),
{
    lemma_graph_edges_prefix(nodes, src, i + 1, k);
    let upto = graph_edges(nodes, src, i + 1);
    let at = graph_edges(nodes, src, i).len() + m;
    assert(upto[at] == edges_at(nodes, src, i)[m]);
    assert(graph_edges(nodes, src, k).subrange(0, upto.len() as int)[at] == upto[at]);
}

proof fn lemma_binding_listed(nodes: Seq<SyntaxNode>, src: Seq<u8>, l: int, from: int, c: int)
    requires
        is_listed_child(nodes, l, from, c),
        is_named_identifier(nodes, src, c),
    ensures
        binding_nodes_from(nodes, src, l, from).contains(variable_node(nodes, src, c)),
    decreases nodes.len() - from,
{
    let rest = binding_nodes_from(nodes, src, l, nodes[from].subtree_end as int);
    let all = binding_nodes_from(nodes, src, l, from);
    if from == c {
        assert(all[0] == variable_node(nodes, src, c));
    } else {
        lemma_binding_listed(nodes, src, l, nodes[from].subtree_end as int, c);
        let at = choose|at: int| 0 <= at < rest.len() && rest[at] == variable_node(nodes, src, c);
        if is_named_identifier(nodes, src, from) {
            assert(all[at + 1] == rest[at]);
        } else {
            assert(all =~= rest);
        }
    }
}

/// The graph holds, for every declaration among the first `k` syntax
/// nodes, a node of the matching sort with the range and label asked
/// for: a variable for each identifier with a valid text that a `var`
/// spec or short declaration binds, with the identifier's range and text;
/// a function for each function declaration with a valid name, with the
/// name's range and text; a goroutine for each `go` statement and a
/// channel for each channel type, with the range of the syntax node.
pub proof fn lemma_declarations_in_graph(nodes: Seq<SyntaxNode>, src: Seq<u8>, k: int, i: int)
    requires
        0 <= i < k,
    ensures
        forall|c: int|
            graph_binding_list(nodes, i) is Some && #[trigger] is_listed_child(
                nodes,
                graph_binding_list(nodes, i).unwrap(),
                graph_binding_list(nodes, i).unwrap() + 1,
                c,
            ) && is_named_identifier(nodes, src, c) ==> graph_nodes(nodes, src, k).contains(
                variable_node(nodes, src, c),
            ),
        has_kind(nodes, i, "function_declaration") && named_by(nodes, src, i, "name") is Some
            ==> graph_nodes(nodes, src, k).contains(
            NodeView {
                id: id_of(
                    nodes,
                    src,
                    "fn",
                    named_by(nodes, src, i, "name").unwrap(),
                    named_by(nodes, src, i, "name").unwrap(),
                ),
                label: label_of(nodes, src, named_by(nodes, src, i, "name").unwrap()),
                entity_type: GraphEntityType::Function,
                range: node_range(nodes, named_by(nodes, src, i, "name").unwrap()),
                extra: None,
            },
        ),
        has_kind(nodes, i, "go_statement") ==> graph_nodes(nodes, src, k).contains(
            NodeView {
                id: fixed_id(nodes, "go", "goroutine", i),
                label: "goroutine"@,
                entity_type: GraphEntityType::Goroutine,
                range: node_range(nodes, i),
                extra: None,
            },
        ),
        has_kind(nodes, i, "channel_type") ==> graph_nodes(nodes, src, k).contains(
            NodeView {
                id: fixed_id(nodes, "chan", "channel", i),
                label: "channel"@,
                entity_type: GraphEntityType::Channel,
                range: node_range(nodes, i),
                extra: None,
            },
        ),
{
    lemma_kinds_differ();
    let here = nodes_at(nodes, src, i);
    if graph_binding_list(nodes, i) is Some {
        let l = graph_binding_list(nodes, i).unwrap();
        assert forall|c: int|
            #[trigger] is_listed_child(nodes, l, l + 1, c) && is_named_identifier(
                nodes,
                src,
                c,
            ) implies graph_nodes(nodes, src, k).contains(variable_node(nodes, src, c)) by {
            lemma_binding_listed(nodes, src, l, l + 1, c);
            let m = choose|m: int| 0 <= m < here.len() && here[m] == variable_node(nodes, src, c);
            lemma_node_in_graph(nodes, src, k, i, m);
        }
    }
    if here.len() == 1 {
        lemma_node_in_graph(nodes, src, k, i, 0);
    }
}

/// The graph holds, for every identifier among the first `k` syntax nodes
/// that is linked to a declaration, a use node with the identifier's
/// range and text, and a use edge from that node's id to the id of the
/// declaration's node.
pub proof fn lemma_uses_in_graph(nodes: Seq<SyntaxNode>, src: Seq<u8>, k: int, u: int)
    requires
        0 <= u < k,
        linked_decl(nodes, src, u) is Some,
    ensures
        graph_nodes(nodes, src, k).contains(use_node(nodes, src, u)),
        graph_edges(nodes, src, k).contains(
            EdgeView {
                from: use_node(nodes, src, u).id,
                to: variable_node(nodes, src, linked_decl(nodes, src, u).unwrap()).id,
                edge_type: GraphEdgeType::Use,
            },
        ),
{
    lemma_kinds_differ();
    lemma_node_in_graph(nodes, src, k, u, 0);
    lemma_edge_in_graph(nodes, src, k, u, 0);
}

} // verus!
