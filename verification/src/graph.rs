//! The entity graph of a file: declarations, uses, calls, channel traffic,
//! goroutines and synchronization, in document order.

use crate::resolve::valid_text;
use crate::sync::{atomic_call, is_atomic_call, is_mutex_call, mutex_call};
use crate::syntax::{
    field_child, has_field, has_kind, is_child, node_ok, node_range, node_text, opt, well_formed,
    SyntaxNode, SyntaxTree,
};
use crate::text::{decimal, decimal_text, substring};
use crate::types::{
    GraphData, GraphEdge, GraphEdgeType, GraphEntityType, GraphExtra, GraphNode, Range,
};
use vstd::prelude::*;
use vstd::string::StringExecFns;
use vstd::string::StringSliceAdditionalSpecFns;
use vstd::utf8::decode_utf8;

verus! {

/// What a graph node holds, as plain values.
pub struct NodeView {
    pub id: Seq<char>,
    pub label: Seq<char>,
    pub entity_type: GraphEntityType,
    pub range: Range,
    pub extra: Option<GraphExtra>,
}

/// What a graph edge holds, as plain values.
pub struct EdgeView {
    pub from: Seq<char>,
    pub to: Seq<char>,
    pub edge_type: GraphEdgeType,
}

/// A graph node as plain values.
pub open spec fn node_view(n: GraphNode) -> NodeView {
    NodeView {
        id: n.id@,
        label: n.label@,
        entity_type: n.entity_type,
        range: n.range,
        extra: n.extra,
    }
}

/// A graph edge as plain values.
pub open spec fn edge_view(e: GraphEdge) -> EdgeView {
    EdgeView { from: e.from@, to: e.to@, edge_type: e.edge_type }
}

/// Graph nodes as plain values, in order.
pub open spec fn nodes_view(v: Seq<GraphNode>) -> Seq<NodeView> {
    v.map_values(|n: GraphNode| node_view(n))
}

/// Graph edges as plain values, in order.
pub open spec fn edges_view(v: Seq<GraphEdge>) -> Seq<EdgeView> {
    v.map_values(|e: GraphEdge| edge_view(e))
}

/// The id of an entity: its sort, its name, and the line, start column
/// and end column of its range, joined by colons.
pub open spec fn id_text(sort: Seq<char>, name: Seq<char>, r: Range) -> Seq<char> {
    sort + ":"@ + name + ":"@ + decimal_text(r.start.line as nat) + ":"@ + decimal_text(
        r.start.character as nat,
    ) + ":"@ + decimal_text(r.end.character as nat)
}

/// The source text of node `i` as characters.
pub open spec fn label_of(nodes: Seq<SyntaxNode>, src: Seq<u8>, i: int) -> Seq<char> {
    decode_utf8(node_text(nodes, src, i).unwrap())
}

/// The id of the entity of the given sort that node `i` names, placed at
/// node `at`.
pub open spec fn id_of(
    nodes: Seq<SyntaxNode>,
    src: Seq<u8>,
    sort: &str,
    i: int,
    at: int,
) -> Seq<char> {
    id_text(sort@, label_of(nodes, src, i), node_range(nodes, at))
}

/// The id of the entity of the given sort and fixed name placed at node
/// `at`.
pub open spec fn fixed_id(nodes: Seq<SyntaxNode>, sort: &str, name: &str, at: int) -> Seq<char> {
    id_text(sort@, name@, node_range(nodes, at))
}

/// The node whose identifier children a declaration binds in the graph.
pub open spec fn graph_binding_list(nodes: Seq<SyntaxNode>, d: int) -> Option<int> {
    if has_kind(nodes, d, "var_spec") {
        Some(d)
    } else if has_kind(nodes, d, "short_var_declaration") {
        field_child(nodes, d, "left")
    } else {
        None
    }
}

/// Whether node `c` is an identifier with a valid text.
pub open spec fn is_named_identifier(nodes: Seq<SyntaxNode>, src: Seq<u8>, c: int) -> bool {
    has_kind(nodes, c, "identifier") && valid_text(nodes, src, c)
}

/// The graph node of the variable that identifier `c` declares.
pub open spec fn variable_node(nodes: Seq<SyntaxNode>, src: Seq<u8>, c: int) -> NodeView {
    NodeView {
        id: id_of(nodes, src, "var", c, c),
        label: label_of(nodes, src, c),
        entity_type: GraphEntityType::Variable,
        range: node_range(nodes, c),
        extra: None,
    }
}

/// The variable nodes of the identifiers among the children of `l` at or
/// after slot `c`.
pub open spec fn binding_nodes_from(nodes: Seq<SyntaxNode>, src: Seq<u8>, l: int, c: int) -> Seq<
    NodeView,
>
    decreases nodes.len() - c,
{
    if 0 <= l < c < nodes.len() && c < nodes[l].subtree_end && c < nodes[c].subtree_end
        <= nodes.len() {
        (if is_named_identifier(nodes, src, c) {
            seq![variable_node(nodes, src, c)]
        } else {
            Seq::empty()
        }) + binding_nodes_from(nodes, src, l, nodes[c].subtree_end as int)
    } else {
        Seq::empty()
    }
}

/// The last identifier among the children of `l` at or after slot `c`
/// that reads `name`.
pub open spec fn last_binding_from(
    nodes: Seq<SyntaxNode>,
    src: Seq<u8>,
    l: int,
    c: int,
    name: Seq<u8>,
) -> Option<int>
    decreases nodes.len() - c,
{
    if 0 <= l < c < nodes.len() && c < nodes[l].subtree_end && c < nodes[c].subtree_end
        <= nodes.len() {
        match last_binding_from(nodes, src, l, nodes[c].subtree_end as int, name) {
            Some(x) => Some(x),
            None => if is_named_identifier(nodes, src, c) && node_text(nodes, src, c) == Some(
                name,
            ) {
                Some(c)
            } else {
                None
            },
        }
    } else {
        None
    }
}

/// The identifier by which declaration `d` last binds `name` in the graph.
pub open spec fn graph_binding(nodes: Seq<SyntaxNode>, src: Seq<u8>, d: int, name: Seq<u8>) -> Option<
    int,
> {
    match graph_binding_list(nodes, d) {
        Some(l) => last_binding_from(nodes, src, l, l + 1, name),
        None => None,
    }
}

/// The latest binding of `name` by a declaration among the first `k`
/// nodes: the graph links names to their last declaration, whatever the
/// scope.
pub open spec fn decl_before(nodes: Seq<SyntaxNode>, src: Seq<u8>, name: Seq<u8>, k: int) -> Option<
    int,
>
    decreases k,
{
    if k <= 0 {
        None
    } else {
        match graph_binding(nodes, src, k - 1, name) {
            Some(b) => Some(b),
            None => decl_before(nodes, src, name, k - 1),
        }
    }
}

/// Whether identifier `u` stands where a declaration binds names.
pub open spec fn in_binding_position(nodes: Seq<SyntaxNode>, u: int) -> bool {
    match nodes[u].parent {
        Some(p) => has_kind(nodes, p as int, "var_spec") || has_kind(
            nodes,
            p as int,
            "short_var_declaration",
        ) || (has_field(nodes, p as int, "left") && match nodes[p as int].parent {
            Some(g) => has_kind(nodes, g as int, "short_var_declaration"),
            None => false,
        }),
        None => true,
    }
}

/// The declaration that the graph links identifier `u` to, where `u` is a
/// use of a declared name.
pub open spec fn linked_decl(nodes: Seq<SyntaxNode>, src: Seq<u8>, u: int) -> Option<int> {
    if is_named_identifier(nodes, src, u) && !in_binding_position(nodes, u) {
        decl_before(nodes, src, node_text(nodes, src, u).unwrap(), u)
    } else {
        None
    }
}

/// The graph node of the use at identifier `u`.
pub open spec fn use_node(nodes: Seq<SyntaxNode>, src: Seq<u8>, u: int) -> NodeView {
    NodeView {
        id: id_of(nodes, src, "use", u, u),
        label: label_of(nodes, src, u),
        entity_type: GraphEntityType::Variable,
        range: node_range(nodes, u),
        extra: Some(GraphExtra::Use),
    }
}

/// The name of function declaration `i`, where it has one with a valid
/// text.
pub open spec fn named_by(nodes: Seq<SyntaxNode>, src: Seq<u8>, i: int, field: &str) -> Option<int> {
    match field_child(nodes, i, field) {
        Some(m) => if valid_text(nodes, src, m) {
            Some(m)
        } else {
            None
        },
        None => None,
    }
}

/// The graph nodes that node `i` gives rise to: a variable per bound
/// identifier of a declaration, a function per named function
/// declaration, a goroutine per `go` statement, a channel per channel
/// type, and a use per identifier that the graph links to a declaration.
pub open spec fn nodes_at(nodes: Seq<SyntaxNode>, src: Seq<u8>, i: int) -> Seq<NodeView> {
    if has_kind(nodes, i, "var_spec") || has_kind(nodes, i, "short_var_declaration") {
        match graph_binding_list(nodes, i) {
            Some(l) => binding_nodes_from(nodes, src, l, l + 1),
            None => Seq::empty(),
        }
    } else if has_kind(nodes, i, "function_declaration") {
        match named_by(nodes, src, i, "name") {
            Some(m) => seq![
                NodeView {
                    id: id_of(nodes, src, "fn", m, m),
                    label: label_of(nodes, src, m),
                    entity_type: GraphEntityType::Function,
                    range: node_range(nodes, m),
                    extra: None,
                },
            ],
            None => Seq::empty(),
        }
    } else if has_kind(nodes, i, "go_statement") {
        seq![
            NodeView {
                id: fixed_id(nodes, "go", "goroutine", i),
                label: "goroutine"@,
                entity_type: GraphEntityType::Goroutine,
                range: node_range(nodes, i),
                extra: None,
            },
        ]
    } else if has_kind(nodes, i, "channel_type") {
        seq![
            NodeView {
                id: fixed_id(nodes, "chan", "channel", i),
                label: "channel"@,
                entity_type: GraphEntityType::Channel,
                range: node_range(nodes, i),
                extra: None,
            },
        ]
    } else if linked_decl(nodes, src, i) is Some {
        seq![use_node(nodes, src, i)]
    } else {
        Seq::empty()
    }
}

/// The graph nodes of the first `k` syntax nodes, in document order.
pub open spec fn graph_nodes(nodes: Seq<SyntaxNode>, src: Seq<u8>, k: int) -> Seq<NodeView>
    decreases k,
{
    if k <= 0 {
        Seq::empty()
    } else {
        graph_nodes(nodes, src, k - 1) + nodes_at(nodes, src, k - 1)
    }
}

/// Whether the source text of node `i` begins with the receive arrow.
pub open spec fn starts_with_arrow(nodes: Seq<SyntaxNode>, src: Seq<u8>, i: int) -> bool {
    node_text(nodes, src, i) is Some && "<-".spec_bytes().is_prefix_of(
        node_text(nodes, src, i).unwrap(),
    )
}

/// An edge between two ids.
pub open spec fn edge(from: Seq<char>, to: Seq<char>, edge_type: GraphEdgeType) -> EdgeView {
    EdgeView { from, to, edge_type }
}

/// The edges of call `i`: to the function it names, and to a
/// synchronization point where it is a mutex or atomic call.
pub open spec fn call_edges(nodes: Seq<SyntaxNode>, src: Seq<u8>, i: int) -> Seq<EdgeView> {
    (match named_by(nodes, src, i, "function") {
        Some(f) => seq![
            edge(id_of(nodes, src, "callsite", f, i), id_of(nodes, src, "fn", f, f), GraphEdgeType::Call),
        ],
        None => Seq::empty(),
    }) + if mutex_call(nodes, src, i) || atomic_call(nodes, src, i) {
        seq![
            edge(
                fixed_id(nodes, "callsite", "sync", i),
                fixed_id(nodes, "sync", "sync", i),
                GraphEdgeType::Sync,
            ),
        ]
    } else {
        Seq::empty()
    }
}

/// The edges that node `i` gives rise to: from each use to the
/// declaration the graph links it to, from a call site to the function
/// called and to a synchronization point, from a send or a receive to its
/// channel, and from a spawn site to its goroutine.
pub open spec fn edges_at(nodes: Seq<SyntaxNode>, src: Seq<u8>, i: int) -> Seq<EdgeView> {
    if has_kind(nodes, i, "var_spec") || has_kind(nodes, i, "short_var_declaration") || has_kind(
        nodes,
        i,
        "function_declaration",
    ) || has_kind(nodes, i, "channel_type") {
        Seq::empty()
    } else if has_kind(nodes, i, "go_statement") {
        seq![
            edge(
                fixed_id(nodes, "spawnsite", "go", i),
                fixed_id(nodes, "go", "goroutine", i),
                GraphEdgeType::Spawn,
            ),
        ]
    } else if linked_decl(nodes, src, i) is Some {
        seq![
            edge(
                id_of(nodes, src, "use", i, i),
                id_of(
                    nodes,
                    src,
                    "var",
                    linked_decl(nodes, src, i).unwrap(),
                    linked_decl(nodes, src, i).unwrap(),
                ),
                GraphEdgeType::Use,
            ),
        ]
    } else if has_kind(nodes, i, "call_expression") {
        call_edges(nodes, src, i)
    } else if has_kind(nodes, i, "send_statement") {
        match named_by(nodes, src, i, "channel") {
            Some(c) => seq![
                edge(id_of(nodes, src, "send", c, i), id_of(nodes, src, "chan", c, c), GraphEdgeType::Send),
            ],
            None => Seq::empty(),
        }
    } else if has_kind(nodes, i, "unary_expression") && starts_with_arrow(nodes, src, i) {
        match named_by(nodes, src, i, "operand") {
            Some(c) => seq![
                edge(
                    id_of(nodes, src, "recv", c, i),
                    id_of(nodes, src, "chan", c, c),
                    GraphEdgeType::Receive,
                ),
            ],
            None => Seq::empty(),
        }
    } else {
        Seq::empty()
    }
}

/// The graph edges of the first `k` syntax nodes, in document order.
pub open spec fn graph_edges(nodes: Seq<SyntaxNode>, src: Seq<u8>, k: int) -> Seq<EdgeView>
    decreases k,
{
    if k <= 0 {
        Seq::empty()
    } else {
        graph_edges(nodes, src, k - 1) + edges_at(nodes, src, k - 1)
    }
}

/// Builds the id of an entity.
pub fn make_id(sort: &str, name: &str, range: &Range) -> (id: String)
    ensures
        id@ == id_text(sort@, name@, *range),
{
    let line = decimal(range.start.line as u64);
    let start = decimal(range.start.character as u64);
    let end = decimal(range.end.character as u64);
    String::from_str(sort).concat(":").concat(name).concat(":").concat(line.as_str()).concat(
        ":",
    ).concat(start.as_str()).concat(":").concat(end.as_str())
}

/// The source text of node `i` as a string, where its span is valid.
pub fn node_string(tree: &SyntaxTree, code: &str, i: usize) -> (r: Option<String>)
    requires
        i < tree@.len(),
    ensures
        r is Some <==> valid_text(tree@, code.spec_bytes(), i as int),
        r is Some ==> r.unwrap()@ == label_of(tree@, code.spec_bytes(), i as int),
{
    let node = tree.node(i);
    substring(code, node.start_byte, node.end_byte)
}

/// Whether node `d` is a declaration that the graph draws variables from.
pub open spec fn is_graph_decl(nodes: Seq<SyntaxNode>, d: int) -> bool {
    has_kind(nodes, d, "var_spec") || has_kind(nodes, d, "short_var_declaration")
}

/// The declarations among the first `k` nodes, in document order.
pub open spec fn graph_decls(nodes: Seq<SyntaxNode>, k: int) -> Seq<usize>
    decreases k,
{
    if k <= 0 {
        Seq::empty()
    } else if is_graph_decl(nodes, k - 1) {
        graph_decls(nodes, k - 1).push((k - 1) as usize)
    } else {
        graph_decls(nodes, k - 1)
    }
}

/// The latest binding of `name` by one of the first `j` declarations of a
/// list.
pub open spec fn decl_in_list(
    nodes: Seq<SyntaxNode>,
    src: Seq<u8>,
    name: Seq<u8>,
    decls: Seq<usize>,
    j: int,
) -> Option<int>
    decreases j,
{
    if j <= 0 {
        None
    } else {
        match graph_binding(nodes, src, decls[j - 1] as int, name) {
            Some(b) => Some(b),
            None => decl_in_list(nodes, src, name, decls, j - 1),
        }
    }
}

proof fn lemma_decl_in_prefix(
    nodes: Seq<SyntaxNode>,
    src: Seq<u8>,
    name: Seq<u8>,
    decls: Seq<usize>,
    x: usize,
    j: int,
)
    requires
        0 <= j <= decls.len(),
    ensures
        decl_in_list(nodes, src, name, decls.push(x), j) == decl_in_list(nodes, src, name, decls, j),
    decreases j,
{
    if j > 0 {
        lemma_decl_in_prefix(nodes, src, name, decls, x, j - 1);
    }
}

/// The latest binding of a name before a node is found among the
/// declarations before it, taken from the last one backwards.
pub proof fn lemma_decl_before_by_list(nodes: Seq<SyntaxNode>, src: Seq<u8>, name: Seq<u8>, k: int)
    requires
        0 <= k <= nodes.len() <= usize::MAX,
    ensures
        decl_before(nodes, src, name, k) == decl_in_list(
            nodes,
            src,
            name,
            graph_decls(nodes, k),
            graph_decls(nodes, k).len() as int,
        ),
    decreases k,
{
    if k > 0 {
        lemma_decl_before_by_list(nodes, src, name, k - 1);
        let prev = graph_decls(nodes, k - 1);
        if is_graph_decl(nodes, k - 1) {
            lemma_decl_in_prefix(nodes, src, name, prev, (k - 1) as usize, prev.len() as int);
        }
    }
}

fn push_node(out: &mut Vec<GraphNode>, node: GraphNode)
    ensures
        nodes_view(final(out)@) == nodes_view(old(out)@) + seq![node_view(node)],
{
    out.push(node);
}

fn push_edge(out: &mut Vec<GraphEdge>, from: String, to: String, edge_type: GraphEdgeType)
    ensures
        edges_view(final(out)@) == edges_view(old(out)@) + seq![edge(from@, to@, edge_type)],
{
    let e = GraphEdge { from, to, edge_type };
    out.push(e);
}

/// The node whose identifier children declaration `d` binds in the graph.
pub fn graph_binding_list_of(tree: &SyntaxTree, d: usize) -> (r: Option<usize>)
    requires
        d < tree@.len(),
    ensures
        opt(r) == graph_binding_list(tree@, d as int),
        r is Some ==> r.unwrap() < tree@.len(),
{
    let _ = tree.len();
    assert(node_ok(tree@, d as int));
    if tree.kind_is(d, "var_spec") {
        Some(d)
    } else if tree.kind_is(d, "short_var_declaration") {
        tree.child_by_field_name(d, "left")
    } else {
        None
    }
}

/// The identifier by which declaration `d` last binds `name`.
fn find_graph_binding(tree: &SyntaxTree, code: &str, d: usize, name: &[u8]) -> (r: Option<usize>)
    requires
        d < tree@.len(),
    ensures
        opt(r) == graph_binding(tree@, code.spec_bytes(), d as int, name@),
        r is Some ==> r.unwrap() < tree@.len() && is_named_identifier(
            tree@,
            code.spec_bytes(),
            r.unwrap() as int,
        ),
{
    let _ = tree.len();
    let src = code.as_bytes();
    match graph_binding_list_of(tree, d) {
        None => None,
        Some(l) => {
            let end = tree.subtree_end(l);
            let mut c: usize = tree.first_child_slot(l);
            let mut latest: Option<usize> = None;
            while c < end
                invariant
                    l < c <= end <= tree@.len(),
                    end == tree@[l as int].subtree_end,
                    well_formed(tree@),
                    src@ == code.spec_bytes(),
                    c < end ==> is_child(tree@, l as int, c as int),
                    latest is Some ==> latest.unwrap() < tree@.len() && is_named_identifier(
                        tree@,
                        src@,
                        latest.unwrap() as int,
                    ),
                    last_binding_from(tree@, src@, l as int, l + 1, name@) == match last_binding_from(
                        tree@,
                        src@,
                        l as int,
                        c as int,
                        name@,
                    ) {
                        Some(x) => Some(x),
                        None => opt(latest),
                    },
                decreases end - c,
            {
                let node = tree.node(c);
                if tree.kind_is(c, "identifier") && crate::text::valid_span(
                    code,
                    node.start_byte,
                    node.end_byte,
                ) && tree.text_is(src, c, name) {
                    latest = Some(c);
                }
                c = tree.next_child_slot(l, c);
            }
            latest
        },
    }
}

/// The latest binding of `name` by a declaration before node `u`, where
/// `decls` lists the declarations before `u`.
fn find_decl_before(tree: &SyntaxTree, code: &str, decls: &Vec<usize>, name: &[u8], u: usize) -> (r:
    Option<usize>)
    requires
        u <= tree@.len(),
        decls@ == graph_decls(tree@, u as int),
        forall|a: int| 0 <= a < decls@.len() ==> decls@[a] < tree@.len(),
    ensures
        opt(r) == decl_before(tree@, code.spec_bytes(), name@, u as int),
        r is Some ==> r.unwrap() < tree@.len() && is_named_identifier(
            tree@,
            code.spec_bytes(),
            r.unwrap() as int,
        ),
{
    let ghost src = code.spec_bytes();
    let _ = tree.len();
    proof {
        lemma_decl_before_by_list(tree@, src, name@, u as int);
    }
    let mut j: usize = decls.len();
    while j > 0
        invariant
            j <= decls@.len(),
            src == code.spec_bytes(),
            forall|a: int| 0 <= a < decls@.len() ==> decls@[a] < tree@.len(),
            decl_before(tree@, src, name@, u as int) == decl_in_list(
                tree@,
                src,
                name@,
                decls@,
                j as int,
            ),
        decreases j,
    {
        let found = find_graph_binding(tree, code, decls[j - 1], name);
        if found.is_some() {
            return found;
        }
        j -= 1;
    }
    None
}

/// Whether identifier `u` stands where a declaration binds names.
fn is_in_binding_position(tree: &SyntaxTree, u: usize) -> (r: bool)
    requires
        u < tree@.len(),
    ensures
        r == in_binding_position(tree@, u as int),
{
    match tree.parent(u) {
        Some(p) => tree.kind_is(p, "var_spec") || tree.kind_is(p, "short_var_declaration") || (
        tree.field_is(p, "left") && match tree.parent(p) {
            Some(g) => tree.kind_is(g, "short_var_declaration"),
            None => false,
        }),
        None => true,
    }
}

/// The declaration that the graph links identifier `u` to.
fn find_linked_decl(tree: &SyntaxTree, code: &str, decls: &Vec<usize>, u: usize) -> (r: Option<
    usize,
>)
    requires
        u < tree@.len(),
        decls@ == graph_decls(tree@, u as int),
        forall|a: int| 0 <= a < decls@.len() ==> decls@[a] < tree@.len(),
    ensures
        opt(r) == linked_decl(tree@, code.spec_bytes(), u as int),
        r is Some ==> r.unwrap() < tree@.len() && is_named_identifier(
            tree@,
            code.spec_bytes(),
            r.unwrap() as int,
        ) && is_named_identifier(tree@, code.spec_bytes(), u as int),
{
    let node = tree.node(u);
    if tree.kind_is(u, "identifier") && crate::text::valid_span(
        code,
        node.start_byte,
        node.end_byte,
    ) && !is_in_binding_position(tree, u) {
        match tree.text_of(code.as_bytes(), u) {
            Some(name) => find_decl_before(tree, code, decls, name, u),
            None => None,
        }
    } else {
        None
    }
}

/// The child of `i` under `field`, where it has one with a valid text.
fn find_named_by(tree: &SyntaxTree, code: &str, i: usize, field: &str) -> (r: Option<usize>)
    requires
        i < tree@.len(),
    ensures
        opt(r) == named_by(tree@, code.spec_bytes(), i as int, field),
        r is Some ==> r.unwrap() < tree@.len() && valid_text(
            tree@,
            code.spec_bytes(),
            r.unwrap() as int,
        ),
{
    let _ = tree.len();
    assert(node_ok(tree@, i as int));
    match tree.child_by_field_name(i, field) {
        Some(m) => {
            let node = tree.node(m);
            if crate::text::valid_span(code, node.start_byte, node.end_byte) {
                Some(m)
            } else {
                None
            }
        },
        None => None,
    }
}

/// The id of the entity of the given sort that node `i` names, placed at
/// node `at`.
fn id_for(tree: &SyntaxTree, code: &str, sort: &str, i: usize, at: usize) -> (id: String)
    requires
        i < tree@.len(),
        at < tree@.len(),
        valid_text(tree@, code.spec_bytes(), i as int),
    ensures
        id@ == id_of(tree@, code.spec_bytes(), sort, i as int, at as int),
{
    let range = tree.range(at);
    match node_string(tree, code, i) {
        Some(name) => make_id(sort, name.as_str(), &range),
        None => String::from_str(""),
    }
}

/// Appends the variable nodes of the identifiers that list `l` holds.
fn push_binding_nodes(tree: &SyntaxTree, code: &str, l: usize, out: &mut Vec<GraphNode>)
    requires
        l < tree@.len(),
    ensures
        nodes_view(final(out)@) == nodes_view(old(out)@) + binding_nodes_from(
            tree@,
            code.spec_bytes(),
            l as int,
            l + 1,
        ),
{
    let _ = tree.len();
    let ghost src = code.spec_bytes();
    let ghost start = nodes_view(out@);
    let end = tree.subtree_end(l);
    let mut c: usize = tree.first_child_slot(l);
    while c < end
        invariant
            l < c <= end <= tree@.len(),
            end == tree@[l as int].subtree_end,
            well_formed(tree@),
            src == code.spec_bytes(),
            c < end ==> is_child(tree@, l as int, c as int),
            start + binding_nodes_from(tree@, src, l as int, l + 1) == nodes_view(out@)
                + binding_nodes_from(tree@, src, l as int, c as int),
        decreases end - c,
    {
        if tree.kind_is(c, "identifier") {
            match node_string(tree, code, c) {
                Some(name) => {
                    let range = tree.range(c);
                    let node = GraphNode {
                        id: make_id("var", name.as_str(), &range),
                        label: name,
                        entity_type: GraphEntityType::Variable,
                        range,
                        extra: None,
                    };
                    push_node(out, node);
                },
                None => {},
            }
        }
        c = tree.next_child_slot(l, c);
    }
}

/// Appends the graph nodes that syntax node `i` gives rise to.
fn push_nodes_at(
    tree: &SyntaxTree,
    code: &str,
    i: usize,
    linked: Option<usize>,
    out: &mut Vec<GraphNode>,
)
    requires
        i < tree@.len(),
        opt(linked) == linked_decl(tree@, code.spec_bytes(), i as int),
        linked is Some ==> is_named_identifier(tree@, code.spec_bytes(), i as int),
    ensures
        nodes_view(final(out)@) == nodes_view(old(out)@) + nodes_at(
            tree@,
            code.spec_bytes(),
            i as int,
        ),
{
    if tree.kind_is(i, "var_spec") || tree.kind_is(i, "short_var_declaration") {
        match graph_binding_list_of(tree, i) {
            Some(l) => push_binding_nodes(tree, code, l, out),
            None => {},
        }
    } else if tree.kind_is(i, "function_declaration") {
        match find_named_by(tree, code, i, "name") {
            Some(m) => match node_string(tree, code, m) {
                Some(name) => {
                    let range = tree.range(m);
                    push_node(
                        out,
                        GraphNode {
                            id: make_id("fn", name.as_str(), &range),
                            label: name,
                            entity_type: GraphEntityType::Function,
                            range,
                            extra: None,
                        },
                    );
                },
                None => {},
            },
            None => {},
        }
    } else if tree.kind_is(i, "go_statement") {
        let range = tree.range(i);
        push_node(
            out,
            GraphNode {
                id: make_id("go", "goroutine", &range),
                label: String::from_str("goroutine"),
                entity_type: GraphEntityType::Goroutine,
                range,
                extra: None,
            },
        );
    } else if tree.kind_is(i, "channel_type") {
        let range = tree.range(i);
        push_node(
            out,
            GraphNode {
                id: make_id("chan", "channel", &range),
                label: String::from_str("channel"),
                entity_type: GraphEntityType::Channel,
                range,
                extra: None,
            },
        );
    } else if linked.is_some() {
        match node_string(tree, code, i) {
            Some(name) => {
                let range = tree.range(i);
                push_node(
                    out,
                    GraphNode {
                        id: make_id("use", name.as_str(), &range),
                        label: name,
                        entity_type: GraphEntityType::Variable,
                        range,
                        extra: Some(GraphExtra::Use),
                    },
                );
            },
            None => {},
        }
    }
}

/// Appends the edges of call `i`.
fn push_call_edges(tree: &SyntaxTree, code: &str, i: usize, out: &mut Vec<GraphEdge>)
    requires
        i < tree@.len(),
    ensures
        edges_view(final(out)@) == edges_view(old(out)@) + call_edges(
            tree@,
            code.spec_bytes(),
            i as int,
        ),
{
    match find_named_by(tree, code, i, "function") {
        Some(f) => {
            let from = id_for(tree, code, "callsite", f, i);
            let to = id_for(tree, code, "fn", f, f);
            push_edge(out, from, to, GraphEdgeType::Call);
        },
        None => {},
    }
    if is_mutex_call(tree, code.as_bytes(), i) || is_atomic_call(tree, code.as_bytes(), i) {
        let range = tree.range(i);
        let ghost sync = seq![
            edge(
                fixed_id(tree@, "callsite", "sync", i as int),
                fixed_id(tree@, "sync", "sync", i as int),
                GraphEdgeType::Sync,
            ),
        ];
        push_edge(
            out,
            make_id("callsite", "sync", &range),
            make_id("sync", "sync", &range),
            GraphEdgeType::Sync,
        );
    }
}

/// Appends the edges that syntax node `i` gives rise to.
fn push_edges_at(
    tree: &SyntaxTree,
    code: &str,
    i: usize,
    linked: Option<usize>,
    out: &mut Vec<GraphEdge>,
)
    requires
        i < tree@.len(),
        opt(linked) == linked_decl(tree@, code.spec_bytes(), i as int),
        linked is Some ==> linked.unwrap() < tree@.len() && is_named_identifier(
            tree@,
            code.spec_bytes(),
            linked.unwrap() as int,
        ) && is_named_identifier(tree@, code.spec_bytes(), i as int),
    ensures
        edges_view(final(out)@) == edges_view(old(out)@) + edges_at(
            tree@,
            code.spec_bytes(),
            i as int,
        ),
{
    if tree.kind_is(i, "var_spec") || tree.kind_is(i, "short_var_declaration") || tree.kind_is(
        i,
        "function_declaration",
    ) || tree.kind_is(i, "channel_type") {
    } else if tree.kind_is(i, "go_statement") {
        let range = tree.range(i);
        push_edge(
            out,
            make_id("spawnsite", "go", &range),
            make_id("go", "goroutine", &range),
            GraphEdgeType::Spawn,
        );
    } else if linked.is_some() {
        let b = linked.unwrap();
        let from = id_for(tree, code, "use", i, i);
        let to = id_for(tree, code, "var", b, b);
        push_edge(out, from, to, GraphEdgeType::Use);
    } else if tree.kind_is(i, "call_expression") {
        push_call_edges(tree, code, i, out);
    } else if tree.kind_is(i, "send_statement") {
        match find_named_by(tree, code, i, "channel") {
            Some(c) => {
                let from = id_for(tree, code, "send", c, i);
                let to = id_for(tree, code, "chan", c, c);
                push_edge(out, from, to, GraphEdgeType::Send);
            },
            None => {},
        }
    } else if tree.kind_is(i, "unary_expression") && tree.text_starts_with(
        code.as_bytes(),
        i,
        "<-".as_bytes(),
    ) {
        match find_named_by(tree, code, i, "operand") {
            Some(c) => {
                let from = id_for(tree, code, "recv", c, i);
                let to = id_for(tree, code, "chan", c, c);
                push_edge(out, from, to, GraphEdgeType::Receive);
            },
            None => {},
        }
    }
}

/// Builds the entity graph of a file in one pass in document order: a
/// node for every variable a `var` spec or short declaration binds, every
/// named function declaration, every `go` statement and every channel
/// type, and for every identifier that reads a name declared earlier; an
/// edge from each such identifier to the latest declaration of its name,
/// from each call site to the function called and, for a mutex or atomic
/// call, to a synchronization point, from each send and receive to its
/// channel, and from each spawn site to its goroutine.
pub fn build_graph_data(tree: &SyntaxTree, code: &str) -> (data: GraphData)
    ensures
        nodes_view(data.nodes@) == graph_nodes(tree@, code.spec_bytes(), tree@.len() as int),
        edges_view(data.edges@) == graph_edges(tree@, code.spec_bytes(), tree@.len() as int),
{
    let n = tree.len();
    let ghost src = code.spec_bytes();
    let mut nodes: Vec<GraphNode> = Vec::new();
    let mut edges: Vec<GraphEdge> = Vec::new();
    let mut decls: Vec<usize> = Vec::new();
    let mut i: usize = 0;
    while i < n
        invariant
            i <= n,
            n == tree@.len(),
            src == code.spec_bytes(),
            decls@ == graph_decls(tree@, i as int),
            forall|a: int| 0 <= a < decls@.len() ==> decls@[a] < i,
            nodes_view(nodes@) == graph_nodes(tree@, src, i as int),
            edges_view(edges@) == graph_edges(tree@, src, i as int),
        decreases n - i,
    {
        let linked = find_linked_decl(tree, code, &decls, i);
        push_nodes_at(tree, code, i, linked, &mut nodes);
        push_edges_at(tree, code, i, linked, &mut edges);
        if tree.kind_is(i, "var_spec") || tree.kind_is(i, "short_var_declaration") {
            decls.push(i);
        }
        i += 1;
    }
    GraphData { nodes, edges }
}

} // verus!
