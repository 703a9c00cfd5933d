//! Resolving the variable under the cursor: its declaration, its uses in
//! document order, and whether it is used as a reference.

use crate::cursor::{find_node_at_position, selected_node};
use crate::scope::{
    declared_binding, declares, resolve, resolve_declaration, scope_of, scope_table,
};
use crate::syntax::{
    field_child, has_kind, lemma_document_order, named_child, node_ok, node_range, node_text, opt,
    well_formed, SyntaxNode, SyntaxTree,
};
use crate::text::substring;
use crate::types::{
    pos_le, pos_lt, DeclInfo, Position, RaceSeverity, Range, VarId, VariableInfo,
};
use vstd::prelude::*;
use vstd::string::StringSliceAdditionalSpecFns;
use vstd::utf8::{encode_utf8, is_char_boundary};

verus! {

/// Whether the source text of node `i` is the literal `lit`.
pub open spec fn text_is(nodes: Seq<SyntaxNode>, src: Seq<u8>, i: int, lit: &str) -> bool {
    node_text(nodes, src, i) == Some(lit.spec_bytes())
}

/// Whether node `i` is an identifier of some sort.
pub open spec fn is_name_kind(nodes: Seq<SyntaxNode>, i: int) -> bool {
    has_kind(nodes, i, "identifier") || has_kind(nodes, i, "field_identifier") || has_kind(
        nodes,
        i,
        "method_identifier",
    )
}

/// Whether the byte span of node `i` cuts a string out of `src`.
pub open spec fn valid_text(nodes: Seq<SyntaxNode>, src: Seq<u8>, i: int) -> bool {
    &&& nodes[i].start_byte <= nodes[i].end_byte <= src.len()
    &&& is_char_boundary(src, nodes[i].start_byte as int)
    &&& is_char_boundary(src, nodes[i].end_byte as int)
}

/// The first identifier with a valid text among the nodes `[from, upto)`.
pub open spec fn first_name_node(nodes: Seq<SyntaxNode>, src: Seq<u8>, from: int, upto: int) -> Option<
    int,
>
    decreases upto - from,
{
    if from >= upto {
        None
    } else if is_name_kind(nodes, from) && valid_text(nodes, src, from) {
        Some(from)
    } else {
        first_name_node(nodes, src, from + 1, upto)
    }
}

/// The identifier that names node `t`: `t` itself or the first identifier
/// below it.
pub open spec fn name_node(nodes: Seq<SyntaxNode>, src: Seq<u8>, t: int) -> Option<int> {
    first_name_node(nodes, src, t, nodes[t].subtree_end as int)
}

/// The first `var` declaration of `name` at package level among the nodes
/// `[from, upto)`.
pub open spec fn global_decl(
    nodes: Seq<SyntaxNode>,
    src: Seq<u8>,
    name: Seq<u8>,
    from: int,
    upto: int,
) -> Option<int>
    decreases upto - from,
{
    if from >= upto {
        None
    } else if has_kind(nodes, from, "var_spec") && scope_of(nodes, from) is None && declares(
        nodes,
        src,
        from,
        name,
    ) is Some {
        Some(from)
    } else {
        global_decl(nodes, src, name, from + 1, upto)
    }
}

/// The first field declaration of `name` among the nodes `[from, upto)`.
pub open spec fn field_decl(
    nodes: Seq<SyntaxNode>,
    src: Seq<u8>,
    name: Seq<u8>,
    from: int,
    upto: int,
) -> Option<int>
    decreases upto - from,
{
    if from >= upto {
        None
    } else if has_kind(nodes, from, "field_declaration") && named_child(
        nodes,
        src,
        from,
        "field_identifier",
        name,
    ) is Some {
        Some(from)
    } else {
        field_decl(nodes, src, name, from + 1, upto)
    }
}

/// The declaration that the identifier `j` refers to: for a variable the
/// declaration in effect at `j`, else the first `var` declaration of the
/// name at package level; for a field the first field declaration of the
/// name.
pub open spec fn declaration_of(nodes: Seq<SyntaxNode>, src: Seq<u8>, j: int) -> Option<int> {
    let name = node_text(nodes, src, j).unwrap();
    if has_kind(nodes, j, "identifier") {
        match resolve(nodes, src, name, j) {
            Some(d) => Some(d),
            None => global_decl(nodes, src, name, 0, nodes.len() as int),
        }
    } else {
        field_decl(nodes, src, name, 0, nodes.len() as int)
    }
}

/// The binding identifier of the declaration that `j` refers to.
pub open spec fn binding_of(nodes: Seq<SyntaxNode>, src: Seq<u8>, j: int) -> Option<int> {
    let name = node_text(nodes, src, j).unwrap();
    match declaration_of(nodes, src, j) {
        Some(d) => if has_kind(nodes, j, "identifier") {
            declares(nodes, src, d, name)
        } else {
            named_child(nodes, src, d, "field_identifier", name)
        },
        None => None,
    }
}

/// The range reported where no declaration is known.
pub open spec fn no_range() -> Range {
    Range { start: Position { line: 0, character: 0 }, end: Position { line: 0, character: 0 } }
}

/// The declaration range reported for the identifier `j`.
pub open spec fn declaration_range(nodes: Seq<SyntaxNode>, src: Seq<u8>, j: int) -> Range {
    match binding_of(nodes, src, j) {
        Some(b) => node_range(nodes, b),
        None => no_range(),
    }
}

/// Whether node `u` refers to what the identifier `j` refers to: the same
/// kind and text and, for a variable, the same declaration in effect.
pub open spec fn same_binding(nodes: Seq<SyntaxNode>, src: Seq<u8>, j: int, u: int) -> bool {
    let name = node_text(nodes, src, j).unwrap();
    &&& nodes[u].kind@ == nodes[j].kind@
    &&& node_text(nodes, src, u) == Some(name)
    &&& has_kind(nodes, j, "identifier") ==> resolve(nodes, src, name, u) == resolve(
        nodes,
        src,
        name,
        j,
    )
}

/// The ranges of a sequence of nodes.
pub open spec fn ranges_of(nodes: Seq<SyntaxNode>, s: Seq<int>) -> Seq<Range> {
    s.map_values(|i: int| node_range(nodes, i))
}

/// The uses of what `j` refers to among the first `k` nodes, in document
/// order: every node with the same binding, but for the declaration's own
/// range and for a range already listed.
pub open spec fn use_nodes(nodes: Seq<SyntaxNode>, src: Seq<u8>, j: int, k: int) -> Seq<int>
    decreases k,
{
    if k <= 0 {
        Seq::empty()
    } else {
        let prev = use_nodes(nodes, src, j, k - 1);
        let u = k - 1;
        if same_binding(nodes, src, j, u) && node_range(nodes, u) != declaration_range(
            nodes,
            src,
            j,
        ) && !ranges_of(nodes, prev).contains(node_range(nodes, u)) {
            prev.push(u)
        } else {
            prev
        }
    }
}

/// Kinds of types whose values are references.
pub open spec fn is_reference_type(nodes: Seq<SyntaxNode>, i: int) -> bool {
    has_kind(nodes, i, "pointer_type") || has_kind(nodes, i, "slice_type") || has_kind(
        nodes,
        i,
        "map_type",
    ) || has_kind(nodes, i, "channel_type") || has_kind(nodes, i, "function_type") || has_kind(
        nodes,
        i,
        "interface_type",
    )
}

/// Whether node `i` is a unary expression with the given operator.
pub open spec fn is_unary(nodes: Seq<SyntaxNode>, src: Seq<u8>, i: int, op: &str) -> bool {
    has_kind(nodes, i, "unary_expression") && match field_child(nodes, i, "operator") {
        Some(o) => text_is(nodes, src, o, op),
        None => false,
    }
}

/// Whether the way from node `i` to the root meets, before any other unary
/// expression, an address-of or dereference, or a reference type.
pub open spec fn pointer_context(nodes: Seq<SyntaxNode>, src: Seq<u8>, i: int) -> bool
    decreases i,
{
    if 0 <= i < nodes.len() {
        if has_kind(nodes, i, "unary_expression") {
            is_unary(nodes, src, i, "&") || is_unary(nodes, src, i, "*")
        } else if is_reference_type(nodes, i) {
            true
        } else {
            match nodes[i].parent {
                Some(p) => p < i && pointer_context(nodes, src, p as int),
                None => false,
            }
        }
    } else {
        false
    }
}

/// Whether the use `u` stands in a pointer context.
pub open spec fn use_is_pointer(nodes: Seq<SyntaxNode>, src: Seq<u8>, u: int) -> bool {
    match nodes[u].parent {
        Some(p) => pointer_context(nodes, src, p as int),
        None => false,
    }
}

/// The initializer of declaration `d`, where it has one.
pub open spec fn initializer(nodes: Seq<SyntaxNode>, d: int) -> Option<int> {
    if has_kind(nodes, d, "var_spec") {
        field_child(nodes, d, "value")
    } else if has_kind(nodes, d, "short_var_declaration") {
        field_child(nodes, d, "right")
    } else {
        None
    }
}

/// Whether declaration `d` is of a reference type or takes an address in
/// its initializer.
pub open spec fn decl_is_pointer(nodes: Seq<SyntaxNode>, src: Seq<u8>, d: int) -> bool {
    ||| match field_child(nodes, d, "type") {
        Some(t) => is_reference_type(nodes, t),
        None => false,
    }
    ||| match initializer(nodes, d) {
        Some(v) => exists|a: int|
            v <= a < nodes[v].subtree_end && #[trigger] is_unary(nodes, src, a, "&"),
        None => false,
    }
}

/// Whether what `j` refers to is used as a reference: by its declaration
/// or at one of its uses.
pub open spec fn refers_to_pointer(nodes: Seq<SyntaxNode>, src: Seq<u8>, j: int) -> bool {
    let uses = use_nodes(nodes, src, j, nodes.len() as int);
    ||| match declaration_of(nodes, src, j) {
        Some(d) => decl_is_pointer(nodes, src, d),
        None => false,
    }
    ||| exists|m: int| 0 <= m < uses.len() && use_is_pointer(nodes, src, #[trigger] uses[m])
}

/// The byte span that identifies the declaration `j` refers to.
pub open spec fn var_id_of(nodes: Seq<SyntaxNode>, src: Seq<u8>, j: int) -> VarId {
    match binding_of(nodes, src, j) {
        Some(b) => VarId { start_byte: nodes[b].start_byte, end_byte: nodes[b].end_byte },
        None => VarId { start_byte: 0, end_byte: 0 },
    }
}

/// What is reported for the identifier `j`: nothing where neither a
/// declaration nor a use is known, else the facts about its binding.
pub open spec fn describes(
    nodes: Seq<SyntaxNode>,
    src: Seq<u8>,
    j: int,
    r: Option<VariableInfo>,
) -> bool {
    let uses = use_nodes(nodes, src, j, nodes.len() as int);
    if binding_of(nodes, src, j) is None && uses.len() == 0 {
        r is None
    } else {
        &&& r is Some
        &&& encode_utf8(r.unwrap().name@) == node_text(nodes, src, j).unwrap()
        &&& r.unwrap().declaration == declaration_range(nodes, src, j)
        &&& r.unwrap().uses@ == ranges_of(nodes, uses)
        &&& r.unwrap().is_pointer == refers_to_pointer(nodes, src, j)
        &&& !r.unwrap().potential_race
        &&& r.unwrap().race_severity == RaceSeverity::Medium
        &&& r.unwrap().var_id == var_id_of(nodes, src, j)
    }
}

/// What is reported for the cursor at `p`: nothing outside the tree or
/// where the selected node names nothing, else what is reported for the
/// identifier that names the selected node.
pub open spec fn variable_at_position(
    nodes: Seq<SyntaxNode>,
    src: Seq<u8>,
    p: Position,
    r: Option<VariableInfo>,
) -> bool {
    match selected_node(nodes, p) {
        None => r is None,
        Some(t) => match name_node(nodes, src, t) {
            Some(j) => describes(nodes, src, j, r),
            None => r is None,
        },
    }
}

/// The identifier that names node `t`.
pub fn find_name_node(tree: &SyntaxTree, code: &str, t: usize) -> (r: Option<usize>)
    requires
        t < tree@.len(),
    ensures
        opt(r) == name_node(tree@, code.spec_bytes(), t as int),
        r is Some ==> r.unwrap() < tree@.len() && is_name_kind(tree@, r.unwrap() as int)
            && valid_text(tree@, code.spec_bytes(), r.unwrap() as int),
{
    let end = tree.subtree_end(t);
    let mut k: usize = t;
    while k < end
        invariant
            t <= k <= end <= tree@.len(),
            name_node(tree@, code.spec_bytes(), t as int) == first_name_node(
                tree@,
                code.spec_bytes(),
                k as int,
                end as int,
            ),
            end == tree@[t as int].subtree_end,
        decreases end - k,
    {
        if tree.kind_is(k, "identifier") || tree.kind_is(k, "field_identifier") || tree.kind_is(
            k,
            "method_identifier",
        ) {
            let node = tree.node(k);
            if crate::text::valid_span(code, node.start_byte, node.end_byte) {
                return Some(k);
            }
        }
        k += 1;
    }
    None
}

/// The name that node `t` stands for: its own text where it is an
/// identifier, else that of the first identifier below it.
pub fn extract_variable_name(tree: &SyntaxTree, code: &str, t: usize) -> (r: Option<String>)
    requires
        t < tree@.len(),
    ensures
        match name_node(tree@, code.spec_bytes(), t as int) {
            Some(j) => r is Some && encode_utf8(r.unwrap()@) == node_text(
                tree@,
                code.spec_bytes(),
                j,
            ).unwrap(),
            None => r is None,
        },
{
    match find_name_node(tree, code, t) {
        Some(j) => {
            let node = tree.node(j);
            substring(code, node.start_byte, node.end_byte)
        },
        None => None,
    }
}

/// The first `var` declaration of `name` at package level.
fn find_global_decl(tree: &SyntaxTree, src: &[u8], scopes: &Vec<Option<usize>>, name: &[u8]) -> (r:
    Option<usize>)
    requires
        scopes@.len() == tree@.len(),
        forall|i: int| 0 <= i < tree@.len() ==> opt(#[trigger] scopes@[i]) == scope_of(tree@, i),
    ensures
        opt(r) == global_decl(tree@, src@, name@, 0, tree@.len() as int),
        r is Some ==> r.unwrap() < tree@.len(),
{
    let n = tree.len();
    let mut k: usize = 0;
    while k < n
        invariant
            k <= n,
            n == tree@.len(),
            scopes@.len() == tree@.len(),
            forall|i: int|
                0 <= i < tree@.len() ==> opt(#[trigger] scopes@[i]) == scope_of(tree@, i),
            global_decl(tree@, src@, name@, 0, n as int) == global_decl(
                tree@,
                src@,
                name@,
                k as int,
                n as int,
            ),
        decreases n - k,
    {
        if tree.kind_is(k, "var_spec") && scopes[k].is_none() && declared_binding(
            tree,
            src,
            k,
            name,
        ).is_some() {
            return Some(k);
        }
        k += 1;
    }
    None
}

/// The first field declaration of `name`.
fn find_field_decl(tree: &SyntaxTree, src: &[u8], name: &[u8]) -> (r: Option<usize>)
    ensures
        opt(r) == field_decl(tree@, src@, name@, 0, tree@.len() as int),
        r is Some ==> r.unwrap() < tree@.len(),
{
    let n = tree.len();
    let mut k: usize = 0;
    while k < n
        invariant
            k <= n,
            n == tree@.len(),
            field_decl(tree@, src@, name@, 0, n as int) == field_decl(
                tree@,
                src@,
                name@,
                k as int,
                n as int,
            ),
        decreases n - k,
    {
        if tree.kind_is(k, "field_declaration") && tree.child_by_kind_and_text(
            src,
            k,
            "field_identifier",
            name,
        ).is_some() {
            return Some(k);
        }
        k += 1;
    }
    None
}

/// Whether node `i` is a reference type.
pub fn is_reference_type_node(tree: &SyntaxTree, i: usize) -> (r: bool)
    requires
        i < tree@.len(),
    ensures
        r == is_reference_type(tree@, i as int),
{
    tree.kind_is(i, "pointer_type") || tree.kind_is(i, "slice_type") || tree.kind_is(i, "map_type")
        || tree.kind_is(i, "channel_type") || tree.kind_is(i, "function_type") || tree.kind_is(
        i,
        "interface_type",
    )
}

/// Whether node `i` is a unary expression with the given operator.
pub fn is_unary_with(tree: &SyntaxTree, src: &[u8], i: usize, op: &str) -> (r: bool)
    requires
        i < tree@.len(),
    ensures
        r == is_unary(tree@, src@, i as int, op),
{
    if !tree.kind_is(i, "unary_expression") {
        return false;
    }
    let _ = tree.len();
    assert(node_ok(tree@, i as int));
    match tree.child_by_field_name(i, "operator") {
        Some(o) => tree.text_is(src, o, op.as_bytes()),
        None => false,
    }
}

/// Whether the way from node `i` to the root meets a pointer context.
pub fn check_pointer_context(tree: &SyntaxTree, src: &[u8], i: usize) -> (r: bool)
    requires
        i < tree@.len(),
    ensures
        r == pointer_context(tree@, src@, i as int),
{
    let mut k: usize = i;
    loop
        invariant
            k <= i < tree@.len(),
            pointer_context(tree@, src@, i as int) == pointer_context(tree@, src@, k as int),
        decreases k,
    {
        if tree.kind_is(k, "unary_expression") {
            return is_unary_with(tree, src, k, "&") || is_unary_with(tree, src, k, "*");
        }
        if is_reference_type_node(tree, k) {
            return true;
        }
        match tree.parent(k) {
            Some(p) => {
                k = p;
            },
            None => {
                return false;
            },
        }
    }
}

/// Whether the use `u` stands in a pointer context.
pub fn is_pointer_use(tree: &SyntaxTree, src: &[u8], u: usize) -> (r: bool)
    requires
        u < tree@.len(),
    ensures
        r == use_is_pointer(tree@, src@, u as int),
{
    match tree.parent(u) {
        Some(p) => check_pointer_context(tree, src, p),
        None => false,
    }
}

/// Whether declaration `d` is of a reference type or takes an address in
/// its initializer.
pub fn is_pointer_declaration(tree: &SyntaxTree, src: &[u8], d: usize) -> (r: bool)
    requires
        d < tree@.len(),
    ensures
        r == decl_is_pointer(tree@, src@, d as int),
{
    let n = tree.len();
    assert(node_ok(tree@, d as int));
    let by_type = match tree.child_by_field_name(d, "type") {
        Some(t) => is_reference_type_node(tree, t),
        None => false,
    };
    if by_type {
        return true;
    }
    let init = if tree.kind_is(d, "var_spec") {
        tree.child_by_field_name(d, "value")
    } else if tree.kind_is(d, "short_var_declaration") {
        tree.child_by_field_name(d, "right")
    } else {
        None
    };
    match init {
        Some(v) => {
            let end = tree.subtree_end(v);
            let mut a: usize = v;
            while a < end
                invariant
                    v <= a <= end <= tree@.len(),
                    end == tree@[v as int].subtree_end,
                    initializer(tree@, d as int) == Some(v as int),
                    forall|k: int| v <= k < a ==> !#[trigger] is_unary(tree@, src@, k, "&"),
                decreases end - a,
            {
                if is_unary_with(tree, src, a, "&") {
                    return true;
                }
                a += 1;
            }
            false
        },
        None => false,
    }
}

/// Whether `ranges` holds `r`.
pub fn contains_range(ranges: &Vec<Range>, r: Range) -> (found: bool)
    ensures
        found == ranges@.contains(r),
{
    let mut i: usize = 0;
    while i < ranges.len()
        invariant
            i <= ranges.len(),
            forall|k: int| 0 <= k < i ==> ranges@[k] != r,
        decreases ranges.len() - i,
    {
        if ranges[i] == r {
            return true;
        }
        i += 1;
    }
    false
}

/// Every use among the first `k` nodes is one of them, and the uses come
/// in increasing node order.
pub proof fn lemma_use_nodes_increasing(nodes: Seq<SyntaxNode>, src: Seq<u8>, j: int, k: int)
    ensures
        forall|a: int|
            0 <= a < use_nodes(nodes, src, j, k).len() ==> 0 <= #[trigger] use_nodes(
                nodes,
                src,
                j,
                k,
            )[a] < k,
        forall|a: int, b: int|
            0 <= a < b < use_nodes(nodes, src, j, k).len() ==> use_nodes(nodes, src, j, k)[a]
                < use_nodes(nodes, src, j, k)[b],
        forall|a: int|
            0 <= a < use_nodes(nodes, src, j, k).len() ==> node_range(
                nodes,
                #[trigger] use_nodes(nodes, src, j, k)[a],
            ) != declaration_range(nodes, src, j),
    decreases k,
{
    if k > 0 {
        lemma_use_nodes_increasing(nodes, src, j, k - 1);
        let prev = use_nodes(nodes, src, j, k - 1);
        let cur = use_nodes(nodes, src, j, k);
    }
}

/// The uses reported for the variable under a cursor are sorted by their
/// start position, line first, then column.
pub proof fn lemma_uses_in_document_order(
    nodes: Seq<SyntaxNode>,
    src: Seq<u8>,
    p: Position,
    info: VariableInfo,
    a: int,
    b: int,
)
    requires
        well_formed(nodes),
        variable_at_position(nodes, src, p, Some(info)),
        0 <= a <= b < info.uses@.len(),
    ensures
        pos_le(info.uses@[a].start, info.uses@[b].start),
{
    let j = name_node(nodes, src, selected_node(nodes, p).unwrap()).unwrap();
    let n = nodes.len() as int;
    lemma_use_nodes_increasing(nodes, src, j, n);
    let uses = use_nodes(nodes, src, j, n);
    lemma_document_order(nodes, uses[a], uses[b]);
}

/// Two uses reported for the variable under a cursor that start at
/// different positions come in strictly rising order of (line, column).
pub proof fn lemma_uses_strictly_ordered(
    nodes: Seq<SyntaxNode>,
    src: Seq<u8>,
    p: Position,
    info: VariableInfo,
    a: int,
    b: int,
)
    requires
        well_formed(nodes),
        variable_at_position(nodes, src, p, Some(info)),
        0 <= a < b < info.uses@.len(),
        info.uses@[a].start != info.uses@[b].start,
    ensures
        pos_lt(info.uses@[a].start, info.uses@[b].start),
{
    lemma_uses_in_document_order(nodes, src, p, info, a, b);
}

/// Shadowing, on what is reported: where a scope `inner` around the
/// identifier under the cursor declares its name before it, the variable
/// reported is bound by a declaration that lies in `inner` or below it
/// and never in a scope `outer` around `inner`; its range and identity
/// are those of that declaration's identifier. Where the declaration lies
/// in `inner` itself, it is the first declaration of the name there. And
/// the identity differs from that of any identifier `other` that covers
/// other bytes.
pub proof fn lemma_shadowing_identity(
    nodes: Seq<SyntaxNode>,
    src: Seq<u8>,
    p: Position,
    info: VariableInfo,
    inner: int,
    outer: int,
    other: int,
)
    requires
        well_formed(nodes),
        variable_at_position(nodes, src, p, Some(info)),
        has_kind(
            nodes,
            name_node(nodes, src, selected_node(nodes, p).unwrap()).unwrap(),
            "identifier",
        ),
        crate::scope::is_scope(nodes, inner),
        crate::scope::encloses(
            nodes,
            inner,
            name_node(nodes, src, selected_node(nodes, p).unwrap()).unwrap(),
        ),
        crate::scope::frame_decl(
            nodes,
            src,
            Some(inner),
            encode_utf8(info.name@),
            inner,
            name_node(nodes, src, selected_node(nodes, p).unwrap()).unwrap(),
        ) is Some,
        crate::scope::encloses(nodes, outer, inner),
        outer != inner,
    ensures
        ({
            let j = name_node(nodes, src, selected_node(nodes, p).unwrap()).unwrap();
            let name = encode_utf8(info.name@);
            let d = resolve(nodes, src, name, j);
            let first = crate::scope::frame_decl(nodes, src, Some(inner), name, inner, j);
            &&& d is Some
            &&& declares(nodes, src, d.unwrap(), name) is Some
            &&& scope_of(nodes, d.unwrap()) != Some(outer)
            &&& crate::scope::encloses(nodes, inner, scope_of(nodes, d.unwrap()).unwrap())
            &&& scope_of(nodes, d.unwrap()) == Some(inner) ==> d == first
            &&& info.declaration == node_range(
                nodes,
                declares(nodes, src, d.unwrap(), name).unwrap(),
            )
            &&& info.var_id == (VarId {
                start_byte: nodes[declares(nodes, src, d.unwrap(), name).unwrap()].start_byte,
                end_byte: nodes[declares(nodes, src, d.unwrap(), name).unwrap()].end_byte,
            })
            &&& (nodes[other].start_byte != nodes[declares(
                nodes,
                src,
                d.unwrap(),
                name,
            ).unwrap()].start_byte || nodes[other].end_byte != nodes[declares(
                nodes,
                src,
                d.unwrap(),
                name,
            ).unwrap()].end_byte) ==> info.var_id != (VarId {
                start_byte: nodes[other].start_byte,
                end_byte: nodes[other].end_byte,
            })
        }),
{
    let j = name_node(nodes, src, selected_node(nodes, p).unwrap()).unwrap();
    let name = encode_utf8(info.name@);
    let t = selected_node(nodes, p).unwrap();
    lemma_first_name_node(nodes, src, t, nodes[t].subtree_end as int);
    crate::scope::lemma_inner_declaration_wins(nodes, src, name, j, inner, outer);
    crate::scope::lemma_resolve_sound(nodes, src, name, j, j);
}

/// What `first_name_node` finds is an identifier with a valid text in the
/// range.
pub proof fn lemma_first_name_node(nodes: Seq<SyntaxNode>, src: Seq<u8>, from: int, upto: int)
    ensures
        match first_name_node(nodes, src, from, upto) {
            Some(j) => from <= j < upto && is_name_kind(nodes, j) && valid_text(nodes, src, j),
            None => true,
        },
    decreases upto - from,
{
    if from < upto && !(is_name_kind(nodes, from) && valid_text(nodes, src, from)) {
        lemma_first_name_node(nodes, src, from + 1, upto);
    }
}

/// The range of the declaration reported for the variable under a cursor
/// is none of the uses reported with it.
pub proof fn lemma_declaration_not_a_use(
    nodes: Seq<SyntaxNode>,
    src: Seq<u8>,
    p: Position,
    info: VariableInfo,
    a: int,
)
    requires
        variable_at_position(nodes, src, p, Some(info)),
        0 <= a < info.uses@.len(),
    ensures
        info.uses@[a] != info.declaration,
{
    let j = name_node(nodes, src, selected_node(nodes, p).unwrap()).unwrap();
    lemma_use_nodes_increasing(nodes, src, j, nodes.len() as int);
}

/// Resolving the same position in the same tree twice reports the same
/// variable: the same name, declaration, identifier and uses in the same
/// order.
pub proof fn lemma_resolution_is_deterministic(
    nodes: Seq<SyntaxNode>,
    src: Seq<u8>,
    p: Position,
    first: Option<VariableInfo>,
    second: Option<VariableInfo>,
)
    requires
        variable_at_position(nodes, src, p, first),
        variable_at_position(nodes, src, p, second),
    ensures
        first is Some <==> second is Some,
        first is Some ==> {
            &&& first.unwrap().name@ == second.unwrap().name@
            &&& first.unwrap().declaration == second.unwrap().declaration
            &&& first.unwrap().var_id == second.unwrap().var_id
            &&& first.unwrap().uses@ == second.unwrap().uses@
            &&& first.unwrap().is_pointer == second.unwrap().is_pointer
            &&& first.unwrap().potential_race == second.unwrap().potential_race
            &&& first.unwrap().race_severity == second.unwrap().race_severity
        },
{
    if first is Some {
        crate::text::lemma_encode_injective(first.unwrap().name@, second.unwrap().name@);
    }
}

/// The declaration of `name` in effect at the cursor `p`: nothing where
/// the cursor selects no identifier that reads `name`, or where no scope
/// around it declares the name before it.
pub open spec fn declaration_at(nodes: Seq<SyntaxNode>, src: Seq<u8>, name: Seq<u8>, p: Position) -> Option<
    DeclInfo,
> {
    match selected_node(nodes, p) {
        Some(t) => if has_kind(nodes, t, "identifier") && node_text(nodes, src, t) == Some(name) {
            match resolve(nodes, src, name, t) {
                Some(d) => {
                    let b = declares(nodes, src, d, name).unwrap();
                    Some(
                        DeclInfo {
                            range: node_range(nodes, b),
                            var_id: VarId {
                                start_byte: nodes[b].start_byte,
                                end_byte: nodes[b].end_byte,
                            },
                            is_pointer: decl_is_pointer(nodes, src, d),
                        },
                    )
                },
                None => None,
            }
        } else {
            None
        },
        None => None,
    }
}

/// Resolves `name` at the cursor `target`: the declaration that the
/// innermost scope around the cursor gives the name, among those that
/// declare it before the cursor.
pub fn resolve_declaration_at(tree: &SyntaxTree, code: &str, name: &str, target: Position) -> (r:
    Option<DeclInfo>)
    ensures
        r == declaration_at(tree@, code.spec_bytes(), name.spec_bytes(), target),
{
    let src = code.as_bytes();
    let text = name.as_bytes();
    match find_node_at_position(tree, target) {
        Some(t) => {
            if !(tree.kind_is(t, "identifier") && tree.text_is(src, t, text)) {
                return None;
            }
            let scopes = scope_table(tree);
            match resolve_declaration(tree, src, &scopes, text, t) {
                Some(d) => {
                    proof {
                        crate::scope::lemma_resolve_sound(tree@, src@, text@, t as int, t as int);
                    }
                    match declared_binding(tree, src, d, text) {
                        Some(b) => Some(
                            DeclInfo {
                                range: tree.range(b),
                                var_id: VarId {
                                    start_byte: tree.node(b).start_byte,
                                    end_byte: tree.node(b).end_byte,
                                },
                                is_pointer: is_pointer_declaration(tree, src, d),
                            },
                        ),
                        None => None,
                    }
                },
                None => None,
            }
        },
        None => None,
    }
}

/// The facts about what the identifier `j` refers to: its declaration, its
/// uses in document order and whether it is used as a reference.
fn collect_variable_info(tree: &SyntaxTree, code: &str, j: usize) -> (r: Option<VariableInfo>)
    requires
        j < tree@.len(),
        is_name_kind(tree@, j as int),
        valid_text(tree@, code.spec_bytes(), j as int),
    ensures
        describes(tree@, code.spec_bytes(), j as int, r),
{
    let n = tree.len();
    let src = code.as_bytes();
    let own = tree.node(j);
    let name = match substring(code, own.start_byte, own.end_byte) {
        Some(name) => name,
        None => {
            return None;
        },
    };
    let text = name.as_str().as_bytes();
    let is_variable = tree.kind_is(j, "identifier");
    let kind: &str = if is_variable {
        "identifier"
    } else if tree.kind_is(j, "field_identifier") {
        "field_identifier"
    } else {
        "method_identifier"
    };
    let scopes = scope_table(tree);
    let target = if is_variable {
        resolve_declaration(tree, src, &scopes, text, j)
    } else {
        None
    };
    let declaration = if is_variable {
        match target {
            Some(d) => Some(d),
            None => find_global_decl(tree, src, &scopes, text),
        }
    } else {
        find_field_decl(tree, src, text)
    };
    let binding = match declaration {
        Some(d) => if is_variable {
            declared_binding(tree, src, d, text)
        } else {
            assert(node_ok(tree@, d as int));
            tree.child_by_kind_and_text(src, d, "field_identifier", text)
        },
        None => None,
    };
    let declared_at = match binding {
        Some(b) => tree.range(b),
        None => Range {
            start: Position { line: 0, character: 0 },
            end: Position { line: 0, character: 0 },
        },
    };
    let var_id = match binding {
        Some(b) => VarId { start_byte: tree.node(b).start_byte, end_byte: tree.node(b).end_byte },
        None => VarId { start_byte: 0, end_byte: 0 },
    };
    let by_declaration = match declaration {
        Some(d) => is_pointer_declaration(tree, src, d),
        None => false,
    };
    let mut is_pointer = by_declaration;
    let mut uses: Vec<Range> = Vec::new();
    let ghost mut found: Seq<int> = Seq::empty();
    let mut u: usize = 0;
    while u < n
        invariant
            u <= n,
            n == tree@.len(),
            j < n,
            src@ == code.spec_bytes(),
            node_text(tree@, src@, j as int) == Some(text@),
            is_variable == has_kind(tree@, j as int, "identifier"),
            kind@ == tree@[j as int].kind@,
            scopes@.len() == tree@.len(),
            forall|i: int|
                0 <= i < tree@.len() ==> opt(#[trigger] scopes@[i]) == scope_of(tree@, i),
            is_variable ==> opt(target) == resolve(tree@, src@, text@, j as int),
            declared_at == declaration_range(tree@, src@, j as int),
            found == use_nodes(tree@, src@, j as int, u as int),
            uses@ == ranges_of(tree@, found),
            is_pointer == (by_declaration || exists|m: int|
                0 <= m < found.len() && use_is_pointer(tree@, src@, #[trigger] found[m])),
        decreases n - u,
    {
        let ghost before = found;
        let mut same = tree.kind_is(u, kind) && tree.text_is(src, u, text);
        if same && is_variable {
            let here = resolve_declaration(tree, src, &scopes, text, u);
            same = crate::syntax::same_index(here, target);
        }
        if same {
            let range = tree.range(u);
            if range != declared_at && !contains_range(&uses, range) {
                uses.push(range);
                let pointer = is_pointer_use(tree, src, u);
                proof {
                    found = before.push(u as int);
                    assert(forall|m: int| 0 <= m < before.len() ==> found[m] == before[m]);
                    assert(found[before.len() as int] == u);
                }
                if pointer {
                    is_pointer = true;
                }
            }
        }
        u += 1;
    }
    if binding.is_none() && uses.len() == 0 {
        return None;
    }
    Some(
        VariableInfo {
            name,
            declaration: declared_at,
            uses,
            is_pointer,
            potential_race: false,
            race_severity: RaceSeverity::Medium,
            var_id,
        },
    )
}

/// The variable under the cursor: the identifier that names the node at
/// `pos`, the declaration in effect for it, and every use of that
/// declaration in document order.
pub fn find_variable_at_position(tree: &SyntaxTree, code: &str, pos: Position) -> (r: Option<
    VariableInfo,
>)
    ensures
        variable_at_position(tree@, code.spec_bytes(), pos, r),
{
    match find_node_at_position(tree, pos) {
        None => None,
        Some(t) => match find_name_node(tree, code, t) {
            Some(j) => collect_variable_info(tree, code, j),
            None => None,
        },
    }
}

/// The variable under the cursor, whatever the context of the cursor: the
/// context narrows nothing, so this is `find_variable_at_position`.
pub fn find_variable_at_position_enhanced(tree: &SyntaxTree, code: &str, pos: Position) -> (r:
    Option<VariableInfo>)
    ensures
        variable_at_position(tree@, code.spec_bytes(), pos, r),
{
    find_variable_at_position(tree, code, pos)
}

} // verus!
