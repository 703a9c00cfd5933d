//! Lexical scopes: which declaration a name is bound to at a use.

use crate::syntax::{
    field_child, has_kind, kind_child, named_child, node_ok, opt, well_formed, SyntaxNode,
    SyntaxTree,
};
use vstd::prelude::*;

verus! {

/// Kinds that open a lexical scope: function, method and closure bodies,
/// blocks, and the branching statements with their cases.
pub open spec fn is_scope_kind(k: Seq<char>) -> bool {
    k == "function_declaration"@ || k == "method_declaration"@ || k == "func_literal"@ || k
        == "block"@ || k == "if_statement"@ || k == "for_statement"@ || k
        == "expression_switch_statement"@ || k == "type_switch_statement"@ || k
        == "select_statement"@ || k == "expression_case"@ || k == "default_case"@ || k
        == "type_case"@ || k == "communication_case"@
}

/// Whether node `i` opens a scope.
pub open spec fn is_scope(nodes: Seq<SyntaxNode>, i: int) -> bool {
    is_scope_kind(nodes[i].kind@)
}

/// The innermost scope that holds node `i`: `i` itself where it opens one,
/// else that of its parent. `None` at package level.
pub open spec fn scope_of(nodes: Seq<SyntaxNode>, i: int) -> Option<int>
    decreases i,
{
    if 0 <= i < nodes.len() {
        if is_scope(nodes, i) {
            Some(i)
        } else {
            match nodes[i].parent {
                Some(p) => if p < i {
                    scope_of(nodes, p as int)
                } else {
                    None
                },
                None => None,
            }
        }
    } else {
        None
    }
}

/// The node whose `identifier` children a declaration form binds: the form
/// itself for a `var` spec or a parameter, the left-hand list of a short
/// declaration or of a `:=` range clause, the alias of a type switch.
pub open spec fn binding_list(nodes: Seq<SyntaxNode>, d: int) -> Option<int> {
    if has_kind(nodes, d, "var_spec") || has_kind(nodes, d, "parameter_declaration") || has_kind(
        nodes,
        d,
        "variadic_parameter_declaration",
    ) {
        Some(d)
    } else if has_kind(nodes, d, "short_var_declaration") {
        field_child(nodes, d, "left")
    } else if has_kind(nodes, d, "range_clause") {
        if kind_child(nodes, d, ":=") is Some {
            field_child(nodes, d, "left")
        } else {
            None
        }
    } else if has_kind(nodes, d, "type_switch_statement") {
        field_child(nodes, d, "alias")
    } else {
        None
    }
}

/// The identifier by which node `d` declares `name`, if it does.
pub open spec fn declares(nodes: Seq<SyntaxNode>, src: Seq<u8>, d: int, name: Seq<u8>) -> Option<
    int,
> {
    match binding_list(nodes, d) {
        Some(l) => named_child(nodes, src, l, "identifier", name),
        None => None,
    }
}

/// The first node in `[from, upto)` that declares `name` in scope `frame`
/// (`None`: at package level).
pub open spec fn frame_decl(
    nodes: Seq<SyntaxNode>,
    src: Seq<u8>,
    frame: Option<int>,
    name: Seq<u8>,
    from: int,
    upto: int,
) -> Option<int>
    decreases upto - from,
{
    if from >= upto {
        None
    } else if scope_of(nodes, from) == frame && declares(nodes, src, from, name) is Some {
        Some(from)
    } else {
        frame_decl(nodes, src, frame, name, from + 1, upto)
    }
}

/// The declaration of `name` in effect at node `u`, looked for from node
/// `i` outwards: in each scope on the way, the first declaration of `name`
/// in that scope that comes before `u`; the innermost scope that has one
/// decides.
pub open spec fn resolve_from(
    nodes: Seq<SyntaxNode>,
    src: Seq<u8>,
    name: Seq<u8>,
    u: int,
    i: int,
) -> Option<int>
    decreases i,
{
    if 0 <= i < nodes.len() {
        let here = if is_scope(nodes, i) {
            frame_decl(nodes, src, Some(i), name, i, u)
        } else {
            None
        };
        match here {
            Some(d) => Some(d),
            None => match nodes[i].parent {
                Some(p) => if p < i {
                    resolve_from(nodes, src, name, u, p as int)
                } else {
                    None
                },
                None => None,
            },
        }
    } else {
        None
    }
}

/// The declaration of `name` in effect at node `u`; `None` where no scope
/// around `u` declares it before `u`.
pub open spec fn resolve(nodes: Seq<SyntaxNode>, src: Seq<u8>, name: Seq<u8>, u: int) -> Option<
    int,
> {
    resolve_from(nodes, src, name, u, u)
}

/// Whether scope `s` lies on the way from node `i` to the root.
pub open spec fn encloses(nodes: Seq<SyntaxNode>, s: int, i: int) -> bool
    decreases i,
{
    if 0 <= i < nodes.len() {
        i == s || match nodes[i].parent {
            Some(p) => p < i && encloses(nodes, s, p as int),
            None => false,
        }
    } else {
        false
    }
}

/// A declaration found for a use lies in a scope around the use and comes
/// before it.
pub proof fn lemma_resolve_sound(
    nodes: Seq<SyntaxNode>,
    src: Seq<u8>,
    name: Seq<u8>,
    u: int,
    i: int,
)
    requires
        resolve_from(nodes, src, name, u, i) is Some,
    ensures
        ({
            let d = resolve_from(nodes, src, name, u, i).unwrap();
            &&& declares(nodes, src, d, name) is Some
            &&& d < u
            &&& scope_of(nodes, d) is Some
            &&& encloses(nodes, scope_of(nodes, d).unwrap(), i)
        }),
    decreases i,
{
    if is_scope(nodes, i) && frame_decl(nodes, src, Some(i), name, i, u) is Some {
        lemma_frame_decl_sound(nodes, src, Some(i), name, i, u);
    } else {
        let p = nodes[i].parent.unwrap();
        lemma_resolve_sound(nodes, src, name, u, p as int);
    }
}

/// What `frame_decl` finds is the first declaration of the name in its
/// frame within the range.
pub proof fn lemma_frame_decl_sound(
    nodes: Seq<SyntaxNode>,
    src: Seq<u8>,
    frame: Option<int>,
    name: Seq<u8>,
    from: int,
    upto: int,
)
    ensures
        match frame_decl(nodes, src, frame, name, from, upto) {
            Some(d) => {
                &&& from <= d < upto
                &&& scope_of(nodes, d) == frame
                &&& declares(nodes, src, d, name) is Some
                &&& forall|k: int|
                    from <= k < d ==> !(scope_of(nodes, k) == frame && #[trigger] declares(
                        nodes,
                        src,
                        k,
                        name,
                    ) is Some)
            },
            None => forall|k: int|
                from <= k < upto ==> !(scope_of(nodes, k) == frame && #[trigger] declares(
                    nodes,
                    src,
                    k,
                    name,
                ) is Some),
        },
    decreases upto - from,
{
    if from < upto && !(scope_of(nodes, from) == frame && declares(nodes, src, from, name)
        is Some) {
        lemma_frame_decl_sound(nodes, src, frame, name, from + 1, upto);
    }
}

/// A scope on the way from a node to the root comes no later than the node.
pub proof fn lemma_encloses_bound(nodes: Seq<SyntaxNode>, s: int, i: int)
    requires
        encloses(nodes, s, i),
    ensures
        s <= i,
    decreases i,
{
    if i != s {
        lemma_encloses_bound(nodes, s, nodes[i].parent.unwrap() as int);
    }
}

/// Shadowing: where a scope `inner` around a use `u` declares `name`
/// before `u`, the declaration in effect at `u` lies in `inner` or in a
/// scope nested in it; where it lies in `inner` itself it is the first
/// declaration of `name` there; and it never lies in a scope `outer` that
/// is around `inner`.
pub proof fn lemma_inner_declaration_wins(
    nodes: Seq<SyntaxNode>,
    src: Seq<u8>,
    name: Seq<u8>,
    u: int,
    inner: int,
    outer: int,
)
    requires
        well_formed(nodes),
        0 <= u < nodes.len(),
        is_scope(nodes, inner),
        encloses(nodes, inner, u),
        frame_decl(nodes, src, Some(inner), name, inner, u) is Some,
        encloses(nodes, outer, inner),
        outer != inner,
    ensures
        resolve(nodes, src, name, u) is Some,
        encloses(nodes, inner, scope_of(nodes, resolve(nodes, src, name, u).unwrap()).unwrap()),
        scope_of(nodes, resolve(nodes, src, name, u).unwrap()) == Some(inner) ==> resolve(
            nodes,
            src,
            name,
            u,
        ) == frame_decl(nodes, src, Some(inner), name, inner, u),
        scope_of(nodes, resolve(nodes, src, name, u).unwrap()) != Some(outer),
{
    lemma_inner_wins_from(nodes, src, name, u, inner, u);
    let found = scope_of(nodes, resolve(nodes, src, name, u).unwrap()).unwrap();
    lemma_encloses_bound(nodes, inner, found);
    lemma_encloses_bound(nodes, outer, inner);
}

proof fn lemma_inner_wins_from(
    nodes: Seq<SyntaxNode>,
    src: Seq<u8>,
    name: Seq<u8>,
    u: int,
    inner: int,
    i: int,
)
    requires
        0 <= i < nodes.len(),
        is_scope(nodes, inner),
        encloses(nodes, inner, i),
        frame_decl(nodes, src, Some(inner), name, inner, u) is Some,
    ensures
        resolve_from(nodes, src, name, u, i) is Some,
        encloses(nodes, inner, scope_of(nodes, resolve_from(nodes, src, name, u, i).unwrap()).unwrap()),
        scope_of(nodes, resolve_from(nodes, src, name, u, i).unwrap()) == Some(inner)
            ==> resolve_from(nodes, src, name, u, i) == frame_decl(
            nodes,
            src,
            Some(inner),
            name,
            inner,
            u,
        ),
    decreases i,
{
    let here = if is_scope(nodes, i) {
        frame_decl(nodes, src, Some(i), name, i, u)
    } else {
        None
    };
    if here is Some {
        lemma_frame_decl_sound(nodes, src, Some(i), name, i, u);
    } else {
        let p = nodes[i].parent.unwrap();
        lemma_inner_wins_from(nodes, src, name, u, inner, p as int);
    }
}

/// For every node its innermost scope, in one pass.
pub fn scope_table(tree: &SyntaxTree) -> (table: Vec<Option<usize>>)
    ensures
        table@.len() == tree@.len(),
        forall|i: int| 0 <= i < tree@.len() ==> opt(#[trigger] table@[i]) == scope_of(tree@, i),
{
    let n = tree.len();
    let mut table: Vec<Option<usize>> = Vec::new();
    let mut i: usize = 0;
    while i < n
        invariant
            i <= n,
            n == tree@.len(),
            table@.len() == i,
            forall|k: int| 0 <= k < i ==> opt(#[trigger] table@[k]) == scope_of(tree@, k),
        decreases n - i,
    {
        let entry = if is_scope_node(tree, i) {
            Some(i)
        } else {
            match tree.parent(i) {
                Some(p) => table[p],
                None => None,
            }
        };
        table.push(entry);
        i += 1;
    }
    table
}

/// Whether node `i` opens a scope.
pub fn is_scope_node(tree: &SyntaxTree, i: usize) -> (r: bool)
    requires
        i < tree@.len(),
    ensures
        r == is_scope(tree@, i as int),
{
    tree.kind_is(i, "function_declaration") || tree.kind_is(i, "method_declaration")
        || tree.kind_is(i, "func_literal") || tree.kind_is(i, "block") || tree.kind_is(
        i,
        "if_statement",
    ) || tree.kind_is(i, "for_statement") || tree.kind_is(i, "expression_switch_statement")
        || tree.kind_is(i, "type_switch_statement") || tree.kind_is(i, "select_statement")
        || tree.kind_is(i, "expression_case") || tree.kind_is(i, "default_case") || tree.kind_is(
        i,
        "type_case",
    ) || tree.kind_is(i, "communication_case")
}

/// The node whose identifier children declaration form `d` binds.
pub fn binding_list_of(tree: &SyntaxTree, d: usize) -> (r: Option<usize>)
    requires
        d < tree@.len(),
    ensures
        opt(r) == binding_list(tree@, d as int),
        r is Some ==> r.unwrap() < tree@.len(),
{
    let _ = tree.len();
    assert(node_ok(tree@, d as int));
    if tree.kind_is(d, "var_spec") || tree.kind_is(d, "parameter_declaration") || tree.kind_is(
        d,
        "variadic_parameter_declaration",
    ) {
        Some(d)
    } else if tree.kind_is(d, "short_var_declaration") {
        tree.child_by_field_name(d, "left")
    } else if tree.kind_is(d, "range_clause") {
        if tree.child_by_kind(d, ":=").is_some() {
            tree.child_by_field_name(d, "left")
        } else {
            None
        }
    } else if tree.kind_is(d, "type_switch_statement") {
        tree.child_by_field_name(d, "alias")
    } else {
        None
    }
}

/// The identifier by which node `d` declares `name`, if it does.
pub fn declared_binding(tree: &SyntaxTree, src: &[u8], d: usize, name: &[u8]) -> (r: Option<usize>)
    requires
        d < tree@.len(),
    ensures
        opt(r) == declares(tree@, src@, d as int, name@),
        r is Some ==> r.unwrap() < tree@.len(),
{
    let _ = tree.len();
    match binding_list_of(tree, d) {
        Some(l) => {
            assert(node_ok(tree@, l as int));
            tree.child_by_kind_and_text(src, l, "identifier", name)
        },
        None => None,
    }
}

/// The first node in `[from, upto)` that declares `name` in scope `frame`.
fn find_frame_decl(
    tree: &SyntaxTree,
    src: &[u8],
    scopes: &Vec<Option<usize>>,
    frame: Option<usize>,
    name: &[u8],
    from: usize,
    upto: usize,
) -> (r: Option<usize>)
    requires
        upto <= tree@.len(),
        scopes@.len() == tree@.len(),
        forall|i: int| 0 <= i < tree@.len() ==> opt(#[trigger] scopes@[i]) == scope_of(tree@, i),
    ensures
        opt(r) == frame_decl(tree@, src@, opt(frame), name@, from as int, upto as int),
        r is Some ==> r.unwrap() < upto,
{
    let mut k: usize = from;
    while k < upto
        invariant
            from <= k,
            upto <= tree@.len(),
            scopes@.len() == tree@.len(),
            forall|i: int|
                0 <= i < tree@.len() ==> opt(#[trigger] scopes@[i]) == scope_of(tree@, i),
            frame_decl(tree@, src@, opt(frame), name@, from as int, upto as int) == frame_decl(
                tree@,
                src@,
                opt(frame),
                name@,
                k as int,
                upto as int,
            ),
        decreases upto - k,
    {
        if crate::syntax::same_index(scopes[k], frame) {
            if declared_binding(tree, src, k, name).is_some() {
                return Some(k);
            }
        }
        k += 1;
    }
    None
}

/// The declaration of `name` in effect at node `u`.
pub(crate) fn resolve_declaration(
    tree: &SyntaxTree,
    src: &[u8],
    scopes: &Vec<Option<usize>>,
    name: &[u8],
    u: usize,
) -> (r: Option<usize>)
    requires
        u < tree@.len(),
        scopes@.len() == tree@.len(),
        forall|i: int| 0 <= i < tree@.len() ==> opt(#[trigger] scopes@[i]) == scope_of(tree@, i),
    ensures
        opt(r) == resolve(tree@, src@, name@, u as int),
        r is Some ==> r.unwrap() < u,
{
    let mut i: usize = u;
    loop
        invariant
            i <= u < tree@.len(),
            scopes@.len() == tree@.len(),
            forall|k: int|
                0 <= k < tree@.len() ==> opt(#[trigger] scopes@[k]) == scope_of(tree@, k),
            resolve(tree@, src@, name@, u as int) == resolve_from(
                tree@,
                src@,
                name@,
                u as int,
                i as int,
            ),
        decreases i,
    {
        if is_scope_node(tree, i) {
            let found = find_frame_decl(tree, src, scopes, Some(i), name, i, u);
            if found.is_some() {
                return found;
            }
        }
        match tree.parent(i) {
            Some(p) => {
                i = p;
            },
            None => {
                return None;
            },
        }
    }
}

} // verus!
