//! Concurrency context of an access: goroutines, captures, writes and the
//! severity of a possible race.

use crate::cursor::{find_node_at_position, is_position_in_node_range, selected_node, spans};
use crate::sync::{is_synchronized_at, known_sync_funcs, sync_functions, synchronized_at};
use crate::syntax::{field_child, has_kind, node_text, opt, SyntaxNode, SyntaxTree};
use crate::types::{Position, RaceSeverity, Range};
use vstd::prelude::*;
use vstd::string::StringSliceAdditionalSpecFns;

verus! {

/// The first `go` statement among the nodes `[from, upto)` that spans `p`.
pub open spec fn first_goroutine(nodes: Seq<SyntaxNode>, p: Position, from: int, upto: int) -> Option<
    int,
>
    decreases upto - from,
{
    if from >= upto {
        None
    } else if has_kind(nodes, from, "go_statement") && spans(nodes, from, p) {
        Some(from)
    } else {
        first_goroutine(nodes, p, from + 1, upto)
    }
}

/// Whether `p` lies inside a `go` statement.
pub open spec fn in_goroutine(nodes: Seq<SyntaxNode>, p: Position) -> bool {
    first_goroutine(nodes, p, 0, nodes.len() as int) is Some
}

/// `in_goroutine` says that some `go` statement spans the position.
pub proof fn lemma_in_goroutine(nodes: Seq<SyntaxNode>, p: Position, from: int, upto: int)
    requires
        0 <= from,
    ensures
        first_goroutine(nodes, p, from, upto) is Some <==> exists|g: int|
            from <= g < upto && #[trigger] has_kind(nodes, g, "go_statement") && spans(nodes, g, p),
    decreases upto - from,
{
    if from < upto {
        lemma_in_goroutine(nodes, p, from + 1, upto);
    }
}

/// The nearest closure or `go` statement around node `i`, `i` included.
pub open spec fn closure_boundary(nodes: Seq<SyntaxNode>, i: int) -> Option<int>
    decreases i,
{
    if 0 <= i < nodes.len() {
        if has_kind(nodes, i, "func_literal") || has_kind(nodes, i, "go_statement") {
            Some(i)
        } else {
            match nodes[i].parent {
                Some(p) => if p < i {
                    closure_boundary(nodes, p as int)
                } else {
                    None
                },
                None => None,
            }
        }
    } else {
        None
    }
}

/// The nearest function or method declaration around node `i`, `i`
/// included.
pub open spec fn enclosing_function(nodes: Seq<SyntaxNode>, i: int) -> Option<int>
    decreases i,
{
    if 0 <= i < nodes.len() {
        if has_kind(nodes, i, "function_declaration") || has_kind(nodes, i, "method_declaration") {
            Some(i)
        } else {
            match nodes[i].parent {
                Some(p) => if p < i {
                    enclosing_function(nodes, p as int)
                } else {
                    None
                },
                None => None,
            }
        }
    } else {
        None
    }
}

/// The first function or method declaration among the nodes
/// `[from, upto)` that spans `p`.
pub open spec fn first_function(nodes: Seq<SyntaxNode>, p: Position, from: int, upto: int) -> Option<
    int,
>
    decreases upto - from,
{
    if from >= upto {
        None
    } else if (has_kind(nodes, from, "function_declaration") || has_kind(
        nodes,
        from,
        "method_declaration",
    )) && spans(nodes, from, p) {
        Some(from)
    } else {
        first_function(nodes, p, from + 1, upto)
    }
}

/// Whether the use at `u` is a capture of what is declared at `d`: the use
/// stands in a closure or `go` statement that is not the nearest one
/// around the declaration.
pub open spec fn captured(nodes: Seq<SyntaxNode>, u: int, d: int) -> bool {
    closure_boundary(nodes, u) is Some && closure_boundary(nodes, u) != closure_boundary(nodes, d)
}

/// The expression that node `t` names: the selector whose field it is,
/// else `t` itself.
pub open spec fn named_expression(nodes: Seq<SyntaxNode>, t: int) -> int {
    match nodes[t].parent {
        Some(p) => if has_kind(nodes, p as int, "selector_expression") && field_child(
            nodes,
            p as int,
            "field",
        ) == Some(t) {
            p as int
        } else {
            t
        },
        None => t,
    }
}

/// The statement that holds the expression that node `t` names: the
/// parent of the expression, or the parent of the expression list it
/// stands in.
pub open spec fn statement_of(nodes: Seq<SyntaxNode>, t: int) -> Option<int> {
    let e = named_expression(nodes, t);
    match nodes[e].parent {
        Some(p) => if has_kind(nodes, p as int, "expression_list") {
            opt(nodes[p as int].parent)
        } else {
            Some(p as int)
        },
        None => None,
    }
}

/// The left-hand side of the assignment that node `t` stands on the left
/// of, if it does.
pub open spec fn assigned_in(nodes: Seq<SyntaxNode>, t: int) -> Option<int> {
    match statement_of(nodes, t) {
        Some(s) => if has_kind(nodes, s, "assignment_statement") {
            match field_child(nodes, s, "left") {
                Some(l) => if l <= t < nodes[l].subtree_end {
                    Some(l)
                } else {
                    None
                },
                None => None,
            }
        } else {
            None
        },
        None => None,
    }
}

/// Whether node `k` is a variable or field identifier that reads `name`.
pub open spec fn reads_name(nodes: Seq<SyntaxNode>, src: Seq<u8>, k: int, name: Seq<u8>) -> bool {
    (has_kind(nodes, k, "identifier") || has_kind(nodes, k, "field_identifier")) && node_text(
        nodes,
        src,
        k,
    ) == Some(name)
}

/// Whether the subtree of `l` holds a variable or field identifier that
/// reads `name`.
pub open spec fn contains_name(nodes: Seq<SyntaxNode>, src: Seq<u8>, l: int, name: Seq<u8>) -> bool {
    exists|k: int| l <= k < nodes[l].subtree_end && #[trigger] reads_name(nodes, src, k, name)
}

/// Whether node `t` stands on the left of an assignment that assigns to
/// `name`.
pub open spec fn reassigned_at(nodes: Seq<SyntaxNode>, src: Seq<u8>, t: int, name: Seq<u8>) -> bool {
    match assigned_in(nodes, t) {
        Some(l) => contains_name(nodes, src, l, name),
        None => false,
    }
}

/// Whether node `t` is written: assigned to, incremented or decremented.
pub open spec fn written_at(nodes: Seq<SyntaxNode>, t: int) -> bool {
    assigned_in(nodes, t) is Some || match statement_of(nodes, t) {
        Some(s) => has_kind(nodes, s, "inc_statement") || has_kind(nodes, s, "dec_statement"),
        None => false,
    }
}

/// The severity of a possible race at position `p`, where `funcs` are the
/// functions taken to synchronize: low where the access is synchronized;
/// else high inside a goroutine or at a write; else medium.
pub open spec fn severity_given(
    nodes: Seq<SyntaxNode>,
    src: Seq<u8>,
    p: Position,
    funcs: Seq<usize>,
) -> RaceSeverity {
    let t = selected_node(nodes, p);
    if t is Some && synchronized_at(nodes, src, t.unwrap(), funcs) {
        RaceSeverity::Low
    } else if in_goroutine(nodes, p) || (t is Some && written_at(nodes, t.unwrap())) {
        RaceSeverity::High
    } else {
        RaceSeverity::Medium
    }
}

/// The severity of a possible race at position `p`, with the functions of
/// the file whose bodies synchronize taken to synchronize.
pub open spec fn race_severity(nodes: Seq<SyntaxNode>, src: Seq<u8>, p: Position) -> RaceSeverity {
    severity_given(nodes, src, p, sync_functions(nodes, src, nodes.len() as int))
}

/// The first `go` statement that spans `p`.
pub fn find_goroutine_context(tree: &SyntaxTree, p: Position) -> (r: Option<usize>)
    ensures
        opt(r) == first_goroutine(tree@, p, 0, tree@.len() as int),
        r is Some ==> r.unwrap() < tree@.len(),
{
    let n = tree.len();
    let mut g: usize = 0;
    while g < n
        invariant
            g <= n,
            n == tree@.len(),
            first_goroutine(tree@, p, 0, n as int) == first_goroutine(tree@, p, g as int, n as int),
        decreases n - g,
    {
        if tree.kind_is(g, "go_statement") && is_position_in_node_range(tree, g, p) {
            return Some(g);
        }
        g += 1;
    }
    None
}

/// Whether the start of `range` lies inside a `go` statement.
pub fn is_in_goroutine(tree: &SyntaxTree, range: Range) -> (r: bool)
    ensures
        r == in_goroutine(tree@, range.start),
{
    find_goroutine_context(tree, range.start).is_some()
}

/// The first function or method declaration that spans `p`.
pub fn find_function_scope(tree: &SyntaxTree, p: Position) -> (r: Option<usize>)
    ensures
        opt(r) == first_function(tree@, p, 0, tree@.len() as int),
        r is Some ==> r.unwrap() < tree@.len(),
{
    let n = tree.len();
    let mut f: usize = 0;
    while f < n
        invariant
            f <= n,
            n == tree@.len(),
            first_function(tree@, p, 0, n as int) == first_function(tree@, p, f as int, n as int),
        decreases n - f,
    {
        if (tree.kind_is(f, "function_declaration") || tree.kind_is(f, "method_declaration"))
            && is_position_in_node_range(tree, f, p) {
            return Some(f);
        }
        f += 1;
    }
    None
}

/// The nearest function or method declaration around node `i`.
pub fn find_enclosing_function(tree: &SyntaxTree, i: usize) -> (r: Option<usize>)
    requires
        i < tree@.len(),
    ensures
        opt(r) == enclosing_function(tree@, i as int),
        r is Some ==> r.unwrap() <= i,
{
    let mut k: usize = i;
    loop
        invariant
            k <= i < tree@.len(),
            enclosing_function(tree@, i as int) == enclosing_function(tree@, k as int),
        decreases k,
    {
        if tree.kind_is(k, "function_declaration") || tree.kind_is(k, "method_declaration") {
            return Some(k);
        }
        match tree.parent(k) {
            Some(p) => {
                k = p;
            },
            None => {
                return None;
            },
        }
    }
}

/// The nearest closure or `go` statement around node `i`.
pub fn find_enclosing_closure_or_goroutine(tree: &SyntaxTree, i: usize) -> (r: Option<usize>)
    requires
        i < tree@.len(),
    ensures
        opt(r) == closure_boundary(tree@, i as int),
        r is Some ==> r.unwrap() <= i,
{
    let mut k: usize = i;
    loop
        invariant
            k <= i < tree@.len(),
            closure_boundary(tree@, i as int) == closure_boundary(tree@, k as int),
        decreases k,
    {
        if tree.kind_is(k, "func_literal") || tree.kind_is(k, "go_statement") {
            return Some(k);
        }
        match tree.parent(k) {
            Some(p) => {
                k = p;
            },
            None => {
                return None;
            },
        }
    }
}

/// Whether the use at node `u` is a capture of what node `d` declares.
pub fn is_captured_in_different_scope(tree: &SyntaxTree, u: usize, d: usize) -> (r: bool)
    requires
        u < tree@.len(),
        d < tree@.len(),
    ensures
        r == captured(tree@, u as int, d as int),
{
    let of_use = find_enclosing_closure_or_goroutine(tree, u);
    let of_decl = find_enclosing_closure_or_goroutine(tree, d);
    of_use.is_some() && !crate::syntax::same_index(of_use, of_decl)
}

/// Whether the use at `use_range` refers, from inside a closure or `go`
/// statement, to a variable declared outside it at `declaration_range`.
pub fn is_variable_captured(
    tree: &SyntaxTree,
    var_name: &str,
    use_range: Range,
    declaration_range: Range,
) -> (r: bool)
    ensures
        r == match (
            selected_node(tree@, use_range.start),
            selected_node(tree@, declaration_range.start),
        ) {
            (Some(u), Some(d)) => captured(tree@, u, d),
            _ => false,
        },
{
    match (
        find_node_at_position(tree, use_range.start),
        find_node_at_position(tree, declaration_range.start),
    ) {
        (Some(u), Some(d)) => is_captured_in_different_scope(tree, u, d),
        _ => false,
    }
}

/// The expression that node `t` names.
pub fn find_named_expression(tree: &SyntaxTree, t: usize) -> (e: usize)
    requires
        t < tree@.len(),
    ensures
        e == named_expression(tree@, t as int),
        e <= t,
{
    let _ = tree.len();
    match tree.parent(t) {
        Some(p) => {
            if tree.kind_is(p, "selector_expression") && crate::syntax::same_index(
                tree.child_by_field_name(p, "field"),
                Some(t),
            ) {
                p
            } else {
                t
            }
        },
        None => t,
    }
}

/// The statement that holds the expression that node `t` names.
pub fn find_statement(tree: &SyntaxTree, t: usize) -> (r: Option<usize>)
    requires
        t < tree@.len(),
    ensures
        opt(r) == statement_of(tree@, t as int),
        r is Some ==> r.unwrap() < t,
{
    let e = find_named_expression(tree, t);
    match tree.parent(e) {
        Some(p) => if tree.kind_is(p, "expression_list") {
            tree.parent(p)
        } else {
            Some(p)
        },
        None => None,
    }
}

/// The left-hand side of the assignment that node `t` stands on the left
/// of.
pub fn find_assigned_side(tree: &SyntaxTree, t: usize) -> (r: Option<usize>)
    requires
        t < tree@.len(),
    ensures
        opt(r) == assigned_in(tree@, t as int),
        r is Some ==> r.unwrap() < tree@.len(),
{
    let _ = tree.len();
    match find_statement(tree, t) {
        Some(s) => {
            if tree.kind_is(s, "assignment_statement") {
                match tree.child_by_field_name(s, "left") {
                    Some(l) => if l <= t && t < tree.subtree_end(l) {
                        Some(l)
                    } else {
                        None
                    },
                    None => None,
                }
            } else {
                None
            }
        },
        None => None,
    }
}

/// Whether the subtree of `l` holds a variable or field identifier that
/// reads `name`.
pub fn contains_variable_name(tree: &SyntaxTree, src: &[u8], l: usize, name: &[u8]) -> (r: bool)
    requires
        l < tree@.len(),
    ensures
        r == contains_name(tree@, src@, l as int, name@),
{
    let end = tree.subtree_end(l);
    let mut k: usize = l;
    while k < end
        invariant
            l <= k <= end <= tree@.len(),
            end == tree@[l as int].subtree_end,
            forall|w: int| l <= w < k ==> !#[trigger] reads_name(tree@, src@, w, name@),
        decreases end - k,
    {
        if (tree.kind_is(k, "identifier") || tree.kind_is(k, "field_identifier")) && tree.text_is(
            src,
            k,
            name,
        ) {
            assert(reads_name(tree@, src@, k as int, name@));
            return true;
        }
        k += 1;
    }
    false
}

/// Whether the use at `use_range` assigns to `var_name`: it stands on the
/// left of a plain assignment whose left side names the variable. A short
/// declaration is no reassignment.
pub fn is_variable_reassignment(tree: &SyntaxTree, var_name: &str, use_range: Range, code: &str) -> (r:
    bool)
    ensures
        r == match selected_node(tree@, use_range.start) {
            Some(t) => reassigned_at(tree@, code.spec_bytes(), t, var_name.spec_bytes()),
            None => false,
        },
{
    match find_node_at_position(tree, use_range.start) {
        Some(t) => match find_assigned_side(tree, t) {
            Some(l) => contains_variable_name(tree, code.as_bytes(), l, var_name.as_bytes()),
            None => false,
        },
        None => false,
    }
}

/// Whether node `t` is written.
pub fn is_write_access(tree: &SyntaxTree, t: usize) -> (r: bool)
    requires
        t < tree@.len(),
    ensures
        r == written_at(tree@, t as int),
{
    if find_assigned_side(tree, t).is_some() {
        return true;
    }
    match find_statement(tree, t) {
        Some(s) => tree.kind_is(s, "inc_statement") || tree.kind_is(s, "dec_statement"),
        None => false,
    }
}

/// The severity of a possible race at the start of `range`, where
/// `known_sync_funcs` lists the functions taken to synchronize.
pub fn race_severity_with(
    tree: &SyntaxTree,
    range: Range,
    code: &str,
    known_sync_funcs: &Vec<usize>,
) -> (r: RaceSeverity)
    ensures
        r == severity_given(tree@, code.spec_bytes(), range.start, known_sync_funcs@),
{
    let t = find_node_at_position(tree, range.start);
    let synchronized = match t {
        Some(t) => is_synchronized_at(tree, code.as_bytes(), t, known_sync_funcs),
        None => false,
    };
    if synchronized {
        return RaceSeverity::Low;
    }
    let written = match t {
        Some(t) => is_write_access(tree, t),
        None => false,
    };
    if is_in_goroutine(tree, range) || written {
        RaceSeverity::High
    } else {
        RaceSeverity::Medium
    }
}

/// The severity of a possible race at the start of `range`: low where the
/// access is synchronized; else high inside a goroutine or at a write;
/// else medium.
pub fn determine_race_severity(tree: &SyntaxTree, range: Range, code: &str) -> (r: RaceSeverity)
    ensures
        r == race_severity(tree@, code.spec_bytes(), range.start),
{
    let funcs = known_sync_funcs(tree, code);
    race_severity_with(tree, range, code, &funcs)
}

} // verus!
