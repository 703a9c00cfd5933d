//! How a variable is used inside the goroutines of a file.

use crate::concurrency::{assigned_in, find_assigned_side, find_statement, statement_of};
use crate::resolve::{is_unary, is_unary_with};
use crate::syntax::{
    field_child, has_kind, is_child, node_ok, node_range, node_text, well_formed, SyntaxNode,
    SyntaxTree,
};
use crate::text::{contains_bytes, occurs_in};
use crate::types::{
    GoroutineType, GoroutineUsage, RaceSeverity, VariableAccess, VariableAccessType,
};
use vstd::prelude::*;
use vstd::string::StringExecFns;
use vstd::string::StringSliceAdditionalSpecFns;

verus! {

/// How identifier `k` is touched: its address taken or dereferenced by a
/// unary operator, written on the left of an assignment, modified by an
/// increment or decrement, else read.
pub open spec fn access_type_at(nodes: Seq<SyntaxNode>, src: Seq<u8>, k: int) -> VariableAccessType {
    match nodes[k].parent {
        None => VariableAccessType::Read,
        Some(p) => if has_kind(nodes, p as int, "unary_expression") {
            if is_unary(nodes, src, p as int, "&") {
                VariableAccessType::AddressOf
            } else if is_unary(nodes, src, p as int, "*") {
                VariableAccessType::Dereference
            } else {
                VariableAccessType::Read
            }
        } else if assigned_in(nodes, k) is Some {
            VariableAccessType::Write
        } else {
            match statement_of(nodes, k) {
                Some(s) => if has_kind(nodes, s, "inc_statement") || has_kind(
                    nodes,
                    s,
                    "dec_statement",
                ) {
                    VariableAccessType::Modify
                } else {
                    VariableAccessType::Read
                },
                None => VariableAccessType::Read,
            }
        },
    }
}

/// The words for the place of an access, by the kind of its parent.
pub open spec fn access_context(nodes: Seq<SyntaxNode>, k: int) -> Seq<char> {
    match nodes[k].parent {
        None => "unknown"@,
        Some(p) => if has_kind(nodes, p as int, "call_expression") {
            "function call"@
        } else if has_kind(nodes, p as int, "assignment_statement") {
            "assignment"@
        } else if has_kind(nodes, p as int, "if_statement") {
            "conditional"@
        } else if has_kind(nodes, p as int, "for_statement") {
            "loop"@
        } else if has_kind(nodes, p as int, "return_statement") {
            "return"@
        } else if has_kind(nodes, p as int, "send_statement") {
            "channel send"@
        } else {
            nodes[p as int].kind@
        },
    }
}

/// What the `go` statement `g` launches, judged by its children from slot
/// `c` on: a closure, a called closure, a method call through a selector,
/// another call or a bare name.
pub open spec fn goroutine_type_from(nodes: Seq<SyntaxNode>, g: int, c: int) -> GoroutineType
    decreases nodes.len() - c,
{
    if 0 <= g < c < nodes.len() && c < nodes[g].subtree_end && c < nodes[c].subtree_end
        <= nodes.len() {
        if has_kind(nodes, c, "func_literal") {
            GoroutineType::AnonymousFunction
        } else if has_kind(nodes, c, "call_expression") && field_child(nodes, c, "function")
            is Some {
            let f = field_child(nodes, c, "function").unwrap();
            if has_kind(nodes, f, "func_literal") {
                GoroutineType::AnonymousFunction
            } else if has_kind(nodes, f, "selector_expression") {
                GoroutineType::MethodCall
            } else {
                GoroutineType::FunctionCall
            }
        } else if has_kind(nodes, c, "identifier") {
            GoroutineType::FunctionCall
        } else {
            goroutine_type_from(nodes, g, nodes[c].subtree_end as int)
        }
    } else {
        GoroutineType::Unknown
    }
}

/// The identifiers that read `name` among the nodes `[g, k)`.
pub open spec fn access_nodes(nodes: Seq<SyntaxNode>, src: Seq<u8>, g: int, name: Seq<u8>, k: int) -> Seq<
    int,
>
    decreases k - g,
{
    if k <= g {
        Seq::empty()
    } else if has_kind(nodes, k - 1, "identifier") && node_text(nodes, src, k - 1) == Some(name) {
        access_nodes(nodes, src, g, name, k - 1).push(k - 1)
    } else {
        access_nodes(nodes, src, g, name, k - 1)
    }
}

/// Whether the source mentions locking or atomics anywhere.
pub open spec fn mentions_sync(src: Seq<u8>) -> bool {
    occurs_in(src, "Lock".spec_bytes()) || occurs_in(src, "Unlock".spec_bytes()) || occurs_in(
        src,
        "atomic.".spec_bytes(),
    )
}

/// Whether one of the accesses writes or modifies.
pub open spec fn any_write(accesses: Seq<VariableAccess>) -> bool {
    exists|m: int|
        0 <= m < accesses.len() && ((#[trigger] accesses[m]).access_type
            == VariableAccessType::Write || accesses[m].access_type == VariableAccessType::Modify)
}

/// Whether one of the accesses takes the address.
pub open spec fn any_address(accesses: Seq<VariableAccess>) -> bool {
    exists|m: int|
        0 <= m < accesses.len() && (#[trigger] accesses[m]).access_type
            == VariableAccessType::AddressOf
}

/// The race level of a goroutine's accesses: low where the source
/// mentions synchronization; else high where an access writes, modifies
/// or takes the address; else medium.
pub open spec fn usage_severity(accesses: Seq<VariableAccess>, src: Seq<u8>) -> RaceSeverity {
    if mentions_sync(src) {
        RaceSeverity::Low
    } else if any_write(accesses) || any_address(accesses) {
        RaceSeverity::High
    } else {
        RaceSeverity::Medium
    }
}

/// Whether `a` describes the access at identifier `k`.
pub open spec fn access_matches(nodes: Seq<SyntaxNode>, src: Seq<u8>, k: int, a: VariableAccess) -> bool {
    &&& a.range == node_range(nodes, k)
    &&& a.access_type == access_type_at(nodes, src, k)
    &&& a.context@ == access_context(nodes, k)
}

/// Whether `u` describes the accesses to `name` inside the `go` statement
/// `g`.
pub open spec fn usage_matches(
    nodes: Seq<SyntaxNode>,
    src: Seq<u8>,
    name: Seq<u8>,
    g: int,
    u: GoroutineUsage,
) -> bool {
    let found = access_nodes(nodes, src, g, name, nodes[g].subtree_end as int);
    &&& u.goroutine_range == node_range(nodes, g)
    &&& u.goroutine_type == goroutine_type_from(nodes, g, g + 1)
    &&& u.variable_accesses@.len() == found.len()
    &&& forall|m: int|
        0 <= m < found.len() ==> access_matches(nodes, src, found[m], #[trigger] u.variable_accesses@[m])
    &&& u.potential_race_level == usage_severity(u.variable_accesses@, src)
}

/// The `go` statements among the first `k` nodes inside which `name` is
/// read.
pub open spec fn usage_nodes(nodes: Seq<SyntaxNode>, src: Seq<u8>, name: Seq<u8>, k: int) -> Seq<int>
    decreases k,
{
    if k <= 0 {
        Seq::empty()
    } else if has_kind(nodes, k - 1, "go_statement") && access_nodes(
        nodes,
        src,
        k - 1,
        name,
        nodes[k - 1].subtree_end as int,
    ).len() > 0 {
        usage_nodes(nodes, src, name, k - 1).push(k - 1)
    } else {
        usage_nodes(nodes, src, name, k - 1)
    }
}

/// How identifier `k` is touched.
pub fn determine_access_type(tree: &SyntaxTree, src: &[u8], k: usize) -> (r: VariableAccessType)
    requires
        k < tree@.len(),
    ensures
        r == access_type_at(tree@, src@, k as int),
{
    match tree.parent(k) {
        None => VariableAccessType::Read,
        Some(p) => if tree.kind_is(p, "unary_expression") {
            if is_unary_with(tree, src, p, "&") {
                VariableAccessType::AddressOf
            } else if is_unary_with(tree, src, p, "*") {
                VariableAccessType::Dereference
            } else {
                VariableAccessType::Read
            }
        } else if find_assigned_side(tree, k).is_some() {
            VariableAccessType::Write
        } else {
            match find_statement(tree, k) {
                Some(s) => if tree.kind_is(s, "inc_statement") || tree.kind_is(
                    s,
                    "dec_statement",
                ) {
                    VariableAccessType::Modify
                } else {
                    VariableAccessType::Read
                },
                None => VariableAccessType::Read,
            }
        },
    }
}

/// The words for the place of the access at identifier `k`.
pub fn get_access_context(tree: &SyntaxTree, k: usize) -> (r: String)
    requires
        k < tree@.len(),
    ensures
        r@ == access_context(tree@, k as int),
{
    match tree.parent(k) {
        None => String::from_str("unknown"),
        Some(p) => if tree.kind_is(p, "call_expression") {
            String::from_str("function call")
        } else if tree.kind_is(p, "assignment_statement") {
            String::from_str("assignment")
        } else if tree.kind_is(p, "if_statement") {
            String::from_str("conditional")
        } else if tree.kind_is(p, "for_statement") {
            String::from_str("loop")
        } else if tree.kind_is(p, "return_statement") {
            String::from_str("return")
        } else if tree.kind_is(p, "send_statement") {
            String::from_str("channel send")
        } else {
            tree.node(p).kind.clone()
        },
    }
}

/// What the `go` statement `g` launches.
pub fn classify_goroutine_type(tree: &SyntaxTree, g: usize) -> (r: GoroutineType)
    requires
        g < tree@.len(),
    ensures
        r == goroutine_type_from(tree@, g as int, g + 1),
{
    let _ = tree.len();
    let end = tree.subtree_end(g);
    let mut c: usize = tree.first_child_slot(g);
    while c < end
        invariant
            g < c <= end <= tree@.len(),
            end == tree@[g as int].subtree_end,
            well_formed(tree@),
            c < end ==> is_child(tree@, g as int, c as int),
            goroutine_type_from(tree@, g as int, g + 1) == goroutine_type_from(
                tree@,
                g as int,
                c as int,
            ),
        decreases end - c,
    {
        assert(node_ok(tree@, c as int));
        if tree.kind_is(c, "func_literal") {
            return GoroutineType::AnonymousFunction;
        }
        if tree.kind_is(c, "call_expression") {
            match tree.child_by_field_name(c, "function") {
                Some(f) => {
                    if tree.kind_is(f, "func_literal") {
                        return GoroutineType::AnonymousFunction;
                    } else if tree.kind_is(f, "selector_expression") {
                        return GoroutineType::MethodCall;
                    } else {
                        return GoroutineType::FunctionCall;
                    }
                },
                None => {},
            }
        }
        if tree.kind_is(c, "identifier") {
            return GoroutineType::FunctionCall;
        }
        c = tree.next_child_slot(g, c);
    }
    GoroutineType::Unknown
}

/// Whether the source mentions locking or atomics anywhere.
pub fn has_synchronization_in_range(code: &str) -> (r: bool)
    ensures
        r == mentions_sync(code.spec_bytes()),
{
    let src = code.as_bytes();
    contains_bytes(src, "Lock".as_bytes()) || contains_bytes(src, "Unlock".as_bytes())
        || contains_bytes(src, "atomic.".as_bytes())
}

/// The race level of a goroutine's accesses.
pub fn calculate_race_severity(accesses: &Vec<VariableAccess>, code: &str) -> (r: RaceSeverity)
    ensures
        r == usage_severity(accesses@, code.spec_bytes()),
{
    if has_synchronization_in_range(code) {
        return RaceSeverity::Low;
    }
    let mut i: usize = 0;
    while i < accesses.len()
        invariant
            i <= accesses@.len(),
            !mentions_sync(code.spec_bytes()),
            forall|m: int|
                0 <= m < i ==> (#[trigger] accesses@[m]).access_type != VariableAccessType::Write
                    && accesses@[m].access_type != VariableAccessType::Modify
                    && accesses@[m].access_type != VariableAccessType::AddressOf,
        decreases accesses@.len() - i,
    {
        let kind = accesses[i].access_type;
        if kind == VariableAccessType::Write || kind == VariableAccessType::Modify || kind
            == VariableAccessType::AddressOf {
            return RaceSeverity::High;
        }
        i += 1;
    }
    RaceSeverity::Medium
}

/// The accesses to `var_name` inside the `go` statement `g`, with the
/// statement's range and sort and the race level of the accesses; nothing
/// where the goroutine does not read the name.
pub fn analyze_variable_in_goroutine(tree: &SyntaxTree, g: usize, var_name: &str, code: &str) -> (r:
    Option<GoroutineUsage>)
    requires
        g < tree@.len(),
    ensures
        r is Some <==> access_nodes(
            tree@,
            code.spec_bytes(),
            g as int,
            var_name.spec_bytes(),
            tree@[g as int].subtree_end as int,
        ).len() > 0,
        r is Some ==> usage_matches(
            tree@,
            code.spec_bytes(),
            var_name.spec_bytes(),
            g as int,
            r.unwrap(),
        ),
{
    let src = code.as_bytes();
    let name = var_name.as_bytes();
    let end = tree.subtree_end(g);
    let mut accesses: Vec<VariableAccess> = Vec::new();
    let mut k: usize = g;
    while k < end
        invariant
            g <= k <= end <= tree@.len(),
            end == tree@[g as int].subtree_end,
            src@ == code.spec_bytes(),
            name@ == var_name.spec_bytes(),
            accesses@.len() == access_nodes(tree@, src@, g as int, name@, k as int).len(),
            forall|m: int|
                0 <= m < accesses@.len() ==> access_matches(
                    tree@,
                    src@,
                    access_nodes(tree@, src@, g as int, name@, k as int)[m],
                    #[trigger] accesses@[m],
                ),
        decreases end - k,
    {
        if tree.kind_is(k, "identifier") && tree.text_is(src, k, name) {
            let access = VariableAccess {
                range: tree.range(k),
                access_type: determine_access_type(tree, src, k),
                context: get_access_context(tree, k),
            };
            accesses.push(access);
        }
        k += 1;
    }
    if accesses.len() == 0 {
        return None;
    }
    let level = calculate_race_severity(&accesses, code);
    Some(
        GoroutineUsage {
            goroutine_range: tree.range(g),
            variable_accesses: accesses,
            goroutine_type: classify_goroutine_type(tree, g),
            potential_race_level: level,
        },
    )
}

/// For every `go` statement inside which `var_name` is read, in document
/// order: its range and sort, the accesses to the name inside it, and
/// their race level.
pub fn analyze_goroutine_usage(tree: &SyntaxTree, var_name: &str, code: &str) -> (usages: Vec<
    GoroutineUsage,
>)
    ensures
        usages@.len() == usage_nodes(
            tree@,
            code.spec_bytes(),
            var_name.spec_bytes(),
            tree@.len() as int,
        ).len(),
        forall|i: int|
            0 <= i < usages@.len() ==> usage_matches(
                tree@,
                code.spec_bytes(),
                var_name.spec_bytes(),
                usage_nodes(tree@, code.spec_bytes(), var_name.spec_bytes(), tree@.len() as int)[i],
                #[trigger] usages@[i],
            ),
{
    let n = tree.len();
    let ghost src = code.spec_bytes();
    let ghost name = var_name.spec_bytes();
    let mut usages: Vec<GoroutineUsage> = Vec::new();
    let mut g: usize = 0;
    while g < n
        invariant
            g <= n,
            n == tree@.len(),
            src == code.spec_bytes(),
            name == var_name.spec_bytes(),
            usages@.len() == usage_nodes(tree@, src, name, g as int).len(),
            forall|i: int|
                0 <= i < usages@.len() ==> usage_matches(
                    tree@,
                    src,
                    name,
                    usage_nodes(tree@, src, name, g as int)[i],
                    #[trigger] usages@[i],
                ),
        decreases n - g,
    {
        if tree.kind_is(g, "go_statement") {
            match analyze_variable_in_goroutine(tree, g, var_name, code) {
                Some(usage) => {
                    usages.push(usage);
                },
                None => {},
            }
        }
        g += 1;
    }
    usages
}

} // verus!
