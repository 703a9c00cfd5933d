//! Synchronization: mutex and atomic calls, functions that synchronize,
//! and the locks held at a point of a block.

use crate::cursor::{find_node_at_position, is_position_in_node_range, selected_node, spans};
use crate::resolve::text_is;
use crate::syntax::{
    field_child, has_kind, nearest_kind, node_ok, node_text, opt, well_formed, SyntaxNode,
    SyntaxTree,
};
use crate::types::{Position, Range};
use vstd::prelude::*;
use vstd::string::StringSliceAdditionalSpecFns;

verus! {

/// The selector that a call goes through: `recv.method` in
/// `recv.method(..)`.
pub open spec fn call_selector(nodes: Seq<SyntaxNode>, c: int) -> Option<int> {
    match field_child(nodes, c, "function") {
        Some(f) => if has_kind(nodes, f, "selector_expression") {
            Some(f)
        } else {
            None
        },
        None => None,
    }
}

/// Whether node `i` reads as the name of a mutex or wait-group method.
pub open spec fn is_mutex_method(nodes: Seq<SyntaxNode>, src: Seq<u8>, i: int) -> bool {
    text_is(nodes, src, i, "Lock") || text_is(nodes, src, i, "Unlock") || text_is(
        nodes,
        src,
        i,
        "RLock",
    ) || text_is(nodes, src, i, "RUnlock") || text_is(nodes, src, i, "Wait")
}

/// Whether node `i` reads as the name of an atomic intrinsic.
pub open spec fn is_atomic_func(nodes: Seq<SyntaxNode>, src: Seq<u8>, i: int) -> bool {
    text_is(nodes, src, i, "AddInt32") || text_is(nodes, src, i, "AddInt64") || text_is(
        nodes,
        src,
        i,
        "AddUint32",
    ) || text_is(nodes, src, i, "AddUint64") || text_is(nodes, src, i, "AddUintptr") || text_is(
        nodes,
        src,
        i,
        "CompareAndSwapInt32",
    ) || text_is(nodes, src, i, "CompareAndSwapInt64") || text_is(
        nodes,
        src,
        i,
        "CompareAndSwapPointer",
    ) || text_is(nodes, src, i, "CompareAndSwapUint32") || text_is(
        nodes,
        src,
        i,
        "CompareAndSwapUint64",
    ) || text_is(nodes, src, i, "LoadInt32") || text_is(nodes, src, i, "LoadInt64") || text_is(
        nodes,
        src,
        i,
        "LoadPointer",
    ) || text_is(nodes, src, i, "LoadUint32") || text_is(nodes, src, i, "LoadUint64") || text_is(
        nodes,
        src,
        i,
        "StoreInt32",
    ) || text_is(nodes, src, i, "StoreInt64") || text_is(nodes, src, i, "StorePointer") || text_is(
        nodes,
        src,
        i,
        "StoreUint32",
    ) || text_is(nodes, src, i, "StoreUint64")
}

/// Whether call `c` invokes a mutex method: `x.Lock()`, `x.Unlock()`,
/// `x.RLock()`, `x.RUnlock()` or `x.Wait()`.
pub open spec fn mutex_call(nodes: Seq<SyntaxNode>, src: Seq<u8>, c: int) -> bool {
    match call_selector(nodes, c) {
        Some(f) => match field_child(nodes, f, "field") {
            Some(m) => is_mutex_method(nodes, src, m),
            None => false,
        },
        None => false,
    }
}

/// Whether call `c` invokes an intrinsic of package `atomic`.
pub open spec fn atomic_call(nodes: Seq<SyntaxNode>, src: Seq<u8>, c: int) -> bool {
    match call_selector(nodes, c) {
        Some(f) => match (field_child(nodes, f, "operand"), field_child(nodes, f, "field")) {
            (Some(o), Some(m)) => text_is(nodes, src, o, "atomic") && is_atomic_func(nodes, src, m),
            _ => false,
        },
        None => false,
    }
}

/// Whether node `c` is a call that synchronizes.
pub open spec fn sync_call(nodes: Seq<SyntaxNode>, src: Seq<u8>, c: int) -> bool {
    has_kind(nodes, c, "call_expression") && (mutex_call(nodes, src, c) || atomic_call(
        nodes,
        src,
        c,
    ))
}

/// Whether the subtree of node `i` holds a call that synchronizes.
pub open spec fn has_sync(nodes: Seq<SyntaxNode>, src: Seq<u8>, i: int) -> bool {
    exists|c: int| i <= c < nodes[i].subtree_end && #[trigger] sync_call(nodes, src, c)
}

/// Whether a child of `b` at or after slot `c`, other than a brace, holds
/// a call that synchronizes.
pub open spec fn children_sync_from(nodes: Seq<SyntaxNode>, src: Seq<u8>, b: int, c: int) -> bool
    decreases nodes.len() - c,
{
    if 0 <= b < c < nodes.len() && c < nodes[b].subtree_end && c < nodes[c].subtree_end
        <= nodes.len() {
        (!has_kind(nodes, c, "{") && !has_kind(nodes, c, "}") && has_sync(nodes, src, c))
            || children_sync_from(nodes, src, b, nodes[c].subtree_end as int)
    } else {
        false
    }
}

/// The first block among the nodes `[from, upto)` that spans `p`.
pub open spec fn first_block(nodes: Seq<SyntaxNode>, p: Position, from: int, upto: int) -> Option<
    int,
>
    decreases upto - from,
{
    if from >= upto {
        None
    } else if has_kind(nodes, from, "block") && spans(nodes, from, p) {
        Some(from)
    } else {
        first_block(nodes, p, from + 1, upto)
    }
}

/// Whether the outermost block around `p` holds a call that synchronizes.
pub open spec fn block_has_sync(nodes: Seq<SyntaxNode>, src: Seq<u8>, p: Position) -> bool {
    match first_block(nodes, p, 0, nodes.len() as int) {
        Some(b) => children_sync_from(nodes, src, b, b + 1),
        None => false,
    }
}

fn selector_of_call(tree: &SyntaxTree, c: usize) -> (r: Option<usize>)
    requires
        c < tree@.len(),
    ensures
        opt(r) == call_selector(tree@, c as int),
        r is Some ==> r.unwrap() < tree@.len(),
{
    let _ = tree.len();
    assert(node_ok(tree@, c as int));
    match tree.child_by_field_name(c, "function") {
        Some(f) => if tree.kind_is(f, "selector_expression") {
            Some(f)
        } else {
            None
        },
        None => None,
    }
}

fn names_mutex_method(tree: &SyntaxTree, src: &[u8], i: usize) -> (r: bool)
    requires
        i < tree@.len(),
    ensures
        r == is_mutex_method(tree@, src@, i as int),
{
    tree.text_is(src, i, "Lock".as_bytes()) || tree.text_is(src, i, "Unlock".as_bytes())
        || tree.text_is(src, i, "RLock".as_bytes()) || tree.text_is(src, i, "RUnlock".as_bytes())
        || tree.text_is(src, i, "Wait".as_bytes())
}

fn names_atomic_func(tree: &SyntaxTree, src: &[u8], i: usize) -> (r: bool)
    requires
        i < tree@.len(),
    ensures
        r == is_atomic_func(tree@, src@, i as int),
{
    tree.text_is(src, i, "AddInt32".as_bytes()) || tree.text_is(src, i, "AddInt64".as_bytes())
        || tree.text_is(src, i, "AddUint32".as_bytes()) || tree.text_is(
        src,
        i,
        "AddUint64".as_bytes(),
    ) || tree.text_is(src, i, "AddUintptr".as_bytes()) || tree.text_is(
        src,
        i,
        "CompareAndSwapInt32".as_bytes(),
    ) || tree.text_is(src, i, "CompareAndSwapInt64".as_bytes()) || tree.text_is(
        src,
        i,
        "CompareAndSwapPointer".as_bytes(),
    ) || tree.text_is(src, i, "CompareAndSwapUint32".as_bytes()) || tree.text_is(
        src,
        i,
        "CompareAndSwapUint64".as_bytes(),
    ) || tree.text_is(src, i, "LoadInt32".as_bytes()) || tree.text_is(
        src,
        i,
        "LoadInt64".as_bytes(),
    ) || tree.text_is(src, i, "LoadPointer".as_bytes()) || tree.text_is(
        src,
        i,
        "LoadUint32".as_bytes(),
    ) || tree.text_is(src, i, "LoadUint64".as_bytes()) || tree.text_is(
        src,
        i,
        "StoreInt32".as_bytes(),
    ) || tree.text_is(src, i, "StoreInt64".as_bytes()) || tree.text_is(
        src,
        i,
        "StorePointer".as_bytes(),
    ) || tree.text_is(src, i, "StoreUint32".as_bytes()) || tree.text_is(
        src,
        i,
        "StoreUint64".as_bytes(),
    )
}

/// Whether call `c` invokes a mutex method.
pub fn is_mutex_call(tree: &SyntaxTree, src: &[u8], c: usize) -> (r: bool)
    requires
        c < tree@.len(),
    ensures
        r == mutex_call(tree@, src@, c as int),
{
    let _ = tree.len();
    match selector_of_call(tree, c) {
        Some(f) => {
            assert(node_ok(tree@, f as int));
            match tree.child_by_field_name(f, "field") {
                Some(m) => names_mutex_method(tree, src, m),
                None => false,
            }
        },
        None => false,
    }
}

/// Whether call `c` invokes an intrinsic of package `atomic`.
pub fn is_atomic_call(tree: &SyntaxTree, src: &[u8], c: usize) -> (r: bool)
    requires
        c < tree@.len(),
    ensures
        r == atomic_call(tree@, src@, c as int),
{
    let _ = tree.len();
    match selector_of_call(tree, c) {
        Some(f) => {
            assert(node_ok(tree@, f as int));
            match (tree.child_by_field_name(f, "operand"), tree.child_by_field_name(f, "field")) {
                (Some(o), Some(m)) => tree.text_is(src, o, "atomic".as_bytes())
                    && names_atomic_func(tree, src, m),
                _ => false,
            }
        },
        None => false,
    }
}

/// Whether node `c` is a call that synchronizes.
pub fn is_sync_call(tree: &SyntaxTree, src: &[u8], c: usize) -> (r: bool)
    requires
        c < tree@.len(),
    ensures
        r == sync_call(tree@, src@, c as int),
{
    tree.kind_is(c, "call_expression") && (is_mutex_call(tree, src, c) || is_atomic_call(
        tree,
        src,
        c,
    ))
}

/// Whether the subtree of node `i` holds a call that synchronizes.
pub fn find_sync_in_node(tree: &SyntaxTree, src: &[u8], i: usize) -> (r: bool)
    requires
        i < tree@.len(),
    ensures
        r == has_sync(tree@, src@, i as int),
{
    let end = tree.subtree_end(i);
    let mut c: usize = i;
    while c < end
        invariant
            i <= c <= end <= tree@.len(),
            end == tree@[i as int].subtree_end,
            forall|k: int| i <= k < c ==> !#[trigger] sync_call(tree@, src@, k),
        decreases end - c,
    {
        if is_sync_call(tree, src, c) {
            return true;
        }
        c += 1;
    }
    false
}

/// Whether the goroutine rooted at `g` holds a call that synchronizes.
pub fn has_synchronization_in_goroutine(tree: &SyntaxTree, src: &[u8], g: usize) -> (r: bool)
    requires
        g < tree@.len(),
    ensures
        r == has_sync(tree@, src@, g as int),
{
    find_sync_in_node(tree, src, g)
}

/// The outermost block that spans `p`.
pub fn find_first_block(tree: &SyntaxTree, p: Position) -> (r: Option<usize>)
    ensures
        opt(r) == first_block(tree@, p, 0, tree@.len() as int),
        r is Some ==> r.unwrap() < tree@.len(),
{
    let n = tree.len();
    let mut b: usize = 0;
    while b < n
        invariant
            b <= n,
            n == tree@.len(),
            first_block(tree@, p, 0, n as int) == first_block(tree@, p, b as int, n as int),
        decreases n - b,
    {
        if tree.kind_is(b, "block") && is_position_in_node_range(tree, b, p) {
            return Some(b);
        }
        b += 1;
    }
    None
}

/// Whether a child of `b`, other than a brace, holds a call that
/// synchronizes.
pub fn statements_synchronize(tree: &SyntaxTree, src: &[u8], b: usize) -> (r: bool)
    requires
        b < tree@.len(),
    ensures
        r == children_sync_from(tree@, src@, b as int, b + 1),
{
    let _ = tree.len();
    let end = tree.subtree_end(b);
    let mut c: usize = tree.first_child_slot(b);
    while c < end
        invariant
            b < c <= end <= tree@.len(),
            end == tree@[b as int].subtree_end,
            well_formed(tree@),
            c < end ==> crate::syntax::is_child(tree@, b as int, c as int),
            children_sync_from(tree@, src@, b as int, b + 1) == children_sync_from(
                tree@,
                src@,
                b as int,
                c as int,
            ),
        decreases end - c,
    {
        assert(node_ok(tree@, c as int));
        if !tree.kind_is(c, "{") && !tree.kind_is(c, "}") && find_sync_in_node(tree, src, c) {
            return true;
        }
        c = tree.next_child_slot(b, c);
    }
    false
}

/// Whether the outermost block around the start of `range` holds, below
/// one of its statements, a mutex or atomic call.
pub fn has_synchronization_in_block(tree: &SyntaxTree, range: Range, code: &str) -> (r: bool)
    ensures
        r == block_has_sync(tree@, code.spec_bytes(), range.start),
{
    match find_first_block(tree, range.start) {
        Some(b) => statements_synchronize(tree, code.as_bytes(), b),
        None => false,
    }
}

/// Whether node `i` is a function, a method or a closure.
pub open spec fn is_function_kind(nodes: Seq<SyntaxNode>, i: int) -> bool {
    has_kind(nodes, i, "function_declaration") || has_kind(nodes, i, "method_declaration")
        || has_kind(nodes, i, "func_literal")
}

/// The execution context of node `i`: the nearest function, method or
/// closure around it.
pub open spec fn exec_context(nodes: Seq<SyntaxNode>, i: int) -> Option<int>
    decreases i,
{
    if 0 <= i < nodes.len() {
        if is_function_kind(nodes, i) {
            Some(i)
        } else {
            match nodes[i].parent {
                Some(p) => if p < i {
                    exec_context(nodes, p as int)
                } else {
                    None
                },
                None => None,
            }
        }
    } else {
        None
    }
}

/// Whether two nodes run in the same execution context: neither has one,
/// or theirs cover the same bytes.
pub open spec fn same_context(nodes: Seq<SyntaxNode>, a: int, b: int) -> bool {
    match (exec_context(nodes, a), exec_context(nodes, b)) {
        (Some(x), Some(y)) => nodes[x].start_byte == nodes[y].start_byte && nodes[x].end_byte
            == nodes[y].end_byte,
        (None, None) => true,
        _ => false,
    }
}

/// The method name of a call through a selector.
pub open spec fn call_method(nodes: Seq<SyntaxNode>, c: int) -> Option<int> {
    if has_kind(nodes, c, "call_expression") {
        match call_selector(nodes, c) {
            Some(f) => field_child(nodes, f, "field"),
            None => None,
        }
    } else {
        None
    }
}

/// The receiver of a call through a selector.
pub open spec fn call_receiver(nodes: Seq<SyntaxNode>, c: int) -> Option<int> {
    if has_kind(nodes, c, "call_expression") {
        match call_selector(nodes, c) {
            Some(f) => field_child(nodes, f, "operand"),
            None => None,
        }
    } else {
        None
    }
}

/// The key of the lock that call `c` works on: the text of its receiver.
pub open spec fn lock_key(nodes: Seq<SyntaxNode>, src: Seq<u8>, c: int) -> Option<Seq<u8>> {
    match call_receiver(nodes, c) {
        Some(o) => node_text(nodes, src, o),
        None => None,
    }
}

/// Whether call `c` is the operand of a `defer`.
pub open spec fn is_deferred(nodes: Seq<SyntaxNode>, c: int) -> bool {
    match nodes[c].parent {
        Some(p) => has_kind(nodes, p as int, "defer_statement"),
        None => false,
    }
}

/// What call `c` does to the depth of its lock: `Lock` and `RLock` add
/// one, `Unlock` and `RUnlock` take one away unless deferred, all else
/// leaves it.
pub open spec fn lock_delta(nodes: Seq<SyntaxNode>, src: Seq<u8>, c: int) -> int {
    match call_method(nodes, c) {
        Some(m) => if text_is(nodes, src, m, "Lock") || text_is(nodes, src, m, "RLock") {
            1
        } else if (text_is(nodes, src, m, "Unlock") || text_is(nodes, src, m, "RUnlock"))
            && !is_deferred(nodes, c) {
            -1
        } else {
            0
        },
        None => 0,
    }
}

/// Whether call `c` counts for the access at `t`: it begins before `t`
/// and runs in the same execution context.
pub open spec fn counts_before(nodes: Seq<SyntaxNode>, t: int, c: int) -> bool {
    nodes[c].start_byte < nodes[t].start_byte && same_context(nodes, c, t)
}

/// The depth of lock `key` at the access `t`, from the calls of block `b`
/// among the nodes before `k`.
pub open spec fn lock_depth(
    nodes: Seq<SyntaxNode>,
    src: Seq<u8>,
    b: int,
    t: int,
    key: Seq<u8>,
    k: int,
) -> int
    decreases k - b,
{
    if k <= b + 1 {
        0
    } else {
        lock_depth(nodes, src, b, t, key, k - 1) + if lock_key(nodes, src, k - 1) == Some(key)
            && counts_before(nodes, t, k - 1) {
            lock_delta(nodes, src, k - 1)
        } else {
            0
        }
    }
}

/// Whether some lock is held at the access `t` in block `b`: a lock that a
/// call of the block names has a depth above zero there.
pub open spec fn lock_held(nodes: Seq<SyntaxNode>, src: Seq<u8>, b: int, t: int) -> bool {
    exists|c: int|
        b < c < nodes[b].subtree_end && (#[trigger] lock_key(nodes, src, c)) is Some && lock_depth(
            nodes,
            src,
            b,
            t,
            lock_key(nodes, src, c).unwrap(),
            nodes[b].subtree_end as int,
        ) > 0
}

/// Whether node `d` declares a function or method whose body
/// synchronizes.
pub open spec fn is_sync_function(nodes: Seq<SyntaxNode>, src: Seq<u8>, d: int) -> bool {
    (has_kind(nodes, d, "function_declaration") || has_kind(nodes, d, "method_declaration"))
        && has_sync(nodes, src, d)
}

/// The name that declaration `d` gives its function.
pub open spec fn function_name(nodes: Seq<SyntaxNode>, src: Seq<u8>, d: int) -> Option<Seq<u8>> {
    match field_child(nodes, d, "name") {
        Some(m) => node_text(nodes, src, m),
        None => None,
    }
}

/// The node that names what call `c` invokes: the function identifier or
/// the selector's field.
pub open spec fn callee(nodes: Seq<SyntaxNode>, c: int) -> Option<int> {
    match field_child(nodes, c, "function") {
        Some(f) => if has_kind(nodes, f, "identifier") {
            Some(f)
        } else if has_kind(nodes, f, "selector_expression") {
            field_child(nodes, f, "field")
        } else {
            None
        },
        None => None,
    }
}

/// Whether call `c` invokes, by name, one of the listed functions.
pub open spec fn calls_known(nodes: Seq<SyntaxNode>, src: Seq<u8>, c: int, funcs: Seq<usize>) -> bool {
    match callee(nodes, c) {
        Some(m) => node_text(nodes, src, m) is Some && exists|k: int|
            0 <= k < funcs.len() && funcs[k] < nodes.len() && #[trigger] function_name(
                nodes,
                src,
                funcs[k] as int,
            ) == node_text(nodes, src, m),
        None => false,
    }
}

/// Whether the access at node `t` is synchronized: the nearest call around
/// it is a mutex or atomic call or invokes a listed function; or else a
/// lock is held at `t` in the nearest block around it.
pub open spec fn synchronized_at(nodes: Seq<SyntaxNode>, src: Seq<u8>, t: int, funcs: Seq<usize>) -> bool {
    let by_call = match nearest_kind(nodes, t, "call_expression") {
        Some(c) => mutex_call(nodes, src, c) || atomic_call(nodes, src, c) || calls_known(
            nodes,
            src,
            c,
            funcs,
        ),
        None => false,
    };
    by_call || match nearest_kind(nodes, t, "block") {
        Some(b) => lock_held(nodes, src, b, t),
        None => false,
    }
}

/// Whether the access at node `t` stands inside an atomic call.
pub open spec fn atomic_at(nodes: Seq<SyntaxNode>, src: Seq<u8>, t: int) -> bool {
    match nearest_kind(nodes, t, "call_expression") {
        Some(c) => atomic_call(nodes, src, c),
        None => false,
    }
}

/// The execution context of node `i`.
pub fn find_exec_context(tree: &SyntaxTree, i: usize) -> (r: Option<usize>)
    requires
        i < tree@.len(),
    ensures
        opt(r) == exec_context(tree@, i as int),
        r is Some ==> r.unwrap() <= i,
{
    let mut k: usize = i;
    loop
        invariant
            k <= i < tree@.len(),
            exec_context(tree@, i as int) == exec_context(tree@, k as int),
        decreases k,
    {
        if tree.kind_is(k, "function_declaration") || tree.kind_is(k, "method_declaration")
            || tree.kind_is(k, "func_literal") {
            return Some(k);
        }
        match tree.parent(k) {
            Some(p) => {
                k = p;
            },
            None => {
                return None;
            },
        }
    }
}

/// Whether two nodes run in the same execution context.
pub fn in_same_context(tree: &SyntaxTree, a: usize, b: usize) -> (r: bool)
    requires
        a < tree@.len(),
        b < tree@.len(),
    ensures
        r == same_context(tree@, a as int, b as int),
{
    match (find_exec_context(tree, a), find_exec_context(tree, b)) {
        (Some(x), Some(y)) => tree.node(x).start_byte == tree.node(y).start_byte && tree.node(
            x,
        ).end_byte == tree.node(y).end_byte,
        (None, None) => true,
        _ => false,
    }
}

fn method_of_call(tree: &SyntaxTree, c: usize) -> (r: Option<usize>)
    requires
        c < tree@.len(),
    ensures
        opt(r) == call_method(tree@, c as int),
        r is Some ==> r.unwrap() < tree@.len(),
{
    let _ = tree.len();
    if !tree.kind_is(c, "call_expression") {
        return None;
    }
    match selector_of_call(tree, c) {
        Some(f) => {
            assert(node_ok(tree@, f as int));
            tree.child_by_field_name(f, "field")
        },
        None => None,
    }
}

fn receiver_of_call(tree: &SyntaxTree, c: usize) -> (r: Option<usize>)
    requires
        c < tree@.len(),
    ensures
        opt(r) == call_receiver(tree@, c as int),
        r is Some ==> r.unwrap() < tree@.len(),
{
    let _ = tree.len();
    if !tree.kind_is(c, "call_expression") {
        return None;
    }
    match selector_of_call(tree, c) {
        Some(f) => {
            assert(node_ok(tree@, f as int));
            tree.child_by_field_name(f, "operand")
        },
        None => None,
    }
}

fn delta_of_call(tree: &SyntaxTree, src: &[u8], c: usize) -> (r: i128)
    requires
        c < tree@.len(),
    ensures
        r == lock_delta(tree@, src@, c as int),
        -1 <= r <= 1,
{
    match method_of_call(tree, c) {
        Some(m) => if tree.text_is(src, m, "Lock".as_bytes()) || tree.text_is(
            src,
            m,
            "RLock".as_bytes(),
        ) {
            1
        } else if tree.text_is(src, m, "Unlock".as_bytes()) || tree.text_is(
            src,
            m,
            "RUnlock".as_bytes(),
        ) {
            let deferred = match tree.parent(c) {
                Some(p) => tree.kind_is(p, "defer_statement"),
                None => false,
            };
            if deferred {
                0
            } else {
                -1
            }
        } else {
            0
        },
        None => 0,
    }
}

/// The depth of lock `key` at the access `t`, from the calls of block `b`.
fn depth_of_lock(tree: &SyntaxTree, src: &[u8], b: usize, t: usize, key: &[u8]) -> (r: i128)
    requires
        b < tree@.len(),
        t < tree@.len(),
    ensures
        r == lock_depth(
            tree@,
            src@,
            b as int,
            t as int,
            key@,
            tree@[b as int].subtree_end as int,
        ),
{
    let end = tree.subtree_end(b);
    let mut depth: i128 = 0;
    let mut k: usize = b + 1;
    while k < end
        invariant
            b < k <= end <= tree@.len(),
            t < tree@.len(),
            end == tree@[b as int].subtree_end,
            depth == lock_depth(tree@, src@, b as int, t as int, key@, k as int),
            -(k as int) <= depth <= k as int,
        decreases end - k,
    {
        let same_key = match receiver_of_call(tree, k) {
            Some(o) => tree.text_is(src, o, key),
            None => false,
        };
        if same_key && tree.node(k).start_byte < tree.node(t).start_byte && in_same_context(
            tree,
            k,
            t,
        ) {
            depth = depth + delta_of_call(tree, src, k);
        }
        k += 1;
    }
    depth
}

/// Whether some lock is held at the access `t` in block `b`.
pub fn is_lock_held(tree: &SyntaxTree, src: &[u8], b: usize, t: usize) -> (r: bool)
    requires
        b < tree@.len(),
        t < tree@.len(),
    ensures
        r == lock_held(tree@, src@, b as int, t as int),
{
    let end = tree.subtree_end(b);
    let mut c: usize = b + 1;
    while c < end
        invariant
            b < c <= end <= tree@.len(),
            t < tree@.len(),
            end == tree@[b as int].subtree_end,
            forall|k: int|
                b < k < c ==> !((#[trigger] lock_key(tree@, src@, k)) is Some && lock_depth(
                    tree@,
                    src@,
                    b as int,
                    t as int,
                    lock_key(tree@, src@, k).unwrap(),
                    end as int,
                ) > 0),
        decreases end - c,
    {
        let key = match receiver_of_call(tree, c) {
            Some(o) => tree.text_of(src, o),
            None => None,
        };
        match key {
            Some(key) => {
                if depth_of_lock(tree, src, b, t, key) > 0 {
                    assert(lock_key(tree@, src@, c as int) == Some(key@));
                    return true;
                }
            },
            None => {},
        }
        c += 1;
    }
    false
}

/// The functions and methods among the first `k` nodes whose bodies
/// synchronize, in document order.
pub open spec fn sync_functions(nodes: Seq<SyntaxNode>, src: Seq<u8>, k: int) -> Seq<usize>
    decreases k,
{
    if k <= 0 {
        Seq::empty()
    } else if is_sync_function(nodes, src, k - 1) {
        sync_functions(nodes, src, k - 1).push((k - 1) as usize)
    } else {
        sync_functions(nodes, src, k - 1)
    }
}

/// The functions and methods whose bodies synchronize, in document order.
pub fn known_sync_funcs(tree: &SyntaxTree, code: &str) -> (funcs: Vec<usize>)
    ensures
        funcs@ == sync_functions(tree@, code.spec_bytes(), tree@.len() as int),
{
    let n = tree.len();
    let src = code.as_bytes();
    let mut funcs: Vec<usize> = Vec::new();
    let mut d: usize = 0;
    while d < n
        invariant
            d <= n,
            n == tree@.len(),
            src@ == code.spec_bytes(),
            funcs@ == sync_functions(tree@, src@, d as int),
        decreases n - d,
    {
        if (tree.kind_is(d, "function_declaration") || tree.kind_is(d, "method_declaration"))
            && find_sync_in_node(tree, src, d) {
            funcs.push(d);
        }
        d += 1;
    }
    funcs
}

fn callee_of(tree: &SyntaxTree, c: usize) -> (r: Option<usize>)
    requires
        c < tree@.len(),
    ensures
        opt(r) == callee(tree@, c as int),
        r is Some ==> r.unwrap() < tree@.len(),
{
    let _ = tree.len();
    assert(node_ok(tree@, c as int));
    match tree.child_by_field_name(c, "function") {
        Some(f) => {
            assert(node_ok(tree@, f as int));
            if tree.kind_is(f, "identifier") {
                Some(f)
            } else if tree.kind_is(f, "selector_expression") {
                tree.child_by_field_name(f, "field")
            } else {
                None
            }
        },
        None => None,
    }
}

/// Whether call `c` invokes, by name, one of the listed functions.
pub fn calls_known_sync(tree: &SyntaxTree, src: &[u8], c: usize, funcs: &Vec<usize>) -> (r: bool)
    requires
        c < tree@.len(),
    ensures
        r == calls_known(tree@, src@, c as int, funcs@),
{
    let n = tree.len();
    let name = match callee_of(tree, c) {
        Some(m) => tree.text_of(src, m),
        None => None,
    };
    match name {
        None => false,
        Some(name) => {
            let mut k: usize = 0;
            while k < funcs.len()
                invariant
                    k <= funcs@.len(),
                    n == tree@.len(),
                    well_formed(tree@),
                    callee(tree@, c as int) is Some,
                    node_text(tree@, src@, callee(tree@, c as int).unwrap()) == Some(name@),
                    forall|w: int|
                        0 <= w < k ==> !(funcs@[w] < n && #[trigger] function_name(
                            tree@,
                            src@,
                            funcs@[w] as int,
                        ) == Some(name@)),
                decreases funcs@.len() - k,
            {
                let d = funcs[k];
                if d < n {
                    assert(node_ok(tree@, d as int));
                    let matches = match tree.child_by_field_name(d, "name") {
                        Some(m) => tree.text_is(src, m, name),
                        None => false,
                    };
                    if matches {
                        assert(function_name(tree@, src@, funcs@[k as int] as int) == Some(name@));
                        return true;
                    }
                }
                k += 1;
            }
            false
        },
    }
}

/// Whether the access at node `t` is synchronized.
pub fn is_synchronized_at(tree: &SyntaxTree, src: &[u8], t: usize, funcs: &Vec<usize>) -> (r: bool)
    requires
        t < tree@.len(),
    ensures
        r == synchronized_at(tree@, src@, t as int, funcs@),
{
    let by_call = match tree.nearest_of_kind(t, "call_expression") {
        Some(c) => is_mutex_call(tree, src, c) || is_atomic_call(tree, src, c)
            || calls_known_sync(tree, src, c, funcs),
        None => false,
    };
    if by_call {
        return true;
    }
    match tree.nearest_of_kind(t, "block") {
        Some(b) => is_lock_held(tree, src, b, t),
        None => false,
    }
}

/// Whether the access at the start of `range` is covered by a lock or an
/// atomic operation. `known_sync_funcs` lists the functions taken to
/// synchronize in their bodies.
pub fn is_synchronized(
    tree: &SyntaxTree,
    range: Range,
    code: &str,
    known_sync_funcs: &Vec<usize>,
) -> (r: bool)
    ensures
        r == match selected_node(tree@, range.start) {
            Some(t) => synchronized_at(tree@, code.spec_bytes(), t, known_sync_funcs@),
            None => false,
        },
{
    match find_node_at_position(tree, range.start) {
        Some(t) => is_synchronized_at(tree, code.as_bytes(), t, known_sync_funcs),
        None => false,
    }
}

/// Whether the access at the start of `range` stands inside a call of an
/// atomic intrinsic.
pub fn is_in_atomic_context(tree: &SyntaxTree, range: Range, code: &str) -> (r: bool)
    ensures
        r == match selected_node(tree@, range.start) {
            Some(t) => atomic_at(tree@, code.spec_bytes(), t),
            None => false,
        },
{
    match find_node_at_position(tree, range.start) {
        Some(t) => match tree.nearest_of_kind(t, "call_expression") {
            Some(c) => is_atomic_call(tree, code.as_bytes(), c),
            None => false,
        },
        None => false,
    }
}

} // verus!
