//! Detectors for struct fields and copied values: mixed atomic access,
//! lock coverage, heavy work under a lock, retention through aliasing,
//! reads before writes, write-only fields and struct copies.

use crate::concurrency::{assigned_in, find_assigned_side, is_write_access, written_at};
use crate::cursor::{find_node_at_position, selected_node};
use crate::resolve::text_is;
use crate::sync::{
    atomic_at, exec_context, find_exec_context, is_atomic_call, is_synchronized_at,
    known_sync_funcs, sync_functions, synchronized_at,
};
use crate::syntax::{field_child, has_field, has_kind, node_ok, opt, SyntaxNode, SyntaxTree};
use crate::types::{Diagnostic, DiagnosticSeverity, FieldType, Range, VariableInfo};
use vstd::prelude::*;
use vstd::string::StringExecFns;
use vstd::string::StringSliceAdditionalSpecFns;

verus! {

/// The field declaration that holds node `i`, looked for on the way to
/// the root without leaving a function, method or closure.
pub open spec fn field_declaration_of(nodes: Seq<SyntaxNode>, i: int) -> Option<int>
    decreases i,
{
    if 0 <= i < nodes.len() {
        if has_kind(nodes, i, "field_declaration") {
            Some(i)
        } else if has_kind(nodes, i, "function_declaration") || has_kind(
            nodes,
            i,
            "method_declaration",
        ) || has_kind(nodes, i, "func_literal") {
            None
        } else {
            match nodes[i].parent {
                Some(p) => if p < i {
                    field_declaration_of(nodes, p as int)
                } else {
                    None
                },
                None => None,
            }
        }
    } else {
        None
    }
}

/// The sort of type that field declaration `f` gives its fields.
pub open spec fn field_type_of(nodes: Seq<SyntaxNode>, src: Seq<u8>, f: int) -> FieldType {
    match field_child(nodes, f, "type") {
        Some(t) => if has_kind(nodes, t, "slice_type") {
            FieldType::SliceType
        } else if has_kind(nodes, t, "map_type") {
            FieldType::MapType
        } else if has_kind(nodes, t, "type_identifier") && text_is(nodes, src, t, "string") {
            FieldType::StringType
        } else {
            FieldType::OtherType
        },
        None => FieldType::OtherType,
    }
}

/// Whether call `c` does heavy work: `append`, `copy`, or anything of the
/// packages `fmt` and `sort`.
pub open spec fn heavy_call(nodes: Seq<SyntaxNode>, src: Seq<u8>, c: int) -> bool {
    has_kind(nodes, c, "call_expression") && match field_child(nodes, c, "function") {
        Some(f) => if has_kind(nodes, f, "identifier") {
            text_is(nodes, src, f, "append") || text_is(nodes, src, f, "copy")
        } else if has_kind(nodes, f, "selector_expression") {
            match field_child(nodes, f, "operand") {
                Some(o) => text_is(nodes, src, o, "fmt") || text_is(nodes, src, o, "sort"),
                None => false,
            }
        } else {
            false
        },
        None => false,
    }
}

/// Whether a call on the way from node `i` to the root does heavy work.
pub open spec fn in_heavy_call(nodes: Seq<SyntaxNode>, src: Seq<u8>, i: int) -> bool
    decreases i,
{
    if 0 <= i < nodes.len() {
        heavy_call(nodes, src, i) || match nodes[i].parent {
            Some(p) => p < i && in_heavy_call(nodes, src, p as int),
            None => false,
        }
    } else {
        false
    }
}

/// The first expression on the right of the assignment that node `t`
/// stands on the left of.
pub open spec fn assigned_value(nodes: Seq<SyntaxNode>, t: int) -> Option<int> {
    match assigned_in(nodes, t) {
        Some(l) => match nodes[l].parent {
            Some(s) => match field_child(nodes, s as int, "right") {
                Some(r) => if r + 1 < nodes[r].subtree_end {
                    Some(r + 1)
                } else {
                    None
                },
                None => None,
            },
            None => None,
        },
        None => None,
    }
}

/// Whether the assignment to node `t` may keep a larger allocation alive:
/// a slice or string field takes a slice expression, or a map field takes
/// an identifier, a selector or an index expression.
pub open spec fn retains_at(nodes: Seq<SyntaxNode>, t: int, sort: FieldType) -> bool {
    match assigned_value(nodes, t) {
        Some(v) => match sort {
            FieldType::SliceType | FieldType::StringType => has_kind(nodes, v, "slice_expression"),
            FieldType::MapType => has_kind(nodes, v, "identifier") || has_kind(
                nodes,
                v,
                "selector_expression",
            ) || has_kind(nodes, v, "index_expression"),
            FieldType::OtherType => false,
        },
        None => false,
    }
}

/// Whether node `t` stands bare where its value is copied: as an argument,
/// as a returned value, or as the source of an assignment or short
/// declaration.
pub open spec fn copied_at(nodes: Seq<SyntaxNode>, t: int) -> bool {
    match nodes[t].parent {
        Some(p) => has_kind(nodes, p as int, "argument_list") || (has_kind(
            nodes,
            p as int,
            "expression_list",
        ) && match nodes[p as int].parent {
            Some(s) => has_kind(nodes, s as int, "return_statement") || (has_field(
                nodes,
                p as int,
                "right",
            ) && (has_kind(nodes, s as int, "assignment_statement") || has_kind(
                nodes,
                s as int,
                "short_var_declaration",
            ))),
            None => false,
        }),
        None => false,
    }
}

/// What the detectors need to know of one use.
#[derive(Clone, Copy, Debug)]
pub struct UseFacts {
    pub atomic: bool,
    pub synchronized: bool,
    /// The use is assigned to, incremented or decremented.
    pub write: bool,
    /// The use stands on the left of an assignment.
    pub assigned: bool,
    pub heavy: bool,
    pub retains: bool,
    pub copied: bool,
    /// The byte span of the execution context of the use.
    pub context: Option<(usize, usize)>,
}

/// The byte span of the execution context of node `t`.
pub open spec fn context_span(nodes: Seq<SyntaxNode>, t: int) -> Option<(usize, usize)> {
    match exec_context(nodes, t) {
        Some(c) => Some((nodes[c].start_byte, nodes[c].end_byte)),
        None => None,
    }
}

/// The facts about the use at `at` of a field of the given sort.
pub open spec fn use_facts(nodes: Seq<SyntaxNode>, src: Seq<u8>, sort: FieldType, at: Range) -> UseFacts {
    let funcs = sync_functions(nodes, src, nodes.len() as int);
    match selected_node(nodes, at.start) {
        Some(t) => UseFacts {
            atomic: atomic_at(nodes, src, t),
            synchronized: synchronized_at(nodes, src, t, funcs),
            write: written_at(nodes, t),
            assigned: assigned_in(nodes, t) is Some,
            heavy: in_heavy_call(nodes, src, t),
            retains: retains_at(nodes, t, sort),
            copied: copied_at(nodes, t),
            context: context_span(nodes, t),
        },
        None => UseFacts {
            atomic: false,
            synchronized: false,
            write: false,
            assigned: false,
            heavy: false,
            retains: false,
            copied: false,
            context: None,
        },
    }
}

/// The facts about each of the uses.
pub open spec fn facts_of(nodes: Seq<SyntaxNode>, src: Seq<u8>, sort: FieldType, uses: Seq<Range>) -> Seq<
    UseFacts,
> {
    uses.map_values(|at: Range| use_facts(nodes, src, sort, at))
}

/// What a detector looks for in a use.
#[derive(Clone, Copy, Debug, PartialEq, Eq, Structural)]
pub enum Probe {
    Atomic,
    NotAtomic,
    Synchronized,
    NotSynchronized,
    HeavyUnderLock,
    Retains,
    ReadBeforeWrite,
    NotAssigned,
    Copied,
}

/// Whether a use after `i` in the same execution context writes.
pub open spec fn written_later(facts: Seq<UseFacts>, i: int) -> bool {
    exists|j: int|
        i < j < facts.len() && (#[trigger] facts[j]).write && facts[j].context == facts[i].context
}

/// Whether use `i` is what the probe looks for.
pub open spec fn probe_holds(facts: Seq<UseFacts>, i: int, probe: Probe) -> bool {
    match probe {
        Probe::Atomic => facts[i].atomic,
        Probe::NotAtomic => !facts[i].atomic,
        Probe::Synchronized => facts[i].synchronized,
        Probe::NotSynchronized => !facts[i].synchronized,
        Probe::HeavyUnderLock => facts[i].synchronized && facts[i].heavy,
        Probe::Retains => facts[i].retains,
        Probe::ReadBeforeWrite => !facts[i].write && written_later(facts, i),
        Probe::NotAssigned => !facts[i].assigned,
        Probe::Copied => facts[i].copied,
    }
}

/// The first use from `from` on that is what the probe looks for.
pub open spec fn first_index(facts: Seq<UseFacts>, probe: Probe, from: int) -> Option<int>
    decreases facts.len() - from,
{
    if from < 0 || from >= facts.len() {
        None
    } else if probe_holds(facts, from, probe) {
        Some(from)
    } else {
        first_index(facts, probe, from + 1)
    }
}

/// The use that the mixed-access detector flags: where some use is atomic
/// and some is not, the first that is not.
pub open spec fn mixed_atomic(facts: Seq<UseFacts>) -> Option<int> {
    if first_index(facts, Probe::Atomic, 0) is Some {
        first_index(facts, Probe::NotAtomic, 0)
    } else {
        None
    }
}

/// The use that the lock-coverage detector flags: where some use is
/// synchronized and some is not, the first that is not.
pub open spec fn lock_coverage(facts: Seq<UseFacts>) -> Option<int> {
    if first_index(facts, Probe::Synchronized, 0) is Some {
        first_index(facts, Probe::NotSynchronized, 0)
    } else {
        None
    }
}

/// The use that the heavy-work detector flags: the first that is
/// synchronized and stands inside a heavy call.
pub open spec fn heavy_under_lock(facts: Seq<UseFacts>) -> Option<int> {
    first_index(facts, Probe::HeavyUnderLock, 0)
}

/// The use that the retention detector flags: the first that retains.
pub open spec fn retention_risk(facts: Seq<UseFacts>) -> Option<int> {
    first_index(facts, Probe::Retains, 0)
}

/// The use that the read-before-write detector flags: the first read that
/// a write in the same execution context follows.
pub open spec fn read_before_write(facts: Seq<UseFacts>) -> Option<int> {
    first_index(facts, Probe::ReadBeforeWrite, 0)
}

/// Whether the field looks write-only: it has two uses or more and every
/// one is assigned to.
pub open spec fn write_only(facts: Seq<UseFacts>) -> bool {
    facts.len() >= 2 && first_index(facts, Probe::NotAssigned, 0) is None
}

/// The use that the copy detector flags: the first that stands where its
/// value is copied.
pub open spec fn struct_copy(facts: Seq<UseFacts>) -> Option<int> {
    first_index(facts, Probe::Copied, 0)
}

/// What a diagnostic holds, as plain values.
pub struct DiagnosticView {
    pub range: Range,
    pub severity: DiagnosticSeverity,
    pub code: Seq<char>,
    pub message: Seq<char>,
}

/// A diagnostic as plain values.
pub open spec fn diagnostic_view(d: Diagnostic) -> DiagnosticView {
    DiagnosticView { range: d.range, severity: d.severity, code: d.code@, message: d.message@ }
}

/// Diagnostics as plain values, in order.
pub open spec fn diagnostics_view(v: Seq<Diagnostic>) -> Seq<DiagnosticView> {
    v.map_values(|d: Diagnostic| diagnostic_view(d))
}

/// The finding of a detector: its code, its weight, and a message that
/// names the variable between two fixed parts.
pub open spec fn finding(
    at: Range,
    severity: DiagnosticSeverity,
    code: &str,
    head: &str,
    name: Seq<char>,
    tail: &str,
) -> DiagnosticView {
    DiagnosticView { range: at, severity, code: code@, message: head@ + name + tail@ }
}

/// The finding at the flagged use, if a use is flagged.
pub open spec fn finding_at(
    flagged: Option<int>,
    uses: Seq<Range>,
    severity: DiagnosticSeverity,
    code: &str,
    head: &str,
    name: Seq<char>,
    tail: &str,
) -> Seq<DiagnosticView> {
    match flagged {
        Some(i) => seq![finding(uses[i], severity, code, head, name, tail)],
        None => Seq::empty(),
    }
}

/// The findings for a struct field, one at most per detector, in the
/// order: mixed atomic access, lock coverage, heavy work under a lock,
/// retention, read before write, write-only.
pub open spec fn field_findings(
    facts: Seq<UseFacts>,
    uses: Seq<Range>,
    declaration: Range,
    name: Seq<char>,
) -> Seq<DiagnosticView> {
    finding_at(
        mixed_atomic(facts),
        uses,
        DiagnosticSeverity::Warning,
        "field-mixed-atomic",
        "Field `",
        name,
        "` is accessed both atomically and non-atomically",
    ) + finding_at(
        lock_coverage(facts),
        uses,
        DiagnosticSeverity::Warning,
        "field-lock-coverage",
        "Field `",
        name,
        "` is accessed both with and without a lock held",
    ) + finding_at(
        heavy_under_lock(facts),
        uses,
        DiagnosticSeverity::Info,
        "field-heavy-under-lock",
        "Heavy work while the lock that guards `",
        name,
        "` is held",
    ) + finding_at(
        retention_risk(facts),
        uses,
        DiagnosticSeverity::Info,
        "field-retention",
        "Assignment to `",
        name,
        "` may keep a larger allocation alive",
    ) + finding_at(
        read_before_write(facts),
        uses,
        DiagnosticSeverity::Info,
        "field-read-before-write",
        "Field `",
        name,
        "` is read before it is written in this context",
    ) + if write_only(facts) {
        seq![
            finding(
                declaration,
                DiagnosticSeverity::Info,
                "field-write-only",
                "Field `",
                name,
                "` looks write-only in this file",
            ),
        ]
    } else {
        Seq::empty()
    }
}

/// The findings for a variable: those for a struct field where its
/// declaration stands in a field declaration; else, for a variable that
/// is no pointer, the copy finding.
pub open spec fn findings(nodes: Seq<SyntaxNode>, src: Seq<u8>, info: VariableInfo) -> Seq<
    DiagnosticView,
> {
    let field = match selected_node(nodes, info.declaration.start) {
        Some(d) => field_declaration_of(nodes, d),
        None => None,
    };
    match field {
        Some(f) => field_findings(
            facts_of(nodes, src, field_type_of(nodes, src, f), info.uses@),
            info.uses@,
            info.declaration,
            info.name@,
        ),
        None => if info.is_pointer {
            Seq::empty()
        } else {
            finding_at(
                struct_copy(facts_of(nodes, src, FieldType::OtherType, info.uses@)),
                info.uses@,
                DiagnosticSeverity::Info,
                "large-struct-copy",
                "`",
                info.name@,
                "` may be copied by value here",
            )
        },
    }
}

/// The field declaration that holds node `i`.
pub fn find_field_declaration(tree: &SyntaxTree, i: usize) -> (r: Option<usize>)
    requires
        i < tree@.len(),
    ensures
        opt(r) == field_declaration_of(tree@, i as int),
        r is Some ==> r.unwrap() <= i,
{
    let mut k: usize = i;
    loop
        invariant
            k <= i < tree@.len(),
            field_declaration_of(tree@, i as int) == field_declaration_of(tree@, k as int),
        decreases k,
    {
        if tree.kind_is(k, "field_declaration") {
            return Some(k);
        }
        if tree.kind_is(k, "function_declaration") || tree.kind_is(k, "method_declaration")
            || tree.kind_is(k, "func_literal") {
            return None;
        }
        match tree.parent(k) {
            Some(p) => {
                k = p;
            },
            None => {
                return None;
            },
        }
    }
}

/// The sort of type that field declaration `f` gives its fields.
pub fn classify_field_type(tree: &SyntaxTree, src: &[u8], f: usize) -> (r: FieldType)
    requires
        f < tree@.len(),
    ensures
        r == field_type_of(tree@, src@, f as int),
{
    let _ = tree.len();
    assert(node_ok(tree@, f as int));
    match tree.child_by_field_name(f, "type") {
        Some(t) => if tree.kind_is(t, "slice_type") {
            FieldType::SliceType
        } else if tree.kind_is(t, "map_type") {
            FieldType::MapType
        } else if tree.kind_is(t, "type_identifier") && tree.text_is(src, t, "string".as_bytes()) {
            FieldType::StringType
        } else {
            FieldType::OtherType
        },
        None => FieldType::OtherType,
    }
}

fn is_heavy_call(tree: &SyntaxTree, src: &[u8], c: usize) -> (r: bool)
    requires
        c < tree@.len(),
    ensures
        r == heavy_call(tree@, src@, c as int),
{
    let _ = tree.len();
    assert(node_ok(tree@, c as int));
    if !tree.kind_is(c, "call_expression") {
        return false;
    }
    match tree.child_by_field_name(c, "function") {
        Some(f) => {
            assert(node_ok(tree@, f as int));
            if tree.kind_is(f, "identifier") {
                tree.text_is(src, f, "append".as_bytes()) || tree.text_is(src, f, "copy".as_bytes())
            } else if tree.kind_is(f, "selector_expression") {
                match tree.child_by_field_name(f, "operand") {
                    Some(o) => tree.text_is(src, o, "fmt".as_bytes()) || tree.text_is(
                        src,
                        o,
                        "sort".as_bytes(),
                    ),
                    None => false,
                }
            } else {
                false
            }
        },
        None => false,
    }
}

fn is_in_heavy_call(tree: &SyntaxTree, src: &[u8], i: usize) -> (r: bool)
    requires
        i < tree@.len(),
    ensures
        r == in_heavy_call(tree@, src@, i as int),
{
    let mut k: usize = i;
    loop
        invariant
            k <= i < tree@.len(),
            in_heavy_call(tree@, src@, i as int) == in_heavy_call(tree@, src@, k as int),
        decreases k,
    {
        if is_heavy_call(tree, src, k) {
            return true;
        }
        match tree.parent(k) {
            Some(p) => {
                k = p;
            },
            None => {
                return false;
            },
        }
    }
}

fn find_assigned_value(tree: &SyntaxTree, t: usize) -> (r: Option<usize>)
    requires
        t < tree@.len(),
    ensures
        opt(r) == assigned_value(tree@, t as int),
        r is Some ==> r.unwrap() < tree@.len(),
{
    let _ = tree.len();
    match find_assigned_side(tree, t) {
        Some(l) => match tree.parent(l) {
            Some(s) => {
                assert(node_ok(tree@, s as int));
                match tree.child_by_field_name(s, "right") {
                    Some(r) => {
                        if r + 1 < tree.subtree_end(r) {
                            Some(r + 1)
                        } else {
                            None
                        }
                    },
                    None => None,
                }
            },
            None => None,
        },
        None => None,
    }
}

fn does_retain(tree: &SyntaxTree, t: usize, sort: FieldType) -> (r: bool)
    requires
        t < tree@.len(),
    ensures
        r == retains_at(tree@, t as int, sort),
{
    match find_assigned_value(tree, t) {
        Some(v) => match sort {
            FieldType::SliceType | FieldType::StringType => tree.kind_is(v, "slice_expression"),
            FieldType::MapType => tree.kind_is(v, "identifier") || tree.kind_is(
                v,
                "selector_expression",
            ) || tree.kind_is(v, "index_expression"),
            FieldType::OtherType => false,
        },
        None => false,
    }
}

fn is_copied(tree: &SyntaxTree, t: usize) -> (r: bool)
    requires
        t < tree@.len(),
    ensures
        r == copied_at(tree@, t as int),
{
    match tree.parent(t) {
        Some(p) => tree.kind_is(p, "argument_list") || (tree.kind_is(p, "expression_list")
            && match tree.parent(p) {
            Some(s) => tree.kind_is(s, "return_statement") || (tree.field_is(p, "right") && (
            tree.kind_is(s, "assignment_statement") || tree.kind_is(s, "short_var_declaration"))),
            None => false,
        }),
        None => false,
    }
}

/// The facts about the use at `at` of a field of the given sort.
fn facts_at(tree: &SyntaxTree, code: &str, funcs: &Vec<usize>, sort: FieldType, at: Range) -> (r:
    UseFacts)
    requires
        funcs@ == sync_functions(tree@, code.spec_bytes(), tree@.len() as int),
    ensures
        r == use_facts(tree@, code.spec_bytes(), sort, at),
{
    let src = code.as_bytes();
    match find_node_at_position(tree, at.start) {
        Some(t) => {
            let atomic = match tree.nearest_of_kind(t, "call_expression") {
                Some(c) => is_atomic_call(tree, src, c),
                None => false,
            };
            let context = match find_exec_context(tree, t) {
                Some(c) => Some((tree.node(c).start_byte, tree.node(c).end_byte)),
                None => None,
            };
            UseFacts {
                atomic,
                synchronized: is_synchronized_at(tree, src, t, funcs),
                write: is_write_access(tree, t),
                assigned: find_assigned_side(tree, t).is_some(),
                heavy: is_in_heavy_call(tree, src, t),
                retains: does_retain(tree, t, sort),
                copied: is_copied(tree, t),
                context,
            }
        },
        None => UseFacts {
            atomic: false,
            synchronized: false,
            write: false,
            assigned: false,
            heavy: false,
            retains: false,
            copied: false,
            context: None,
        },
    }
}

/// The facts about each of the uses.
pub fn collect_facts(tree: &SyntaxTree, code: &str, sort: FieldType, uses: &Vec<Range>) -> (r: Vec<
    UseFacts,
>)
    ensures
        r@ == facts_of(tree@, code.spec_bytes(), sort, uses@),
{
    let funcs = known_sync_funcs(tree, code);
    let mut out: Vec<UseFacts> = Vec::new();
    let mut i: usize = 0;
    while i < uses.len()
        invariant
            i <= uses@.len(),
            funcs@ == sync_functions(tree@, code.spec_bytes(), tree@.len() as int),
            out@ == facts_of(tree@, code.spec_bytes(), sort, uses@.subrange(0, i as int)),
        decreases uses@.len() - i,
    {
        let f = facts_at(tree, code, &funcs, sort, uses[i]);
        out.push(f);
        i += 1;
    }
    out
}

fn same_span(a: Option<(usize, usize)>, b: Option<(usize, usize)>) -> (r: bool)
    ensures
        r == (a == b),
{
    match (a, b) {
        (Some(x), Some(y)) => x.0 == y.0 && x.1 == y.1,
        (None, None) => true,
        _ => false,
    }
}

fn is_written_later(facts: &Vec<UseFacts>, i: usize) -> (r: bool)
    requires
        i < facts@.len(),
    ensures
        r == written_later(facts@, i as int),
{
    let count = facts.len();
    let mut j: usize = i + 1;
    while j < count
        invariant
            i < j <= facts@.len(),
            count == facts@.len(),
            forall|k: int|
                i < k < j ==> !((#[trigger] facts@[k]).write && facts@[k].context
                    == facts@[i as int].context),
        decreases count - j,
    {
        if facts[j].write && same_span(facts[j].context, facts[i].context) {
            return true;
        }
        j += 1;
    }
    false
}

fn probe_at(facts: &Vec<UseFacts>, i: usize, probe: Probe) -> (r: bool)
    requires
        i < facts@.len(),
    ensures
        r == probe_holds(facts@, i as int, probe),
{
    match probe {
        Probe::Atomic => facts[i].atomic,
        Probe::NotAtomic => !facts[i].atomic,
        Probe::Synchronized => facts[i].synchronized,
        Probe::NotSynchronized => !facts[i].synchronized,
        Probe::HeavyUnderLock => facts[i].synchronized && facts[i].heavy,
        Probe::Retains => facts[i].retains,
        Probe::ReadBeforeWrite => !facts[i].write && is_written_later(facts, i),
        Probe::NotAssigned => !facts[i].assigned,
        Probe::Copied => facts[i].copied,
    }
}

/// The first use that is what the probe looks for.
pub fn find_first(facts: &Vec<UseFacts>, probe: Probe) -> (r: Option<usize>)
    ensures
        opt(r) == first_index(facts@, probe, 0),
        r is Some ==> r.unwrap() < facts@.len(),
{
    let mut i: usize = 0;
    while i < facts.len()
        invariant
            i <= facts@.len(),
            first_index(facts@, probe, 0) == first_index(facts@, probe, i as int),
        decreases facts@.len() - i,
    {
        if probe_at(facts, i, probe) {
            return Some(i);
        }
        i += 1;
    }
    None
}

fn push_finding(
    out: &mut Vec<Diagnostic>,
    flagged: Option<usize>,
    uses: &Vec<Range>,
    severity: DiagnosticSeverity,
    code: &str,
    head: &str,
    name: &str,
    tail: &str,
)
    requires
        flagged is Some ==> flagged.unwrap() < uses@.len(),
    ensures
        diagnostics_view(final(out)@) == diagnostics_view(old(out)@) + finding_at(
            opt(flagged),
            uses@,
            severity,
            code,
            head,
            name@,
            tail,
        ),
{
    match flagged {
        Some(i) => {
            let d = Diagnostic {
                range: uses[i],
                severity,
                code: String::from_str(code),
                message: String::from_str(head).concat(name).concat(tail),
            };
            out.push(d);
        },
        None => {},
    }
}

/// The findings for a struct field with the given facts about its uses.
fn field_diagnostics(
    facts: &Vec<UseFacts>,
    uses: &Vec<Range>,
    declaration: Range,
    name: &str,
) -> (r: Vec<Diagnostic>)
    requires
        facts@.len() == uses@.len(),
    ensures
        diagnostics_view(r@) == field_findings(facts@, uses@, declaration, name@),
{
    let mut out: Vec<Diagnostic> = Vec::new();
    let mixed = if find_first(facts, Probe::Atomic).is_some() {
        find_first(facts, Probe::NotAtomic)
    } else {
        None
    };
    push_finding(
        &mut out,
        mixed,
        uses,
        DiagnosticSeverity::Warning,
        "field-mixed-atomic",
        "Field `",
        name,
        "` is accessed both atomically and non-atomically",
    );
    let coverage = if find_first(facts, Probe::Synchronized).is_some() {
        find_first(facts, Probe::NotSynchronized)
    } else {
        None
    };
    push_finding(
        &mut out,
        coverage,
        uses,
        DiagnosticSeverity::Warning,
        "field-lock-coverage",
        "Field `",
        name,
        "` is accessed both with and without a lock held",
    );
    push_finding(
        &mut out,
        find_first(facts, Probe::HeavyUnderLock),
        uses,
        DiagnosticSeverity::Info,
        "field-heavy-under-lock",
        "Heavy work while the lock that guards `",
        name,
        "` is held",
    );
    push_finding(
        &mut out,
        find_first(facts, Probe::Retains),
        uses,
        DiagnosticSeverity::Info,
        "field-retention",
        "Assignment to `",
        name,
        "` may keep a larger allocation alive",
    );
    push_finding(
        &mut out,
        find_first(facts, Probe::ReadBeforeWrite),
        uses,
        DiagnosticSeverity::Info,
        "field-read-before-write",
        "Field `",
        name,
        "` is read before it is written in this context",
    );
    if facts.len() >= 2 && find_first(facts, Probe::NotAssigned).is_none() {
        let d = Diagnostic {
            range: declaration,
            severity: DiagnosticSeverity::Info,
            code: String::from_str("field-write-only"),
            message: String::from_str("Field `").concat(name).concat(
                "` looks write-only in this file",
            ),
        };
        out.push(d);
    }
    out
}

/// Runs the detectors on a resolved variable: those for struct fields
/// where its declaration stands in a field declaration, else the copy
/// detector for a variable that is no pointer. Each detector reports at
/// most once.
pub fn analyze_heuristics(tree: &SyntaxTree, code: &str, info: &VariableInfo) -> (r: Vec<Diagnostic>)
    ensures
        diagnostics_view(r@) == findings(tree@, code.spec_bytes(), *info),
{
    let field = match find_node_at_position(tree, info.declaration.start) {
        Some(d) => find_field_declaration(tree, d),
        None => None,
    };
    match field {
        Some(f) => {
            let sort = classify_field_type(tree, code.as_bytes(), f);
            let facts = collect_facts(tree, code, sort, &info.uses);
            field_diagnostics(&facts, &info.uses, info.declaration, info.name.as_str())
        },
        None => {
            let mut out: Vec<Diagnostic> = Vec::new();
            if !info.is_pointer {
                let facts = collect_facts(tree, code, FieldType::OtherType, &info.uses);
                push_finding(
                    &mut out,
                    find_first(&facts, Probe::Copied),
                    &info.uses,
                    DiagnosticSeverity::Info,
                    "large-struct-copy",
                    "`",
                    info.name.as_str(),
                    "` may be copied by value here",
                );
            }
            out
        },
    }
}

} // verus!
