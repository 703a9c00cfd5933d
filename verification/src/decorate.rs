//! What the editor is told about a resolved variable: a decoration for
//! its declaration and each use, and the hover text.

use crate::concurrency::{
    captured, in_goroutine, is_in_goroutine, is_variable_captured, is_variable_reassignment,
    race_severity, race_severity_with, reassigned_at,
};
use crate::cursor::{find_node_at_position, selected_node};
use crate::semantic::{SemanticUse, SemanticVariable};
use crate::sync::{exec_context, find_exec_context, known_sync_funcs, sync_functions};
use crate::syntax::{has_kind, SyntaxNode, SyntaxTree};
use crate::text::{decimal, decimal_text};
use crate::types::{Decoration, DecorationType, RaceSeverity, Range, VariableInfo};
use vstd::prelude::*;
use vstd::string::StringExecFns;
use vstd::string::StringSliceAdditionalSpecFns;
use vstd::utf8::encode_utf8;

verus! {

/// Whether race and capture findings are due for what is declared at
/// `decl`: the declaration stands outside every function, method and
/// closure, or it is a struct field.
pub open spec fn is_shared(nodes: Seq<SyntaxNode>, decl: Range) -> bool {
    match selected_node(nodes, decl.start) {
        Some(d) => exec_context(nodes, d) is None || has_kind(nodes, d, "field_identifier"),
        None => true,
    }
}

/// What the use at `at` is marked as: for a shared variable inside a
/// goroutine a race (a low one where synchronized), whether the use
/// reads, writes or captures; else a reassignment; else, for a shared
/// variable, a capture; else a pointer or plain use.
pub open spec fn use_kind(
    nodes: Seq<SyntaxNode>,
    src: Seq<u8>,
    name: Seq<u8>,
    is_pointer: bool,
    decl: Range,
    at: Range,
) -> DecorationType {
    let t = selected_node(nodes, at.start);
    if is_racy_use(nodes, decl, at) {
        if race_severity(nodes, src, at.start) == RaceSeverity::Low {
            DecorationType::RaceLow
        } else {
            DecorationType::Race
        }
    } else if t is Some && reassigned_at(nodes, src, t.unwrap(), name) {
        DecorationType::AliasReassigned
    } else if is_shared(nodes, decl) && is_captured_use(nodes, decl, at) {
        DecorationType::AliasCaptured
    } else if is_pointer {
        DecorationType::Pointer
    } else {
        DecorationType::Use
    }
}

/// Whether the use at `at` captures what is declared at `decl`.
pub open spec fn is_captured_use(nodes: Seq<SyntaxNode>, decl: Range, at: Range) -> bool {
    match (selected_node(nodes, at.start), selected_node(nodes, decl.start)) {
        (Some(u), Some(d)) => captured(nodes, u, d),
        _ => false,
    }
}

/// Whether the use at `at` is reported as a possible race: the variable
/// is shared and the use stands inside a goroutine.
pub open spec fn is_racy_use(nodes: Seq<SyntaxNode>, decl: Range, at: Range) -> bool {
    is_shared(nodes, decl) && in_goroutine(nodes, at.start)
}

/// The hover text of a use of `name` marked as `kind`, of the given race
/// severity.
pub open spec fn use_hover(name: Seq<char>, kind: DecorationType, severity: RaceSeverity) -> Seq<
    char,
> {
    match kind {
        DecorationType::AliasReassigned => "Reassignment of `"@ + name + "`"@,
        DecorationType::AliasCaptured => "Captured `"@ + name + "` in closure/goroutine"@,
        DecorationType::RaceLow => "Use of `"@ + name
            + "` in goroutine - LOW PRIORITY (sync detected)"@,
        DecorationType::Race => if severity == RaceSeverity::High {
            "Use of `"@ + name + "` in goroutine - HIGH PRIORITY data race!"@
        } else {
            "Use of `"@ + name + "` in goroutine - potential data race"@
        },
        DecorationType::Declaration => "Declaration of `"@ + name + "`"@,
        _ => "Use of `"@ + name + "`"@,
    }
}

/// Whether `d` decorates the use at `at` of the variable.
pub open spec fn decorates_use(
    nodes: Seq<SyntaxNode>,
    src: Seq<u8>,
    name: Seq<char>,
    is_pointer: bool,
    decl: Range,
    at: Range,
    d: Decoration,
) -> bool {
    &&& d.range == at
    &&& d.kind == use_kind(nodes, src, encode_utf8(name), is_pointer, decl, at)
    &&& d.hover_text@ == use_hover(name, d.kind, race_severity(nodes, src, at.start))
}

/// The race severity that the first `k` uses leave on the variable: that
/// of the last of them reported as a possible race, else the one it had.
pub open spec fn severity_after(
    nodes: Seq<SyntaxNode>,
    src: Seq<u8>,
    decl: Range,
    uses: Seq<Range>,
    start: RaceSeverity,
    k: int,
) -> RaceSeverity
    decreases k,
{
    if k <= 0 {
        start
    } else if is_racy_use(nodes, decl, uses[k - 1]) {
        race_severity(nodes, src, uses[k - 1].start)
    } else {
        severity_after(nodes, src, decl, uses, start, k - 1)
    }
}

/// Whether one of the first `k` uses is reported as a possible race.
pub open spec fn any_racy(nodes: Seq<SyntaxNode>, decl: Range, uses: Seq<Range>, k: int) -> bool
    decreases k,
{
    if k <= 0 {
        false
    } else {
        is_racy_use(nodes, decl, uses[k - 1]) || any_racy(nodes, decl, uses, k - 1)
    }
}

/// Whether race and capture findings are due for what is declared at
/// `decl`.
pub fn passes_globality_gate(tree: &SyntaxTree, decl: Range) -> (r: bool)
    ensures
        r == is_shared(tree@, decl),
{
    match find_node_at_position(tree, decl.start) {
        Some(d) => find_exec_context(tree, d).is_none() || tree.kind_is(d, "field_identifier"),
        None => true,
    }
}

/// The hover text of a use of `name` marked as `kind`.
pub fn hover_for_use(name: &str, kind: DecorationType, severity: RaceSeverity) -> (r: String)
    ensures
        r@ == use_hover(name@, kind, severity),
{
    match kind {
        DecorationType::AliasReassigned => String::from_str("Reassignment of `").concat(
            name,
        ).concat("`"),
        DecorationType::AliasCaptured => String::from_str("Captured `").concat(name).concat(
            "` in closure/goroutine",
        ),
        DecorationType::RaceLow => String::from_str("Use of `").concat(name).concat(
            "` in goroutine - LOW PRIORITY (sync detected)",
        ),
        DecorationType::Race => if severity == RaceSeverity::High {
            String::from_str("Use of `").concat(name).concat(
                "` in goroutine - HIGH PRIORITY data race!",
            )
        } else {
            String::from_str("Use of `").concat(name).concat(
                "` in goroutine - potential data race",
            )
        },
        DecorationType::Declaration => String::from_str("Declaration of `").concat(name).concat(
            "`",
        ),
        _ => String::from_str("Use of `").concat(name).concat("`"),
    }
}

/// Decorates a resolved variable: first its declaration, then each use in
/// order, marked as `use_kind` says. Every use of a shared variable inside
/// a goroutine is reported as a possible race: the variable's race
/// severity becomes that of the last such use, and its race flag is
/// raised where there is one.
pub fn decorate_variable(tree: &SyntaxTree, code: &str, info: &mut VariableInfo) -> (r: Vec<
    Decoration,
>)
    ensures
        final(info).name == old(info).name,
        final(info).declaration == old(info).declaration,
        final(info).uses == old(info).uses,
        final(info).is_pointer == old(info).is_pointer,
        final(info).var_id == old(info).var_id,
        final(info).potential_race == (old(info).potential_race || any_racy(
            tree@,
            old(info).declaration,
            old(info).uses@,
            old(info).uses@.len() as int,
        )),
        final(info).race_severity == severity_after(
            tree@,
            code.spec_bytes(),
            old(info).declaration,
            old(info).uses@,
            old(info).race_severity,
            old(info).uses@.len() as int,
        ),
        r@.len() == old(info).uses@.len() + 1,
        r@[0].range == old(info).declaration,
        r@[0].kind == DecorationType::Declaration,
        r@[0].hover_text@ == use_hover(
            old(info).name@,
            DecorationType::Declaration,
            RaceSeverity::Medium,
        ),
        forall|i: int|
            0 <= i < old(info).uses@.len() ==> decorates_use(
                tree@,
                code.spec_bytes(),
                old(info).name@,
                old(info).is_pointer,
                old(info).declaration,
                old(info).uses@[i],
                #[trigger] r@[i + 1],
            ),
{
    let ghost src = code.spec_bytes();
    let ghost start = info.race_severity;
    let ghost flagged = info.potential_race;
    let decl = info.declaration;
    let is_pointer = info.is_pointer;
    let shared = passes_globality_gate(tree, decl);
    let funcs = known_sync_funcs(tree, code);
    let mut severity = info.race_severity;
    let mut racy = info.potential_race;
    let mut out: Vec<Decoration> = Vec::new();
    out.push(
        Decoration {
            range: decl,
            kind: DecorationType::Declaration,
            hover_text: hover_for_use(
                info.name.as_str(),
                DecorationType::Declaration,
                RaceSeverity::Medium,
            ),
        },
    );
    let count = info.uses.len();
    let mut i: usize = 0;
    while i < count
        invariant
            i <= count,
            count == info.uses@.len(),
            *info == *old(info),
            src == code.spec_bytes(),
            decl == info.declaration,
            is_pointer == info.is_pointer,
            shared == is_shared(tree@, decl),
            funcs@ == sync_functions(tree@, src, tree@.len() as int),
            out@.len() == i + 1,
            out@[0].range == decl,
            out@[0].kind == DecorationType::Declaration,
            out@[0].hover_text@ == use_hover(
                info.name@,
                DecorationType::Declaration,
                RaceSeverity::Medium,
            ),
            racy == (flagged || any_racy(tree@, decl, info.uses@, i as int)),
            severity == severity_after(tree@, src, decl, info.uses@, start, i as int),
            forall|k: int|
                0 <= k < i ==> decorates_use(
                    tree@,
                    src,
                    info.name@,
                    is_pointer,
                    decl,
                    info.uses@[k],
                    #[trigger] out@[k + 1],
                ),
        decreases count - i,
    {
        let at = info.uses[i];
        let mut here = RaceSeverity::Medium;
        let kind = if shared && is_in_goroutine(tree, at) {
            here = race_severity_with(tree, at, code, &funcs);
            severity = here;
            racy = true;
            if here == RaceSeverity::Low {
                DecorationType::RaceLow
            } else {
                DecorationType::Race
            }
        } else if is_variable_reassignment(tree, info.name.as_str(), at, code) {
            DecorationType::AliasReassigned
        } else if shared && is_variable_captured(tree, info.name.as_str(), at, decl) {
            DecorationType::AliasCaptured
        } else if is_pointer {
            DecorationType::Pointer
        } else {
            DecorationType::Use
        };
        out.push(
            Decoration { range: at, kind, hover_text: hover_for_use(info.name.as_str(), kind, here) },
        );
        i += 1;
    }
    info.race_severity = severity;
    info.potential_race = racy;
    out
}

/// What a use reported by the semantic helper is marked as: a
/// reassignment or a capture where the helper says so, else a pointer or
/// plain use.
pub open spec fn semantic_kind(is_pointer: bool, u: SemanticUse) -> DecorationType {
    if u.reassign {
        DecorationType::AliasReassigned
    } else if u.captured {
        DecorationType::AliasCaptured
    } else if is_pointer {
        DecorationType::Pointer
    } else {
        DecorationType::Use
    }
}

/// Decorates a variable that the semantic helper resolved: first its
/// declaration, then each reported use in order, marked as the helper's
/// flags say.
pub fn decorate_semantic(variable: &SemanticVariable) -> (r: Vec<Decoration>)
    ensures
        r@.len() == variable.uses@.len() + 1,
        r@[0].range == variable.info.declaration,
        r@[0].kind == DecorationType::Declaration,
        r@[0].hover_text@ == use_hover(
            variable.info.name@,
            DecorationType::Declaration,
            RaceSeverity::Medium,
        ),
        forall|i: int|
            0 <= i < variable.uses@.len() ==> {
                &&& (#[trigger] r@[i + 1]).range == variable.uses@[i].range
                &&& r@[i + 1].kind == semantic_kind(variable.info.is_pointer, variable.uses@[i])
                &&& r@[i + 1].hover_text@ == use_hover(
                    variable.info.name@,
                    r@[i + 1].kind,
                    RaceSeverity::Medium,
                )
            },
{
    let name = variable.info.name.as_str();
    let mut out: Vec<Decoration> = Vec::new();
    out.push(
        Decoration {
            range: variable.info.declaration,
            kind: DecorationType::Declaration,
            hover_text: hover_for_use(name, DecorationType::Declaration, RaceSeverity::Medium),
        },
    );
    let count = variable.uses.len();
    let mut i: usize = 0;
    while i < count
        invariant
            i <= count,
            count == variable.uses@.len(),
            name@ == variable.info.name@,
            out@.len() == i + 1,
            out@[0].range == variable.info.declaration,
            out@[0].kind == DecorationType::Declaration,
            out@[0].hover_text@ == use_hover(
                variable.info.name@,
                DecorationType::Declaration,
                RaceSeverity::Medium,
            ),
            forall|k: int|
                0 <= k < i ==> {
                    &&& (#[trigger] out@[k + 1]).range == variable.uses@[k].range
                    &&& out@[k + 1].kind == semantic_kind(
                        variable.info.is_pointer,
                        variable.uses@[k],
                    )
                    &&& out@[k + 1].hover_text@ == use_hover(
                        variable.info.name@,
                        out@[k + 1].kind,
                        RaceSeverity::Medium,
                    )
                },
        decreases count - i,
    {
        let u = variable.uses[i];
        let kind = if u.reassign {
            DecorationType::AliasReassigned
        } else if u.captured {
            DecorationType::AliasCaptured
        } else if variable.info.is_pointer {
            DecorationType::Pointer
        } else {
            DecorationType::Use
        };
        out.push(
            Decoration {
                range: u.range,
                kind,
                hover_text: hover_for_use(name, kind, RaceSeverity::Medium),
            },
        );
        i += 1;
    }
    out
}

/// The text of the hover for a variable: its name, the line of its
/// declaration counted from one, whether it is a pointer or a value, the
/// number of its uses, and a warning where a race is possible.
pub open spec fn hover_text(info: VariableInfo) -> Seq<char> {
    "**Variable**: `"@ + info.name@ + "`\n\n**Declared at**: line "@ + decimal_text(
        (info.declaration.start.line + 1) as nat,
    ) + "\n**Type**: "@ + (if info.is_pointer {
        "Pointer"@
    } else {
        "Value"@
    }) + "\n**Uses**: "@ + decimal_text(info.uses@.len()) + "\n"@ + (if info.potential_race {
        "**Warning**: Potential data race detected!\n"@
    } else {
        Seq::empty()
    })
}

/// Renders the hover for a variable.
pub fn hover_markdown(info: &VariableInfo) -> (r: String)
    ensures
        r@ == hover_text(*info),
{
    let line = decimal(info.declaration.start.line as u64 + 1);
    let uses = decimal(info.uses.len() as u64);
    let sort = if info.is_pointer {
        "Pointer"
    } else {
        "Value"
    };
    let text = String::from_str("**Variable**: `").concat(info.name.as_str()).concat(
        "`\n\n**Declared at**: line ",
    ).concat(line.as_str()).concat("\n**Type**: ").concat(sort).concat("\n**Uses**: ").concat(
        uses.as_str(),
    ).concat("\n");
    if info.potential_race {
        text.concat("**Warning**: Potential data race detected!\n")
    } else {
        text
    }
}

} // verus!
