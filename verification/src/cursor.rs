//! Locating the node under a position and classifying what the cursor is on.

use crate::syntax::{field_child, has_kind, node_ok, node_range, opt, SyntaxNode, SyntaxTree};
use crate::text::{decimal, decimal_text};
use crate::types::{pos_le, CursorContext, CursorContextType, Position, Range};
use vstd::prelude::*;
use vstd::string::StringExecFns;

verus! {

/// Whether node `i` spans position `p`, both ends included.
pub open spec fn spans(nodes: Seq<SyntaxNode>, i: int, p: Position) -> bool {
    pos_le(nodes[i].start, p) && pos_le(p, nodes[i].end)
}

/// The measure by which spans are compared: the width in columns of a
/// single-line node, and a thousand per line plus both columns otherwise.
pub open spec fn node_size(nodes: Seq<SyntaxNode>, i: int) -> int {
    let s = nodes[i].start;
    let e = nodes[i].end;
    if s.line == e.line {
        e.character - s.character
    } else {
        (e.line - s.line) * 1000 + e.character + s.character
    }
}

/// Kinds that are punctuation, operators, comments or white space.
pub open spec fn is_token_kind(k: Seq<char>) -> bool {
    k == "{"@ || k == "}"@ || k == "("@ || k == ")"@ || k == "["@ || k == "]"@ || k == ","@ || k
        == ";"@ || k == ":"@ || k == "."@ || k == "="@ || k == "+"@ || k == "-"@ || k == "*"@ || k
        == "/"@ || k == "%"@ || k == "<"@ || k == ">"@ || k == "!"@ || k == "&"@ || k == "|"@ || k
        == "^"@ || k == "~"@ || k == "?"@ || k == "comment"@ || k == "\n"@ || k == " "@
}

/// Whether node `i` is worth stopping the cursor on.
pub open spec fn meaningful(nodes: Seq<SyntaxNode>, i: int) -> bool {
    !is_token_kind(nodes[i].kind@)
}

/// Whether `b` is the node the cursor at `p` selects: the root, or a
/// meaningful node that spans `p`; no larger than the root; and such that
/// every meaningful node that spans `p` is larger, or as large and no later
/// in document order.
pub open spec fn is_best_node(nodes: Seq<SyntaxNode>, p: Position, b: int) -> bool {
    &&& 0 <= b < nodes.len()
    &&& b == 0 || (spans(nodes, b, p) && meaningful(nodes, b))
    &&& node_size(nodes, b) <= node_size(nodes, 0)
    &&& forall|i: int|
        1 <= i < nodes.len() && spans(nodes, i, p) && #[trigger] meaningful(nodes, i) ==> node_size(
            nodes,
            b,
        ) < node_size(nodes, i) || (node_size(nodes, b) == node_size(nodes, i) && i <= b)
}

/// What `find_node_at_position` returns: nothing where the root does not
/// span `p`, else the selected node.
pub open spec fn node_at_position(nodes: Seq<SyntaxNode>, p: Position, r: Option<usize>) -> bool {
    match r {
        None => !spans(nodes, 0, p),
        Some(b) => spans(nodes, 0, p) && is_best_node(nodes, p, b as int),
    }
}

/// The node the cursor at `p` selects, where the root spans `p`.
pub open spec fn selected_node(nodes: Seq<SyntaxNode>, p: Position) -> Option<int> {
    if spans(nodes, 0, p) {
        Some(choose|b: int| is_best_node(nodes, p, b))
    } else {
        None
    }
}

/// The cursor's selection is unique.
pub proof fn lemma_best_node_unique(nodes: Seq<SyntaxNode>, p: Position, a: int, b: int)
    requires
        is_best_node(nodes, p, a),
        is_best_node(nodes, p, b),
    ensures
        a == b,
{
}

/// Whether node `i` spans `p`.
pub fn is_position_in_node_range(tree: &SyntaxTree, i: usize, p: Position) -> (r: bool)
    requires
        i < tree@.len(),
    ensures
        r == spans(tree@, i as int, p),
{
    let n = tree.node(i);
    n.start.at_or_before(&p) && p.at_or_before(&n.end)
}

/// The size of node `i` for comparing spans.
pub fn size_of_node(tree: &SyntaxTree, i: usize) -> (r: u64)
    requires
        i < tree@.len(),
    ensures
        r == node_size(tree@, i as int),
{
    let _ = tree.len();
    assert(node_ok(tree@, i as int));
    let n = tree.node(i);
    if n.start.line == n.end.line {
        (n.end.character - n.start.character) as u64
    } else {
        (n.end.line - n.start.line) as u64 * 1000 + n.end.character as u64
            + n.start.character as u64
    }
}

/// Whether node `i` is worth stopping the cursor on.
pub fn is_meaningful_node(tree: &SyntaxTree, i: usize) -> (r: bool)
    requires
        i < tree@.len(),
    ensures
        r == meaningful(tree@, i as int),
{
    !(tree.kind_is(i, "{") || tree.kind_is(i, "}") || tree.kind_is(i, "(") || tree.kind_is(i, ")")
        || tree.kind_is(i, "[") || tree.kind_is(i, "]") || tree.kind_is(i, ",") || tree.kind_is(
        i,
        ";",
    ) || tree.kind_is(i, ":") || tree.kind_is(i, ".") || tree.kind_is(i, "=") || tree.kind_is(
        i,
        "+",
    ) || tree.kind_is(i, "-") || tree.kind_is(i, "*") || tree.kind_is(i, "/") || tree.kind_is(
        i,
        "%",
    ) || tree.kind_is(i, "<") || tree.kind_is(i, ">") || tree.kind_is(i, "!") || tree.kind_is(
        i,
        "&",
    ) || tree.kind_is(i, "|") || tree.kind_is(i, "^") || tree.kind_is(i, "~") || tree.kind_is(
        i,
        "?",
    ) || tree.kind_is(i, "comment") || tree.kind_is(i, "\n") || tree.kind_is(i, " "))
}

/// The most specific meaningful node that spans `p`: the smallest by
/// `node_size`, the later in document order among equals, so that a leaf
/// wins over an ancestor of the same span.
pub fn find_node_at_position(tree: &SyntaxTree, p: Position) -> (r: Option<usize>)
    ensures
        node_at_position(tree@, p, r),
        opt(r) == selected_node(tree@, p),
        r is Some ==> r.unwrap() < tree@.len(),
{
    let n = tree.len();
    if !is_position_in_node_range(tree, 0, p) {
        return None;
    }
    let mut best: usize = 0;
    let mut best_size: u64 = size_of_node(tree, 0);
    let mut i: usize = 1;
    while i < n
        invariant
            1 <= i <= n,
            n == tree@.len(),
            0 <= best < i,
            best_size == node_size(tree@, best as int),
            best == 0 || (spans(tree@, best as int, p) && meaningful(tree@, best as int)),
            best_size <= node_size(tree@, 0),
            forall|k: int|
                1 <= k < i && spans(tree@, k, p) && #[trigger] meaningful(tree@, k) ==> best_size
                    < node_size(tree@, k) || (best_size == node_size(tree@, k) && k <= best),
        decreases n - i,
    {
        if is_position_in_node_range(tree, i, p) && is_meaningful_node(tree, i) {
            let size = size_of_node(tree, i);
            if size <= best_size {
                best = i;
                best_size = size;
            }
        }
        i += 1;
    }
    proof {
        lemma_best_node_unique(tree@, p, best as int, selected_node(tree@, p).unwrap());
    }
    Some(best)
}

/// The line/column range of a node.
pub fn node_to_range(tree: &SyntaxTree, node: usize) -> (r: Range)
    requires
        node < tree@.len(),
    ensures
        r == node_range(tree@, node as int),
{
    tree.range(node)
}

/// The context of an identifier by the kind of its parent `p`.
pub open spec fn identifier_context(nodes: Seq<SyntaxNode>, i: int, p: int) -> CursorContextType {
    if has_kind(nodes, p, "var_spec") || has_kind(nodes, p, "short_var_declaration") {
        CursorContextType::VariableDeclaration
    } else if has_kind(nodes, p, "parameter_declaration") {
        CursorContextType::ParameterDeclaration
    } else if has_kind(nodes, p, "field_identifier") {
        CursorContextType::StructField
    } else if has_kind(nodes, p, "function_declaration") {
        CursorContextType::FunctionName
    } else if has_kind(nodes, p, "call_expression") {
        CursorContextType::FunctionCall
    } else if has_kind(nodes, p, "selector_expression") {
        match field_child(nodes, p, "field") {
            Some(f) => if f == i {
                CursorContextType::FieldAccess
            } else {
                CursorContextType::ObjectAccess
            },
            None => CursorContextType::VariableUse,
        }
    } else if has_kind(nodes, p, "go_statement") {
        CursorContextType::GoroutineContext
    } else if has_kind(nodes, p, "assignment_statement") {
        CursorContextType::Assignment
    } else {
        CursorContextType::VariableUse
    }
}

/// The context that node `i` stands for.
pub open spec fn cursor_context(nodes: Seq<SyntaxNode>, i: int) -> CursorContextType {
    if has_kind(nodes, i, "identifier") {
        match nodes[i].parent {
            Some(p) => identifier_context(nodes, i, p as int),
            None => CursorContextType::Unknown,
        }
    } else if has_kind(nodes, i, "field_identifier") {
        CursorContextType::FieldAccess
    } else if has_kind(nodes, i, "type_identifier") {
        CursorContextType::TypeReference
    } else if has_kind(nodes, i, "package_identifier") {
        CursorContextType::PackageReference
    } else if has_kind(nodes, i, "function_declaration") {
        CursorContextType::FunctionDeclaration
    } else if has_kind(nodes, i, "go_statement") {
        CursorContextType::GoroutineStatement
    } else if has_kind(nodes, i, "channel_type") {
        CursorContextType::ChannelType
    } else if has_kind(nodes, i, "interface_type") {
        CursorContextType::InterfaceType
    } else if has_kind(nodes, i, "struct_type") {
        CursorContextType::StructType
    } else {
        CursorContextType::Unknown
    }
}

fn context_of_identifier(tree: &SyntaxTree, i: usize, p: usize) -> (r: CursorContextType)
    requires
        i < tree@.len(),
        p < tree@.len(),
    ensures
        r == identifier_context(tree@, i as int, p as int),
{
    if tree.kind_is(p, "var_spec") || tree.kind_is(p, "short_var_declaration") {
        CursorContextType::VariableDeclaration
    } else if tree.kind_is(p, "parameter_declaration") {
        CursorContextType::ParameterDeclaration
    } else if tree.kind_is(p, "field_identifier") {
        CursorContextType::StructField
    } else if tree.kind_is(p, "function_declaration") {
        CursorContextType::FunctionName
    } else if tree.kind_is(p, "call_expression") {
        CursorContextType::FunctionCall
    } else if tree.kind_is(p, "selector_expression") {
        match tree.child_by_field_name(p, "field") {
            Some(f) => if f == i {
                CursorContextType::FieldAccess
            } else {
                CursorContextType::ObjectAccess
            },
            None => CursorContextType::VariableUse,
        }
    } else if tree.kind_is(p, "go_statement") {
        CursorContextType::GoroutineContext
    } else if tree.kind_is(p, "assignment_statement") {
        CursorContextType::Assignment
    } else {
        CursorContextType::VariableUse
    }
}

/// Classifies what node `i` stands for under the cursor.
pub fn determine_cursor_context(tree: &SyntaxTree, i: usize) -> (r: CursorContextType)
    requires
        i < tree@.len(),
    ensures
        r == cursor_context(tree@, i as int),
{
    if tree.kind_is(i, "identifier") {
        match tree.parent(i) {
            Some(p) => context_of_identifier(tree, i, p),
            None => CursorContextType::Unknown,
        }
    } else if tree.kind_is(i, "field_identifier") {
        CursorContextType::FieldAccess
    } else if tree.kind_is(i, "type_identifier") {
        CursorContextType::TypeReference
    } else if tree.kind_is(i, "package_identifier") {
        CursorContextType::PackageReference
    } else if tree.kind_is(i, "function_declaration") {
        CursorContextType::FunctionDeclaration
    } else if tree.kind_is(i, "go_statement") {
        CursorContextType::GoroutineStatement
    } else if tree.kind_is(i, "channel_type") {
        CursorContextType::ChannelType
    } else if tree.kind_is(i, "interface_type") {
        CursorContextType::InterfaceType
    } else if tree.kind_is(i, "struct_type") {
        CursorContextType::StructType
    } else {
        CursorContextType::Unknown
    }
}

/// The text of the details line: the node's kind and the cursor position.
pub open spec fn details_text(kind: Seq<char>, p: Position) -> Seq<char> {
    "Node: "@ + kind + " at "@ + decimal_text(p.line as nat) + ":"@ + decimal_text(
        p.character as nat,
    )
}

/// Describes the node under the cursor: its kind, range, context and its
/// parent's context. Nothing where the position lies outside the tree.
pub fn find_node_at_cursor_with_context(tree: &SyntaxTree, position: Position) -> (r: Option<
    CursorContext,
>)
    ensures
        match selected_node(tree@, position) {
            None => r is None,
            Some(b) => {
                &&& r is Some
                &&& r.unwrap().target_node_kind@ == tree@[b].kind@
                &&& r.unwrap().position == node_range(tree@, b)
                &&& r.unwrap().context_type == cursor_context(tree@, b)
                &&& r.unwrap().parent_context == match tree@[b].parent {
                    Some(p) => Some(cursor_context(tree@, p as int)),
                    None => None,
                }
                &&& r.unwrap().details is Some
                &&& r.unwrap().details.unwrap()@ == details_text(tree@[b].kind@, position)
            },
        },
{
    match find_node_at_position(tree, position) {
        None => None,
        Some(b) => {
            let parent_context = match tree.parent(b) {
                Some(p) => Some(determine_cursor_context(tree, p)),
                None => None,
            };
            let kind = tree.node(b).kind.clone();
            let line = decimal(position.line as u64);
            let character = decimal(position.character as u64);
            let details = String::from_str("Node: ").concat(kind.as_str()).concat(" at ").concat(
                line.as_str(),
            ).concat(":").concat(character.as_str());
            let context = CursorContext {
                target_node_kind: kind,
                position: node_to_range(tree, b),
                context_type: determine_cursor_context(tree, b),
                parent_context,
                details: Some(details),
            };
            Some(context)
        },
    }
}

} // verus!
