//! Parsing Go source with tree-sitter and copying the result into a
//! `SyntaxTree`.

use crate::syntax::{well_formed, SyntaxNode, SyntaxTree};
use crate::types::Position;
use vstd::prelude::*;

verus! {

/// `tree_sitter::Parser`, carried through without looking inside.
#[verifier::external_type_specification]
#[verifier::external_body]
pub struct ExParser(tree_sitter::Parser);

/// `tree_sitter::Language`, carried through without looking inside.
#[verifier::external_type_specification]
#[verifier::external_body]
pub struct ExLanguage(tree_sitter::Language);

/// `tree_sitter::Tree`, carried through without looking inside.
#[verifier::external_type_specification]
#[verifier::external_body]
pub struct ExTree(tree_sitter::Tree);

/// `tree_sitter::Node`, carried through without looking inside.
#[verifier::external_type_specification]
#[verifier::external_body]
pub struct ExNode<'a>(tree_sitter::Node<'a>);

/// `tree_sitter::TreeCursor`, carried through without looking inside.
#[verifier::external_type_specification]
#[verifier::external_body]
pub struct ExTreeCursor<'a>(tree_sitter::TreeCursor<'a>);

/// `tree_sitter::Parser::new`: a parser with no language set. Nothing is
/// claimed of it.
#[verifier::external_body]
fn new_parser() -> tree_sitter::Parser {
    tree_sitter::Parser::new()
}

/// `tree_sitter_go::language`: the Go grammar. Nothing is claimed of it.
#[verifier::external_body]
fn go_language() -> tree_sitter::Language {
    tree_sitter_go::language()
}

/// `tree_sitter::Parser::set_language`: reports whether the parser took the
/// grammar. Nothing is claimed of when it does.
#[verifier::external_body]
fn set_language(parser: &mut tree_sitter::Parser, language: tree_sitter::Language) -> bool {
    parser.set_language(language).is_ok()
}

/// `tree_sitter::Parser::parse` without an earlier tree. Nothing is claimed
/// of the tree, nor that there is one.
#[verifier::external_body]
fn parse_text(parser: &mut tree_sitter::Parser, code: &str) -> Option<tree_sitter::Tree> {
    parser.parse(code, None)
}

/// `tree_sitter::Tree::walk`: a cursor on the root.
#[verifier::external_body]
fn walk_tree<'a>(tree: &'a tree_sitter::Tree) -> tree_sitter::TreeCursor<'a> {
    tree.walk()
}

/// `tree_sitter::TreeCursor::node`: the node under the cursor.
#[verifier::external_body]
fn cursor_node<'a>(cursor: &tree_sitter::TreeCursor<'a>) -> tree_sitter::Node<'a> {
    cursor.node()
}

/// `tree_sitter::TreeCursor::field_name`: the field of the node under the
/// cursor within its parent.
#[verifier::external_body]
fn cursor_field_name<'a>(cursor: &tree_sitter::TreeCursor<'a>) -> Option<&'static str> {
    cursor.field_name()
}

/// `tree_sitter::TreeCursor::goto_first_child`: moves down and says whether
/// it did.
#[verifier::external_body]
fn goto_first_child<'a>(cursor: &mut tree_sitter::TreeCursor<'a>) -> bool {
    cursor.goto_first_child()
}

/// `tree_sitter::TreeCursor::goto_next_sibling`: moves right and says
/// whether it did.
#[verifier::external_body]
fn goto_next_sibling<'a>(cursor: &mut tree_sitter::TreeCursor<'a>) -> bool {
    cursor.goto_next_sibling()
}

/// `tree_sitter::TreeCursor::goto_parent`: moves up and says whether it did.
#[verifier::external_body]
fn goto_parent<'a>(cursor: &mut tree_sitter::TreeCursor<'a>) -> bool {
    cursor.goto_parent()
}

/// `tree_sitter::Node::kind`: the node's grammar tag.
#[verifier::external_body]
fn node_kind<'a>(node: &tree_sitter::Node<'a>) -> &'static str {
    node.kind()
}

/// `tree_sitter::Node::start_byte`.
#[verifier::external_body]
fn node_start_byte<'a>(node: &tree_sitter::Node<'a>) -> usize {
    node.start_byte()
}

/// `tree_sitter::Node::end_byte`.
#[verifier::external_body]
fn node_end_byte<'a>(node: &tree_sitter::Node<'a>) -> usize {
    node.end_byte()
}

/// `tree_sitter::Node::start_position` as (row, column).
#[verifier::external_body]
fn node_start_position<'a>(node: &tree_sitter::Node<'a>) -> (usize, usize) {
    let p = node.start_position();
    (p.row, p.column)
}

/// `tree_sitter::Node::end_position` as (row, column).
#[verifier::external_body]
fn node_end_position<'a>(node: &tree_sitter::Node<'a>) -> (usize, usize) {
    let p = node.end_position();
    (p.row, p.column)
}

/// The most nodes a tree may have to be copied.
pub const NODE_LIMIT: usize = 16_777_216;

fn to_position(point: (usize, usize)) -> (r: Option<Position>)
    ensures
        r is Some <==> point.0 <= u32::MAX && point.1 <= u32::MAX,
        r is Some ==> r.unwrap().line == point.0 && r.unwrap().character == point.1,
{
    if point.0 > u32::MAX as usize || point.1 > u32::MAX as usize {
        None
    } else {
        Some(Position { line: point.0 as u32, character: point.1 as u32 })
    }
}

/// Copies the node under the cursor, with the given parent and no subtree
/// end yet. Gives `None` where a row or column of the node is beyond
/// `u32`.
fn copy_node<'a>(cursor: &tree_sitter::TreeCursor<'a>, parent: Option<usize>) -> (r: Option<
    SyntaxNode,
>)
    ensures
        r is Some ==> r.unwrap().parent == parent,
{
    let node = cursor_node(cursor);
    node_from_parts(
        node_kind(&node),
        cursor_field_name(cursor),
        node_start_byte(&node),
        node_end_byte(&node),
        node_start_position(&node),
        node_end_position(&node),
        parent,
    )
}

/// Copies a tree-sitter tree: walks it in document order, copies each
/// node with its depth, and builds the tree from the nodes and depths as
/// `SyntaxTree::from_depths` does. Gives `None` where the tree has more
/// than `NODE_LIMIT` nodes, a position beyond `u32`, or a shape that is no
/// well-formed tree.
pub fn from_tree_sitter(tree: &tree_sitter::Tree) -> (r: Option<SyntaxTree>)
    ensures
        r is Some ==> well_formed(r.unwrap()@),
{
    let mut cursor = walk_tree(tree);
    let mut nodes: Vec<SyntaxNode> = Vec::new();
    let mut depths: Vec<usize> = Vec::new();
    let mut depth: usize = 0;
    let mut budget: usize = NODE_LIMIT;
    let mut done = false;
    while !done && budget > 0
        invariant
            nodes@.len() == depths@.len(),
            nodes@.len() + budget == NODE_LIMIT,
            depth <= nodes@.len(),
        decreases budget,
    {
        budget -= 1;
        match copy_node(&cursor, None) {
            Some(node) => {
                nodes.push(node);
                depths.push(depth);
            },
            None => {
                return None;
            },
        }
        if goto_first_child(&mut cursor) {
            depth += 1;
        } else {
            let mut climbing = true;
            while climbing
                invariant
                    depth <= nodes@.len(),
                decreases depth + if climbing { 1nat } else { 0nat },
            {
                if goto_next_sibling(&mut cursor) {
                    climbing = false;
                } else if depth > 0 {
                    if !goto_parent(&mut cursor) {
                        return None;
                    }
                    depth -= 1;
                } else {
                    climbing = false;
                    done = true;
                }
            }
        }
    }
    if done {
        SyntaxTree::from_depths(nodes, &depths)
    } else {
        None
    }
}

/// Parses Go source and copies the tree. Gives `None` where the parser
/// gives no tree or the tree cannot be copied.
pub fn parse_go(code: &str) -> (r: Option<SyntaxTree>)
    ensures
        r is Some ==> well_formed(r.unwrap()@),
{
    let mut parser = new_parser();
    if !set_language(&mut parser, go_language()) {
        return None;
    }
    match parse_text(&mut parser, code) {
        Some(tree) => from_tree_sitter(&tree),
        None => None,
    }
}

/// The node that the parser's facts about it describe, with the given
/// parent and no subtree end yet: its kind, its field, its byte span, and
/// its start and end as (row, column). Gives `None` where a row or column
/// is beyond `u32`.
pub fn node_from_parts(
    kind: &str,
    field: Option<&str>,
    start_byte: usize,
    end_byte: usize,
    start: (usize, usize),
    end: (usize, usize),
    parent: Option<usize>,
) -> (r: Option<SyntaxNode>)
    ensures
        r is Some <==> start.0 <= u32::MAX && start.1 <= u32::MAX && end.0 <= u32::MAX && end.1
            <= u32::MAX,
        r is Some ==> {
            let node = r.unwrap();
            &&& node.kind@ == kind@
            &&& match field {
                Some(name) => node.field is Some && node.field.unwrap()@ == name@,
                None => node.field is None,
            }
            &&& node.start_byte == start_byte
            &&& node.end_byte == end_byte
            &&& node.start.line == start.0
            &&& node.start.character == start.1
            &&& node.end.line == end.0
            &&& node.end.character == end.1
            &&& node.parent == parent
            &&& node.subtree_end == 0
        },
{
    let field = match field {
        Some(name) => Some(name.to_owned()),
        None => None,
    };
    match (to_position(start), to_position(end)) {
        (Some(start), Some(end)) => Some(
            SyntaxNode {
                kind: kind.to_owned(),
                field,
                start_byte,
                end_byte,
                start,
                end,
                parent,
                subtree_end: 0,
            },
        ),
        _ => None,
    }
}

} // verus!
