use goanalyzer::cache::{
    entries_to_evict, expired_entries, CacheEntry, CACHE_TTL_NANOS, CACHE_TTL_SECONDS,
    MAX_CACHED_DOCUMENTS, MAX_CACHED_TREES,
};
use goanalyzer::concurrency::{
    find_enclosing_function, find_function_scope, find_goroutine_context,
    is_variable_reassignment,
};
use goanalyzer::cursor::{
    determine_cursor_context, find_node_at_cursor_with_context, find_node_at_position,
    is_meaningful_node, is_position_in_node_range, node_to_range, size_of_node,
};
use goanalyzer::decorate::{decorate_semantic, hover_markdown, passes_globality_gate};
use goanalyzer::entities::{count_entities, indexing_status};
use goanalyzer::graph::{build_graph_data, make_id};
use goanalyzer::heuristics::analyze_heuristics;
use goanalyzer::parse::{node_from_parts, parse_go};
use goanalyzer::resolve::{extract_variable_name, find_variable_at_position};
use goanalyzer::semantic::{path_to_string, semantic_variable, SemanticConfig, SemanticUse};
use goanalyzer::sync::{is_synchronized, known_sync_funcs};
use goanalyzer::syntax::{SyntaxNode, SyntaxTree};
use goanalyzer::text::{
    bytes_eq, contains_bytes, decimal, parse_u64, slice_matches, slice_starts_with, str_eq,
    substring, valid_span,
};
use goanalyzer::types::{
    CursorContextType, DecorationType, DiagnosticSeverity, EntityCount, GoroutineType, GraphEdgeType,
    GraphEntityType, GraphExtra, Position, RaceSeverity, Range, VarId, VariableAccessType,
    VariableInfo,
};
use goanalyzer::usage::{analyze_goroutine_usage, classify_goroutine_type};
use std::path::PathBuf;

fn parse(code: &str) -> SyntaxTree {
    parse_go(code).expect("tree")
}

fn range(l1: u32, c1: u32, l2: u32, c2: u32) -> Range {
    Range::new(Position::new(l1, c1), Position::new(l2, c2))
}

fn node(
    kind: &str,
    start: (u32, u32, usize),
    end: (u32, u32, usize),
    parent: Option<usize>,
    subtree_end: usize,
) -> SyntaxNode {
    SyntaxNode {
        kind: kind.to_string(),
        field: None,
        start_byte: start.2,
        end_byte: end.2,
        start: Position::new(start.0, start.1),
        end: Position::new(end.0, end.1),
        parent,
        subtree_end,
    }
}

fn find_kind(tree: &SyntaxTree, kind: &str, nth: usize) -> usize {
    (0..tree.len())
        .filter(|&i| tree.node(i).kind == kind)
        .nth(nth)
        .expect("node of kind")
}

#[test]
fn tree_is_built_from_nodes_in_document_order() {
    let nodes = vec![
        node("source_file", (0, 0, 0), (0, 3, 3), None, 3),
        node("identifier", (0, 0, 0), (0, 1, 1), Some(0), 2),
        node("identifier", (0, 2, 2), (0, 3, 3), Some(0), 3),
    ];
    let tree = SyntaxTree::new(nodes).expect("well formed");
    assert_eq!(tree.len(), 3);
    assert_eq!(tree.parent(2), Some(0));
    assert_eq!(tree.parent(0), None);
    assert_eq!(tree.subtree_end(0), 3);
    assert_eq!(tree.range(2), range(0, 2, 0, 3));
    assert!(tree.kind_is(1, "identifier"));
    assert!(!tree.kind_is(0, "identifier"));
    assert!(tree.text_is(b"a b", 2, b"b"));
    assert!(!tree.text_is(b"a b", 2, b"a"));
    assert!(!tree.text_is(b"a", 2, b"b"));
}

#[test]
fn malformed_node_sequences_are_refused() {
    assert!(SyntaxTree::new(Vec::new()).is_none());
    let root_with_parent = vec![node("source_file", (0, 0, 0), (0, 1, 1), Some(0), 1)];
    assert!(SyntaxTree::new(root_with_parent).is_none());
    let short_root = vec![
        node("source_file", (0, 0, 0), (0, 3, 3), None, 1),
        node("identifier", (0, 0, 0), (0, 1, 1), Some(0), 2),
    ];
    assert!(SyntaxTree::new(short_root).is_none());
    let orphan = vec![
        node("source_file", (0, 0, 0), (0, 3, 3), None, 2),
        node("identifier", (0, 0, 0), (0, 1, 1), None, 2),
    ];
    assert!(SyntaxTree::new(orphan).is_none());
    let out_of_order = vec![
        node("source_file", (0, 0, 0), (0, 3, 3), None, 3),
        node("identifier", (0, 2, 2), (0, 3, 3), Some(0), 2),
        node("identifier", (0, 0, 0), (0, 1, 1), Some(0), 3),
    ];
    assert!(SyntaxTree::new(out_of_order).is_none());
    let wrong_parent = vec![
        node("source_file", (0, 0, 0), (0, 3, 3), None, 3),
        node("block", (0, 0, 0), (0, 3, 3), Some(0), 3),
        node("identifier", (0, 0, 0), (0, 1, 1), Some(0), 3),
    ];
    assert!(SyntaxTree::new(wrong_parent).is_none());
    let child_beyond_parent = vec![
        node("source_file", (0, 0, 0), (0, 3, 3), None, 2),
        node("identifier", (0, 0, 0), (0, 4, 4), Some(0), 2),
    ];
    assert!(SyntaxTree::new(child_beyond_parent).is_none());
    let backwards = vec![node("source_file", (0, 3, 3), (0, 0, 0), None, 1)];
    assert!(SyntaxTree::new(backwards).is_none());
}

#[test]
fn parser_copies_kinds_fields_and_spans() {
    let code = "func f() {\n    x := 1\n}\n";
    let tree = parse(code);
    assert_eq!(tree.node(0).kind, "source_file");
    assert_eq!(tree.node(0).parent, None);
    assert_eq!(tree.subtree_end(0), tree.len());
    let decl = find_kind(&tree, "function_declaration", 0);
    assert_eq!(tree.parent(decl), Some(0));
    let name = tree.child_by_field_name(decl, "name").expect("name");
    assert_eq!(tree.node(name).kind, "identifier");
    assert_eq!(tree.node(name).field.as_deref(), Some("name"));
    assert_eq!(tree.node(name).start_byte, 5);
    assert_eq!(tree.node(name).end_byte, 6);
    assert_eq!(tree.range(name), range(0, 5, 0, 6));
    let body = tree.child_by_field_name(decl, "body").expect("body");
    assert_eq!(tree.node(body).kind, "block");
    assert_eq!(tree.range(body), range(0, 9, 2, 1));
    assert_eq!(tree.child_by_field_name(decl, "receiver"), None);
    let short = find_kind(&tree, "short_var_declaration", 0);
    assert_eq!(tree.child_by_kind(short, ":="), Some(short + 3));
    assert_eq!(tree.nearest_of_kind(short + 2, "block"), Some(body));
    assert_eq!(tree.nearest_of_kind(decl, "block"), None);
    assert_eq!(tree.text_of(code.as_bytes(), short), Some(&b"x := 1"[..]));
}

#[test]
fn cursor_selects_the_smallest_meaningful_node() {
    let code = "func f() {\n    x := 1\n}\n";
    let tree = parse(code);
    let x = find_kind(&tree, "identifier", 1);
    assert_eq!(find_node_at_position(&tree, Position::new(1, 4)), Some(x));
    assert_eq!(find_node_at_position(&tree, Position::new(1, 5)), Some(x));
    assert_eq!(tree.node(tree.parent(x).unwrap()).kind, "expression_list");
    let define = find_kind(&tree, ":=", 0);
    assert_eq!(
        find_node_at_position(&tree, Position::new(1, 7)),
        Some(define)
    );
    assert_eq!(
        find_node_at_position(&tree, Position::new(1, 8)),
        Some(define)
    );
    assert_eq!(
        find_node_at_position(&tree, Position::new(1, 9)),
        Some(find_kind(&tree, "int_literal", 0))
    );
    assert_eq!(
        find_node_at_position(&tree, Position::new(0, 4)),
        Some(find_kind(&tree, "func", 0))
    );
    assert_eq!(find_node_at_position(&tree, Position::new(9, 0)), None);
    assert_eq!(find_node_at_position(&tree, Position::new(3, 1)), None);
    let function = find_kind(&tree, "function_declaration", 0);
    let body = find_kind(&tree, "block", 0);
    assert_eq!(size_of_node(&tree, function), 2001);
    assert_eq!(size_of_node(&tree, body), 2010);
    assert_eq!(
        find_node_at_position(&tree, Position::new(2, 1)),
        Some(function)
    );
}

#[test]
fn node_sizes_and_containment() {
    let code = "func f() {\n    x := 1\n}\n";
    let tree = parse(code);
    let x = find_kind(&tree, "identifier", 1);
    let body = find_kind(&tree, "block", 0);
    assert_eq!(size_of_node(&tree, x), 1);
    assert_eq!(size_of_node(&tree, body), 2 * 1000 + 1 + 9);
    assert_eq!(node_to_range(&tree, body), range(0, 9, 2, 1));
    assert!(is_position_in_node_range(&tree, body, Position::new(0, 9)));
    assert!(!is_position_in_node_range(&tree, body, Position::new(0, 8)));
    assert!(is_position_in_node_range(&tree, body, Position::new(1, 0)));
    assert!(is_position_in_node_range(&tree, body, Position::new(2, 1)));
    assert!(!is_position_in_node_range(&tree, body, Position::new(2, 2)));
    assert!(is_position_in_node_range(&tree, x, Position::new(1, 5)));
    assert!(!is_position_in_node_range(&tree, x, Position::new(1, 6)));
    assert!(is_meaningful_node(&tree, x));
    assert!(!is_meaningful_node(&tree, find_kind(&tree, "{", 0)));
    assert!(is_meaningful_node(&tree, find_kind(&tree, ":=", 0)));
}

#[test]
fn cursor_contexts() {
    let code = "type T struct {\n    n int\n}\nfunc f(t T) {\n    var v int\n    t.n = v\n    go f(t)\n    var c chan int\n}\n";
    let tree = parse(code);
    let context = |line: u32, col: u32| {
        find_node_at_cursor_with_context(&tree, Position::new(line, col)).expect("context")
    };
    let func_name = context(3, 5);
    assert_eq!(func_name.context_type, CursorContextType::FunctionName);
    assert_eq!(func_name.target_node_kind, "identifier");
    assert_eq!(func_name.position, range(3, 5, 3, 6));
    assert_eq!(
        func_name.parent_context,
        Some(CursorContextType::FunctionDeclaration)
    );
    assert_eq!(func_name.details.as_deref(), Some("Node: identifier at 3:5"));
    assert_eq!(
        context(3, 7).context_type,
        CursorContextType::ParameterDeclaration
    );
    assert_eq!(context(3, 9).context_type, CursorContextType::TypeReference);
    assert_eq!(
        context(4, 8).context_type,
        CursorContextType::VariableDeclaration
    );
    assert_eq!(context(5, 4).context_type, CursorContextType::ObjectAccess);
    assert_eq!(context(5, 6).context_type, CursorContextType::FieldAccess);
    assert_eq!(context(5, 10).context_type, CursorContextType::VariableUse);
    assert_eq!(context(6, 7).context_type, CursorContextType::FunctionCall);
    assert_eq!(context(1, 4).context_type, CursorContextType::FieldAccess);
    let go = find_kind(&tree, "go_statement", 0);
    assert_eq!(
        determine_cursor_context(&tree, go),
        CursorContextType::GoroutineStatement
    );
    assert_eq!(
        determine_cursor_context(&tree, find_kind(&tree, "channel_type", 0)),
        CursorContextType::ChannelType
    );
    assert_eq!(
        determine_cursor_context(&tree, find_kind(&tree, "struct_type", 0)),
        CursorContextType::StructType
    );
    assert_eq!(determine_cursor_context(&tree, 0), CursorContextType::Unknown);
    assert!(find_node_at_cursor_with_context(&tree, Position::new(50, 0)).is_none());
}

#[test]
fn names_are_extracted() {
    let code = "func f() {\n    x := 1\n}\n";
    let tree = parse(code);
    let short = find_kind(&tree, "short_var_declaration", 0);
    assert_eq!(
        extract_variable_name(&tree, code, short).as_deref(),
        Some("x")
    );
    assert_eq!(
        extract_variable_name(&tree, code, find_kind(&tree, "int_literal", 0)),
        None
    );
    assert_eq!(extract_variable_name(&tree, code, 0).as_deref(), Some("f"));
}

#[test]
fn declaration_forms_are_resolved() {
    let code = "func f(a, b int, rest ...string) {\n    for i, v := range rest {\n        println(a, b, i, v)\n    }\n    switch t := x.(type) {\n    case int:\n        println(t)\n    }\n    var p *int = &a\n    println(p)\n}\n";
    let tree = parse(code);
    let at = |line: u32, col: u32| {
        find_variable_at_position(&tree, code, Position::new(line, col)).expect("variable")
    };
    let a = at(2, 16);
    assert_eq!(a.name, "a");
    assert_eq!(a.declaration, range(0, 7, 0, 8));
    assert_eq!(a.var_id, VarId { start_byte: 7, end_byte: 8 });
    assert_eq!(a.uses, vec![range(2, 16, 2, 17), range(8, 18, 8, 19)]);
    assert!(a.is_pointer);
    let b = at(2, 19);
    assert_eq!(b.declaration, range(0, 10, 0, 11));
    assert_eq!(b.uses, vec![range(2, 19, 2, 20)]);
    assert!(!b.is_pointer);
    let rest = at(1, 22);
    assert_eq!(rest.declaration, range(0, 17, 0, 21));
    assert_eq!(rest.uses, vec![range(1, 22, 1, 26)]);
    let i = at(2, 22);
    assert_eq!(i.declaration, range(1, 8, 1, 9));
    let v = at(2, 25);
    assert_eq!(v.declaration, range(1, 11, 1, 12));
    let t = at(6, 16);
    assert_eq!(t.declaration, range(4, 11, 4, 12));
    assert_eq!(t.uses, vec![range(6, 16, 6, 17)]);
    let p = at(9, 12);
    assert_eq!(p.declaration, range(8, 8, 8, 9));
    assert!(p.is_pointer);
    assert!(!p.potential_race);
    assert_eq!(p.race_severity, RaceSeverity::Medium);
}

#[test]
fn package_level_names_and_fields_fall_back() {
    let code = "var total int\ntype T struct {\n    n int\n}\nfunc f(t T) {\n    total = t.n\n    other(total)\n}\n";
    let tree = parse(code);
    let total = find_variable_at_position(&tree, code, Position::new(5, 4)).expect("total");
    assert_eq!(total.declaration, range(0, 4, 0, 9));
    assert_eq!(total.var_id, VarId { start_byte: 4, end_byte: 9 });
    assert_eq!(total.uses, vec![range(5, 4, 5, 9), range(6, 10, 6, 15)]);
    let field = find_variable_at_position(&tree, code, Position::new(5, 14)).expect("n");
    assert_eq!(field.name, "n");
    assert_eq!(field.declaration, range(2, 4, 2, 5));
    assert_eq!(field.uses, vec![range(5, 14, 5, 15)]);
    let unknown = find_variable_at_position(&tree, code, Position::new(6, 4)).expect("other");
    assert_eq!(unknown.name, "other");
    assert_eq!(unknown.declaration, range(0, 0, 0, 0));
    assert_eq!(unknown.var_id, VarId { start_byte: 0, end_byte: 0 });
    assert_eq!(unknown.uses, vec![range(6, 4, 6, 9)]);
}

#[test]
fn reassignment_needs_the_left_side() {
    let code = "func f() {\n    x := 1\n    y := 2\n    x = y\n    x, y = y, x\n    x++\n}\n";
    let tree = parse(code);
    assert!(is_variable_reassignment(&tree, "x", range(3, 4, 3, 5), code));
    assert!(!is_variable_reassignment(&tree, "y", range(3, 8, 3, 9), code));
    assert!(!is_variable_reassignment(&tree, "y", range(3, 4, 3, 5), code));
    assert!(is_variable_reassignment(&tree, "y", range(4, 7, 4, 8), code));
    assert!(!is_variable_reassignment(&tree, "x", range(4, 14, 4, 15), code));
    assert!(!is_variable_reassignment(&tree, "x", range(5, 4, 5, 5), code));
    assert!(!is_variable_reassignment(&tree, "x", range(1, 4, 1, 5), code));
    assert!(!is_variable_reassignment(&tree, "x", range(40, 0, 40, 0), code));
}

#[test]
fn enclosing_functions_and_goroutines() {
    let code = "func f() {\n    go g()\n}\nfunc (t T) m() {\n}\n";
    let tree = parse(code);
    let f = find_kind(&tree, "function_declaration", 0);
    let m = find_kind(&tree, "method_declaration", 0);
    let go = find_kind(&tree, "go_statement", 0);
    assert_eq!(find_function_scope(&tree, Position::new(1, 4)), Some(f));
    assert_eq!(find_function_scope(&tree, Position::new(3, 3)), Some(m));
    assert_eq!(find_function_scope(&tree, Position::new(7, 0)), None);
    assert_eq!(find_enclosing_function(&tree, go), Some(f));
    assert_eq!(find_enclosing_function(&tree, 0), None);
    assert_eq!(find_goroutine_context(&tree, Position::new(1, 8)), Some(go));
    assert_eq!(find_goroutine_context(&tree, Position::new(0, 8)), None);
}

#[test]
fn wrappers_that_lock_synchronize_their_callers() {
    let code = "func update() {\n    mu.Lock()\n    mu.Unlock()\n}\nfunc plain() {\n}\nfunc f() {\n    update(x)\n    plain(x)\n}\n";
    let tree = parse(code);
    let funcs = known_sync_funcs(&tree, code);
    assert_eq!(funcs, vec![find_kind(&tree, "function_declaration", 0)]);
    assert!(is_synchronized(&tree, range(7, 11, 7, 12), code, &funcs));
    assert!(!is_synchronized(&tree, range(8, 10, 8, 11), code, &funcs));
    assert!(!is_synchronized(&tree, range(7, 11, 7, 12), code, &Vec::new()));
    assert!(!is_synchronized(&tree, range(90, 0, 90, 0), code, &funcs));
}

#[test]
fn nested_locks_and_read_locks_are_counted() {
    let code = "func f() {\n    a.Lock()\n    b.RLock()\n    a.Unlock()\n    x = 1\n    b.RUnlock()\n    y = 2\n    b.Unlock()\n    b.Lock()\n    z = 3\n}\n";
    let tree = parse(code);
    let funcs = Vec::new();
    assert!(is_synchronized(&tree, range(4, 4, 4, 5), code, &funcs));
    assert!(!is_synchronized(&tree, range(6, 4, 6, 5), code, &funcs));
    assert!(!is_synchronized(&tree, range(9, 4, 9, 5), code, &funcs));
}

#[test]
fn goroutine_usage_is_described() {
    let code = "func f() {\n    x := 0\n    go func() {\n        x = 1\n        y := &x\n        x++\n        println(x, y)\n    }()\n    go work(x)\n    go t.run()\n}\n";
    let tree = parse(code);
    let usages = analyze_goroutine_usage(&tree, "x", code);
    assert_eq!(usages.len(), 2);
    assert_eq!(usages[0].goroutine_range, range(2, 4, 7, 7));
    assert_eq!(usages[0].goroutine_type, GoroutineType::AnonymousFunction);
    assert_eq!(usages[0].potential_race_level, RaceSeverity::High);
    let kinds: Vec<VariableAccessType> = usages[0]
        .variable_accesses
        .iter()
        .map(|a| a.access_type)
        .collect();
    assert_eq!(
        kinds,
        vec![
            VariableAccessType::Write,
            VariableAccessType::AddressOf,
            VariableAccessType::Modify,
            VariableAccessType::Read,
        ]
    );
    let contexts: Vec<&str> = usages[0]
        .variable_accesses
        .iter()
        .map(|a| a.context.as_str())
        .collect();
    assert_eq!(
        contexts,
        vec![
            "expression_list",
            "unary_expression",
            "inc_statement",
            "argument_list"
        ]
    );
    assert_eq!(usages[0].variable_accesses[0].range, range(3, 8, 3, 9));
    assert_eq!(usages[1].goroutine_type, GoroutineType::FunctionCall);
    assert_eq!(usages[1].potential_race_level, RaceSeverity::Medium);
    assert_eq!(usages[1].variable_accesses.len(), 1);
    assert_eq!(
        classify_goroutine_type(&tree, find_kind(&tree, "go_statement", 2)),
        GoroutineType::MethodCall
    );
    assert!(analyze_goroutine_usage(&tree, "absent", code).is_empty());
    let locked = "func f() {\n    go func() {\n        x = 1\n    }()\n    mu.Lock()\n}\n";
    let tree = parse(locked);
    let usages = analyze_goroutine_usage(&tree, "x", locked);
    assert_eq!(usages.len(), 1);
    assert_eq!(usages[0].potential_race_level, RaceSeverity::Low);
}

#[test]
fn graph_ids_and_edges() {
    let code = "func f() {\n    var x int\n    mu.Lock()\n    ch <- x\n    go f()\n}\n";
    let tree = parse(code);
    let graph = build_graph_data(&tree, code);
    let nodes: Vec<(&str, &str, GraphEntityType, Option<GraphExtra>)> = graph
        .nodes
        .iter()
        .map(|n| (n.id.as_str(), n.label.as_str(), n.entity_type, n.extra))
        .collect();
    assert_eq!(
        nodes,
        vec![
            ("fn:f:0:5:6", "f", GraphEntityType::Function, None),
            ("var:x:1:8:9", "x", GraphEntityType::Variable, None),
            (
                "use:x:3:10:11",
                "x",
                GraphEntityType::Variable,
                Some(GraphExtra::Use)
            ),
            ("go:goroutine:4:4:10", "goroutine", GraphEntityType::Goroutine, None),
        ]
    );
    assert_eq!(graph.nodes[1].range, range(1, 8, 1, 9));
    let edges: Vec<(&str, &str, GraphEdgeType)> = graph
        .edges
        .iter()
        .map(|e| (e.from.as_str(), e.to.as_str(), e.edge_type))
        .collect();
    assert_eq!(
        edges,
        vec![
            (
                "callsite:mu.Lock:2:4:13",
                "fn:mu.Lock:2:4:11",
                GraphEdgeType::Call
            ),
            ("callsite:sync:2:4:13", "sync:sync:2:4:13", GraphEdgeType::Sync),
            ("send:ch:3:4:11", "chan:ch:3:4:6", GraphEdgeType::Send),
            ("use:x:3:10:11", "var:x:1:8:9", GraphEdgeType::Use),
            ("spawnsite:go:4:4:10", "go:goroutine:4:4:10", GraphEdgeType::Spawn),
            ("callsite:f:4:7:10", "fn:f:4:7:8", GraphEdgeType::Call),
        ]
    );
    assert_eq!(make_id("var", "x", &range(2, 4, 2, 5)), "var:x:2:4:5");
    assert_eq!(make_id("go", "goroutine", &range(10, 0, 12, 3)), "go:goroutine:10:0:3");
}

#[test]
fn graph_links_names_to_their_latest_declaration() {
    let code = "func f() {\n    x := 1\n    {\n        x := 2\n        _ = x\n    }\n    _ = x\n    v := <-x\n}\n";
    let tree = parse(code);
    let graph = build_graph_data(&tree, code);
    let uses: Vec<(&str, &str)> = graph
        .edges
        .iter()
        .filter(|e| e.edge_type == GraphEdgeType::Use)
        .map(|e| (e.from.as_str(), e.to.as_str()))
        .collect();
    assert_eq!(
        uses,
        vec![
            ("use:x:4:12:13", "var:x:3:8:9"),
            ("use:x:6:8:9", "var:x:3:8:9"),
            ("use:x:7:11:12", "var:x:3:8:9"),
        ]
    );
    let receives: Vec<(&str, &str)> = graph
        .edges
        .iter()
        .filter(|e| e.edge_type == GraphEdgeType::Receive)
        .map(|e| (e.from.as_str(), e.to.as_str()))
        .collect();
    assert_eq!(receives, vec![("recv:x:7:9:12", "chan:x:7:11:12")]);
}

#[test]
fn hover_text_is_rendered() {
    let mut info = VariableInfo {
        name: "count".to_string(),
        declaration: range(4, 2, 4, 7),
        uses: vec![range(5, 0, 5, 5), range(6, 0, 6, 5)],
        is_pointer: false,
        potential_race: false,
        race_severity: RaceSeverity::Medium,
        var_id: VarId { start_byte: 0, end_byte: 0 },
    };
    assert_eq!(
        hover_markdown(&info),
        "**Variable**: `count`\n\n**Declared at**: line 5\n**Type**: Value\n**Uses**: 2\n"
    );
    info.is_pointer = true;
    info.potential_race = true;
    info.declaration = range(u32::MAX, 0, u32::MAX, 1);
    assert_eq!(
        hover_markdown(&info),
        "**Variable**: `count`\n\n**Declared at**: line 4294967296\n**Type**: Pointer\n**Uses**: 2\n**Warning**: Potential data race detected!\n"
    );
}

#[test]
fn globality_gate() {
    let code = "var g int\ntype T struct {\n    n int\n}\nfunc f(p int) {\n    l := func() { var s struct{ m int } }\n}\n";
    let tree = parse(code);
    assert!(passes_globality_gate(&tree, range(0, 4, 0, 5)));
    assert!(passes_globality_gate(&tree, range(2, 4, 2, 5)));
    assert!(!passes_globality_gate(&tree, range(4, 7, 4, 8)));
    assert!(!passes_globality_gate(&tree, range(5, 4, 5, 5)));
    assert!(passes_globality_gate(&tree, range(5, 32, 5, 33)));
    assert!(passes_globality_gate(&tree, range(70, 0, 70, 0)));
}

#[test]
fn field_detectors_report_once_each() {
    let code = "type C struct {\n    n int32\n    items []int\n    index map[string]int\n}\nfunc (c *C) run(src []int, m map[string]int) {\n    atomic.AddInt32(&c.n, 1)\n    println(c.n)\n    c.mu.Lock()\n    fmt.Println(c.items)\n    c.mu.Unlock()\n    c.items = src[1:2]\n    c.index = m\n}\n";
    let tree = parse(code);
    let codes = |line: u32, col: u32| -> Vec<(String, Range, DiagnosticSeverity)> {
        let info =
            find_variable_at_position(&tree, code, Position::new(line, col)).expect("field");
        analyze_heuristics(&tree, code, &info)
            .into_iter()
            .map(|d| (d.code, d.range, d.severity))
            .collect()
    };
    assert_eq!(
        codes(1, 4),
        vec![
            (
                "field-mixed-atomic".to_string(),
                range(7, 14, 7, 15),
                DiagnosticSeverity::Warning
            ),
            (
                "field-lock-coverage".to_string(),
                range(7, 14, 7, 15),
                DiagnosticSeverity::Warning
            ),
        ]
    );
    assert_eq!(
        codes(2, 4),
        vec![
            (
                "field-lock-coverage".to_string(),
                range(11, 6, 11, 11),
                DiagnosticSeverity::Warning
            ),
            (
                "field-heavy-under-lock".to_string(),
                range(9, 18, 9, 23),
                DiagnosticSeverity::Info
            ),
            (
                "field-retention".to_string(),
                range(11, 6, 11, 11),
                DiagnosticSeverity::Info
            ),
            (
                "field-read-before-write".to_string(),
                range(9, 18, 9, 23),
                DiagnosticSeverity::Info
            ),
        ]
    );
    assert_eq!(
        codes(3, 4),
        vec![(
            "field-retention".to_string(),
            range(12, 6, 12, 11),
            DiagnosticSeverity::Info
        )]
    );
    let info = find_variable_at_position(&tree, code, Position::new(1, 4)).expect("n");
    let found = analyze_heuristics(&tree, code, &info);
    assert_eq!(
        found[0].message,
        "Field `n` is accessed both atomically and non-atomically"
    );
    assert_eq!(
        found[1].message,
        "Field `n` is accessed both with and without a lock held"
    );
}

#[test]
fn write_only_fields_and_copies() {
    let code = "type C struct {\n    last int\n}\nfunc (c *C) run(v big, p *big) {\n    c.last = 1\n    c.last = 2\n    use(v)\n    use(p)\n}\n";
    let tree = parse(code);
    let last = find_variable_at_position(&tree, code, Position::new(1, 4)).expect("last");
    let found = analyze_heuristics(&tree, code, &last);
    assert_eq!(found.len(), 1);
    assert_eq!(found[0].code, "field-write-only");
    assert_eq!(found[0].range, range(1, 4, 1, 8));
    assert_eq!(found[0].severity, DiagnosticSeverity::Info);
    assert_eq!(found[0].message, "Field `last` looks write-only in this file");
    let v = find_variable_at_position(&tree, code, Position::new(6, 8)).expect("v");
    let found = analyze_heuristics(&tree, code, &v);
    assert_eq!(found.len(), 1);
    assert_eq!(found[0].code, "large-struct-copy");
    assert_eq!(found[0].range, range(6, 8, 6, 9));
    assert_eq!(found[0].message, "`v` may be copied by value here");
    let p = find_variable_at_position(&tree, code, Position::new(7, 8)).expect("p");
    assert!(p.is_pointer);
    assert!(analyze_heuristics(&tree, code, &p).is_empty());
    let counted = "type C struct {\n    hits int\n}\nfunc (c *C) run() {\n    c.hits++\n    c.hits++\n}\n";
    let tree = parse(counted);
    let hits = find_variable_at_position(&tree, counted, Position::new(1, 4)).expect("hits");
    assert_eq!(hits.uses.len(), 2);
    assert!(analyze_heuristics(&tree, counted, &hits).is_empty());
}

#[test]
fn entity_counts_become_a_status() {
    let counts = EntityCount { variables: 3, functions: 2, channels: 1, goroutines: 4 };
    let status = indexing_status(&counts);
    assert_eq!(status.variables, 3);
    assert_eq!(status.functions, 2);
    assert_eq!(status.channels, 1);
    assert_eq!(status.goroutines, 4);
    let tree = parse("");
    let empty = count_entities(&tree, "");
    assert_eq!(empty, EntityCount { variables: 0, functions: 0, channels: 0, goroutines: 0 });
}

#[test]
fn text_helpers() {
    assert!(bytes_eq(b"abc", b"abc"));
    assert!(!bytes_eq(b"abc", b"abd"));
    assert!(!bytes_eq(b"abc", b"ab"));
    assert!(str_eq("go", "go"));
    assert!(!str_eq("go", "Go"));
    assert!(slice_matches(b"hello", 1, 3, b"el"));
    assert!(!slice_matches(b"hello", 1, 3, b"ll"));
    assert!(!slice_matches(b"hello", 3, 1, b""));
    assert!(!slice_matches(b"hello", 4, 6, b"o"));
    assert!(slice_starts_with(b"<-ch", 0, 4, b"<-"));
    assert!(!slice_starts_with(b"<-ch", 1, 4, b"<-"));
    assert!(!slice_starts_with(b"<", 0, 1, b"<-"));
    assert!(contains_bytes(b"mu.Lock()", b"Lock"));
    assert!(!contains_bytes(b"mu.lock()", b"Lock"));
    assert!(contains_bytes(b"abc", b""));
    assert!(!contains_bytes(b"ab", b"abc"));
    assert_eq!(substring("héllo", 0, 3).as_deref(), Some("hé"));
    assert_eq!(substring("héllo", 0, 2), None);
    assert_eq!(substring("héllo", 2, 3), None);
    assert_eq!(substring("héllo", 3, 6).as_deref(), Some("llo"));
    assert_eq!(substring("héllo", 3, 7), None);
    assert_eq!(substring("héllo", 4, 3), None);
    assert_eq!(substring("héllo", 6, 6).as_deref(), Some(""));
    assert!(valid_span("héllo", 1, 3));
    assert!(!valid_span("héllo", 1, 2));
}

#[test]
fn numbers_are_rendered_and_read() {
    assert_eq!(decimal(0), "0");
    assert_eq!(decimal(7), "7");
    assert_eq!(decimal(10), "10");
    assert_eq!(decimal(4096), "4096");
    assert_eq!(decimal(u64::MAX), "18446744073709551615");
    assert_eq!(parse_u64("0"), Some(0));
    assert_eq!(parse_u64("2000"), Some(2000));
    assert_eq!(parse_u64("+15"), Some(15));
    assert_eq!(parse_u64("007"), Some(7));
    assert_eq!(parse_u64("18446744073709551615"), Some(u64::MAX));
    assert_eq!(parse_u64("18446744073709551616"), None);
    assert_eq!(parse_u64("99999999999999999999999"), None);
    assert_eq!(parse_u64(""), None);
    assert_eq!(parse_u64("+"), None);
    assert_eq!(parse_u64("-1"), None);
    assert_eq!(parse_u64("12a"), None);
    assert_eq!(parse_u64(" 12"), None);
    assert_eq!(parse_u64("1_000"), None);
    for text in ["0", "+15", "007", "", "+", "-1", "12a", "18446744073709551616", "++1", "٣"] {
        assert_eq!(parse_u64(text), text.parse::<u64>().ok());
    }
}

#[test]
fn semantic_settings() {
    let off = SemanticConfig::from_settings(None, None, None);
    assert!(!off.enabled);
    assert_eq!(off.helper_path, "goanalyzer-semantic");
    assert_eq!(off.timeout_ms, 2000);
    for word in ["1", "true", "TRUE", "yes", "YES"] {
        assert!(SemanticConfig::from_settings(Some(word), None, None).enabled);
    }
    for word in ["0", "True", "on", "", " 1"] {
        assert!(!SemanticConfig::from_settings(Some(word), None, None).enabled);
    }
    let set = SemanticConfig::from_settings(Some("yes"), Some(" /opt/helper "), Some("150"));
    assert_eq!(set.helper_path, " /opt/helper ");
    assert_eq!(set.timeout_ms, 150);
    let blank = SemanticConfig::from_settings(None, Some(" \t\n"), Some("soon"));
    assert_eq!(blank.helper_path, "goanalyzer-semantic");
    assert_eq!(blank.timeout_ms, 2000);
    assert_eq!(
        SemanticConfig::from_settings(None, Some(""), None).helper_path,
        "goanalyzer-semantic"
    );
}

#[test]
fn helper_answers_become_variables() {
    let uses = vec![
        SemanticUse { range: range(3, 1, 3, 2), reassign: true, captured: false },
        SemanticUse { range: range(5, 1, 5, 2), reassign: false, captured: true },
    ];
    let variable = semantic_variable("x".to_string(), range(1, 4, 1, 5), uses, true);
    assert_eq!(variable.info.name, "x");
    assert_eq!(variable.info.declaration, range(1, 4, 1, 5));
    assert_eq!(variable.info.uses, vec![range(3, 1, 3, 2), range(5, 1, 5, 2)]);
    assert!(variable.info.is_pointer);
    assert!(!variable.info.potential_race);
    assert_eq!(variable.info.race_severity, RaceSeverity::Medium);
    assert_eq!(variable.info.var_id, VarId { start_byte: 0, end_byte: 0 });
    assert_eq!(variable.uses.len(), 2);
    assert!(variable.uses[0].reassign);
    assert!(variable.uses[1].captured);
}

#[test]
fn helper_flags_decide_the_decorations() {
    let uses = vec![
        SemanticUse { range: range(3, 1, 3, 2), reassign: true, captured: true },
        SemanticUse { range: range(5, 1, 5, 2), reassign: false, captured: true },
        SemanticUse { range: range(6, 1, 6, 2), reassign: false, captured: false },
    ];
    let plain = semantic_variable("x".to_string(), range(1, 4, 1, 5), uses.clone(), false);
    let kinds: Vec<(Range, DecorationType, String)> = decorate_semantic(&plain)
        .into_iter()
        .map(|d| (d.range, d.kind, d.hover_text))
        .collect();
    assert_eq!(
        kinds,
        vec![
            (
                range(1, 4, 1, 5),
                DecorationType::Declaration,
                "Declaration of `x`".to_string()
            ),
            (
                range(3, 1, 3, 2),
                DecorationType::AliasReassigned,
                "Reassignment of `x`".to_string()
            ),
            (
                range(5, 1, 5, 2),
                DecorationType::AliasCaptured,
                "Captured `x` in closure/goroutine".to_string()
            ),
            (range(6, 1, 6, 2), DecorationType::Use, "Use of `x`".to_string()),
        ]
    );
    let pointer = semantic_variable("x".to_string(), range(1, 4, 1, 5), uses, true);
    let decorations = decorate_semantic(&pointer);
    assert_eq!(decorations[3].kind, DecorationType::Pointer);
    assert_eq!(decorations[3].hover_text, "Use of `x`");
}

#[test]
fn paths_become_text() {
    assert_eq!(path_to_string(&PathBuf::from("/tmp/main.go")), "/tmp/main.go");
    assert_eq!(path_to_string(&PathBuf::from("")), "");
}

#[test]
fn cache_entries_expire() {
    assert_eq!(CACHE_TTL_SECONDS, 300);
    assert_eq!(CACHE_TTL_NANOS, 300 * 1_000_000_000);
    assert_eq!(MAX_CACHED_TREES, 20);
    assert_eq!(MAX_CACHED_DOCUMENTS, 50);
    let second: u128 = 1_000_000_000;
    let entry = CacheEntry::new("text", 1000 * second);
    assert_eq!(entry.data, "text");
    assert_eq!(entry.timestamp, 1000 * second);
    assert!(!entry.is_expired(1000 * second));
    assert!(!entry.is_expired(1300 * second));
    assert!(entry.is_expired(1300 * second + 1));
    assert!(entry.is_expired(1300 * second + second / 2));
    assert!(entry.is_expired(1301 * second));
    assert!(!entry.is_expired(0));
    assert_eq!(
        expired_entries(
            &vec![0, 700 * second, 700 * second - 1, 1000 * second],
            1000 * second
        ),
        vec![0, 2]
    );
    assert!(expired_entries(&Vec::new(), 1000).is_empty());
}

#[test]
fn oldest_entries_leave_an_overfull_cache() {
    assert!(entries_to_evict(&vec![5, 1, 9], 3).is_empty());
    assert!(entries_to_evict(&vec![5, 1, 9], 7).is_empty());
    assert_eq!(entries_to_evict(&vec![5, 1, 9, 3], 2), vec![1, 3]);
    let mut all = entries_to_evict(&vec![5, 1, 9], 0);
    all.sort();
    assert_eq!(all, vec![0, 1, 2]);
    let stamps = vec![4, 4, 4, 2];
    let chosen = entries_to_evict(&stamps, 2);
    assert_eq!(chosen.len(), 2);
    assert!(chosen.contains(&3));
    assert_ne!(chosen[0], chosen[1]);
}

#[test]
fn nodes_are_made_from_the_parser_facts() {
    let made = node_from_parts("identifier", Some("name"), 5, 6, (0, 5), (0, 6), Some(3))
        .expect("node");
    assert_eq!(made.kind, "identifier");
    assert_eq!(made.field.as_deref(), Some("name"));
    assert_eq!(made.start_byte, 5);
    assert_eq!(made.end_byte, 6);
    assert_eq!(made.start, Position::new(0, 5));
    assert_eq!(made.end, Position::new(0, 6));
    assert_eq!(made.parent, Some(3));
    assert_eq!(made.subtree_end, 0);
    let bare = node_from_parts("block", None, 9, 2, (7, 1), (8, 0), None).expect("node");
    assert_eq!(bare.field, None);
    assert_eq!(bare.parent, None);
    assert_eq!(bare.start_byte, 9);
    assert_eq!(bare.end_byte, 2);
    let edge = u32::MAX as usize;
    let last = node_from_parts("x", None, 0, 0, (edge, edge), (edge, edge), None).expect("node");
    assert_eq!(last.start, Position::new(u32::MAX, u32::MAX));
    assert!(node_from_parts("x", None, 0, 0, (edge + 1, 0), (0, 0), None).is_none());
    assert!(node_from_parts("x", None, 0, 0, (0, edge + 1), (0, 0), None).is_none());
    assert!(node_from_parts("x", None, 0, 0, (0, 0), (edge + 1, 0), None).is_none());
    assert!(node_from_parts("x", None, 0, 0, (0, 0), (0, edge + 1), None).is_none());
}

#[test]
fn depths_place_the_nodes() {
    let parts = || {
        vec![
            node("source_file", (0, 0, 0), (0, 9, 9), Some(7), 0),
            node("block", (0, 0, 0), (0, 5, 5), None, 9),
            node("identifier", (0, 1, 1), (0, 2, 2), None, 0),
            node("identifier", (0, 3, 3), (0, 4, 4), Some(2), 1),
            node("identifier", (0, 6, 6), (0, 9, 9), None, 0),
        ]
    };
    let tree = SyntaxTree::from_depths(parts(), &vec![0, 1, 2, 2, 1]).expect("tree");
    let placed: Vec<(Option<usize>, usize)> = (0..tree.len())
        .map(|i| (tree.node(i).parent, tree.node(i).subtree_end))
        .collect();
    assert_eq!(
        placed,
        vec![(None, 5), (Some(0), 4), (Some(1), 3), (Some(1), 4), (Some(0), 5)]
    );
    assert_eq!(tree.node(3).kind, "identifier");
    assert_eq!(tree.range(3), range(0, 3, 0, 4));
    let skipping = SyntaxTree::from_depths(parts(), &vec![0, 3, 5, 4, 1]).expect("tree");
    let placed: Vec<(Option<usize>, usize)> = (0..skipping.len())
        .map(|i| (skipping.node(i).parent, skipping.node(i).subtree_end))
        .collect();
    assert_eq!(
        placed,
        vec![(None, 5), (Some(0), 4), (Some(1), 3), (Some(1), 4), (Some(0), 5)]
    );
    assert!(SyntaxTree::from_depths(parts(), &vec![0, 1, 2, 2]).is_none());
    assert!(SyntaxTree::from_depths(parts(), &vec![0, 1, 2, 2, 0]).is_none());
    assert!(SyntaxTree::from_depths(parts(), &vec![1, 1, 2, 2, 1]).is_none());
    assert!(SyntaxTree::from_depths(Vec::new(), &Vec::new()).is_none());
    let alone = vec![node("source_file", (0, 0, 0), (0, 0, 0), None, 0)];
    assert_eq!(SyntaxTree::from_depths(alone, &vec![4]).expect("tree").len(), 1);
}

#[test]
fn parsed_trees_are_placed_by_depth() {
    let code = "func f(a int) {\n    go func() {\n        println(a)\n    }()\n}\n";
    let tree = parse(code);
    let mut depths = vec![0usize; tree.len()];
    let mut parts = Vec::new();
    for i in 0..tree.len() {
        let n = tree.node(i);
        if let Some(p) = n.parent {
            depths[i] = depths[p] + 1;
        }
        let mut part = n.clone();
        part.parent = None;
        part.subtree_end = 0;
        parts.push(part);
    }
    let rebuilt = SyntaxTree::from_depths(parts, &depths).expect("tree");
    assert_eq!(rebuilt.len(), tree.len());
    for i in 0..tree.len() {
        assert_eq!(rebuilt.node(i).parent, tree.node(i).parent);
        assert_eq!(rebuilt.node(i).subtree_end, tree.node(i).subtree_end);
        assert_eq!(rebuilt.node(i).kind, tree.node(i).kind);
        assert_eq!(rebuilt.node(i).field, tree.node(i).field);
    }
    let call = find_kind(&tree, "call_expression", 0);
    assert_eq!(tree.node(call).kind, "call_expression");
    assert_eq!(tree.parent(call), Some(find_kind(&tree, "go_statement", 0)));
    assert_eq!(tree.subtree_end(find_kind(&tree, "go_statement", 0)), tree.subtree_end(call));
}
