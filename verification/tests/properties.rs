use goanalyzer::concurrency::{
    determine_race_severity, is_in_goroutine, is_variable_captured, race_severity_with,
};
use goanalyzer::decorate::decorate_variable;
use goanalyzer::entities::count_entities;
use goanalyzer::graph::build_graph_data;
use goanalyzer::parse::parse_go;
use goanalyzer::resolve::{find_variable_at_position, resolve_declaration_at};
use goanalyzer::sync::{
    has_synchronization_in_block, is_in_atomic_context, is_synchronized, known_sync_funcs,
};
use goanalyzer::syntax::SyntaxTree;
use goanalyzer::types::{
    DeclInfo, DecorationType, GraphEdgeType, GraphEntityType, Position, RaceSeverity, Range,
    VarId,
};

fn parse(code: &str) -> SyntaxTree {
    parse_go(code).expect("tree")
}

fn point(line: u32, character: u32) -> Range {
    Range::new(Position::new(line, character), Position::new(line, character))
}

#[test]
fn resolving_twice_gives_the_same_variable() {
    let code = "func f() {\n    x := 1\n    x = x + 2\n    println(x)\n}\n";
    let tree = parse(code);
    let first = find_variable_at_position(&tree, code, Position::new(3, 12)).expect("x");
    let second = find_variable_at_position(&tree, code, Position::new(3, 12)).expect("x");
    assert_eq!(first.name, second.name);
    assert_eq!(first.var_id, second.var_id);
    assert_eq!(first.declaration, second.declaration);
    assert_eq!(first.uses, second.uses);
    assert_eq!(first.is_pointer, second.is_pointer);
}

#[test]
fn uses_come_in_document_order() {
    let code = "func f() {\n    x := 1\n    x = x + 2\n    if x > 0 {\n        println(x, x)\n    }\n}\n";
    let tree = parse(code);
    let info = find_variable_at_position(&tree, code, Position::new(1, 4)).expect("x");
    assert_eq!(
        info.uses,
        vec![
            Range::new(Position::new(2, 4), Position::new(2, 5)),
            Range::new(Position::new(2, 8), Position::new(2, 9)),
            Range::new(Position::new(3, 7), Position::new(3, 8)),
            Range::new(Position::new(4, 16), Position::new(4, 17)),
            Range::new(Position::new(4, 19), Position::new(4, 20)),
        ]
    );
    for pair in info.uses.windows(2) {
        let a = pair[0].start;
        let b = pair[1].start;
        assert!(a.line < b.line || (a.line == b.line && a.character <= b.character));
    }
}

#[test]
fn inner_declaration_shadows_outer() {
    let code = "func f() {\n    x := 1\n    {\n        x := 2\n        println(x)\n    }\n    println(x)\n}\n";
    let tree = parse(code);
    let inner = find_variable_at_position(&tree, code, Position::new(4, 16)).expect("inner x");
    assert_eq!(
        inner.declaration,
        Range::new(Position::new(3, 8), Position::new(3, 9))
    );
    assert_eq!(inner.var_id.start_byte, 36);
    assert_eq!(inner.var_id.end_byte, 37);
    assert_eq!(
        inner.uses,
        vec![Range::new(Position::new(4, 16), Position::new(4, 17))]
    );
    let outer = find_variable_at_position(&tree, code, Position::new(6, 12)).expect("outer x");
    assert_eq!(
        outer.declaration,
        Range::new(Position::new(1, 4), Position::new(1, 5))
    );
    assert_eq!(
        outer.uses,
        vec![Range::new(Position::new(6, 12), Position::new(6, 13))]
    );
    assert_ne!(inner.var_id, outer.var_id);
}

#[test]
fn use_before_inner_declaration_sees_outer() {
    let code = "func f() {\n    x := 1\n    {\n        println(x)\n        x := 2\n        _ = x\n    }\n}\n";
    let tree = parse(code);
    let early = find_variable_at_position(&tree, code, Position::new(3, 16)).expect("x");
    assert_eq!(
        early.declaration,
        Range::new(Position::new(1, 4), Position::new(1, 5))
    );
}

#[test]
fn declaration_is_none_of_its_uses() {
    let code = "func f(data string) {\n    println(data)\n    data = data + data\n}\n";
    let tree = parse(code);
    let info = find_variable_at_position(&tree, code, Position::new(1, 12)).expect("data");
    assert_eq!(
        info.declaration,
        Range::new(Position::new(0, 7), Position::new(0, 11))
    );
    assert_eq!(info.uses.len(), 4);
    assert!(!info.uses.contains(&info.declaration));
}

#[test]
fn access_between_lock_and_unlock_is_synchronized() {
    let code = "func f() { mu.Lock(); x = 1; mu.Unlock() }\n";
    let tree = parse(code);
    let funcs = known_sync_funcs(&tree, code);
    let at = point(0, 22);
    assert!(is_synchronized(&tree, at, code, &funcs));
    assert!(!is_in_goroutine(&tree, at));
    assert_eq!(determine_race_severity(&tree, at, code), RaceSeverity::Low);
    let after = "func f() { mu.Lock(); mu.Unlock(); x = 1 }\n";
    let tree_after = parse(after);
    let funcs_after = known_sync_funcs(&tree_after, after);
    assert!(!is_synchronized(&tree_after, point(0, 35), after, &funcs_after));
}

#[test]
fn synchronized_access_in_goroutine_is_low() {
    let code = "var x int\nfunc f() {\n    go func() {\n        mu.Lock()\n        x = 1\n        mu.Unlock()\n    }()\n}\n";
    let tree = parse(code);
    let at = point(4, 8);
    assert!(is_in_goroutine(&tree, at));
    assert_eq!(determine_race_severity(&tree, at, code), RaceSeverity::Low);
}

#[test]
fn lock_in_another_function_does_not_count() {
    let code = "func f() {\n    mu.Lock()\n    go func() {\n        x = 1\n    }()\n    mu.Unlock()\n}\n";
    let tree = parse(code);
    let funcs = known_sync_funcs(&tree, code);
    assert!(!is_synchronized(&tree, point(3, 8), code, &Vec::new()));
    assert_eq!(funcs.len(), 1);
}

#[test]
fn unsynchronized_write_in_goroutine() {
    let code = "func f() { x := 0; go func() { x++ }() }\n";
    let tree = parse(code);
    let at = Range::new(Position::new(0, 31), Position::new(0, 32));
    let decl = Range::new(Position::new(0, 11), Position::new(0, 12));
    assert!(is_in_goroutine(&tree, at));
    assert!(is_variable_captured(&tree, "x", at, decl));
    assert_eq!(determine_race_severity(&tree, at, code), RaceSeverity::High);
}

#[test]
fn local_capture_is_not_flagged() {
    let code = "func f() { x := 0; go func() { x++ }() }\n";
    let tree = parse(code);
    let mut info = find_variable_at_position(&tree, code, Position::new(0, 11)).expect("x");
    let decorations = decorate_variable(&tree, code, &mut info);
    assert_eq!(decorations.len(), 2);
    assert_eq!(decorations[0].kind, DecorationType::Declaration);
    assert_eq!(decorations[0].hover_text, "Declaration of `x`");
    assert_eq!(decorations[1].kind, DecorationType::Use);
    assert_eq!(decorations[1].hover_text, "Use of `x`");
    assert!(!info.potential_race);
    assert_eq!(info.race_severity, RaceSeverity::Medium);
}

#[test]
fn global_capture_is_flagged() {
    let code = "var x int\nfunc f() {\n    go func() {\n        x++\n    }()\n}\n";
    let tree = parse(code);
    let mut info = find_variable_at_position(&tree, code, Position::new(0, 4)).expect("x");
    assert_eq!(
        info.uses,
        vec![Range::new(Position::new(3, 8), Position::new(3, 9))]
    );
    let decorations = decorate_variable(&tree, code, &mut info);
    assert_eq!(decorations.len(), 2);
    assert_eq!(decorations[1].kind, DecorationType::Race);
    assert_eq!(
        decorations[1].hover_text,
        "Use of `x` in goroutine - HIGH PRIORITY data race!"
    );
    assert!(info.potential_race);
    assert_eq!(info.race_severity, RaceSeverity::High);
}

#[test]
fn global_written_in_a_goroutine_on_one_line() {
    let code = "var x int\nfunc f() { go func() { x++ }() }";
    let tree = parse(code);
    let mut info = find_variable_at_position(&tree, code, Position::new(1, 23)).expect("x");
    assert_eq!(
        info.declaration,
        Range::new(Position::new(0, 4), Position::new(0, 5))
    );
    assert_eq!(
        info.uses,
        vec![Range::new(Position::new(1, 23), Position::new(1, 24))]
    );
    let decorations = decorate_variable(&tree, code, &mut info);
    assert_eq!(decorations.len(), 2);
    assert_eq!(
        decorations[1].range,
        Range::new(Position::new(1, 23), Position::new(1, 24))
    );
    assert_eq!(decorations[1].kind, DecorationType::Race);
    assert!(info.potential_race);
    assert_eq!(info.race_severity, RaceSeverity::High);
}

#[test]
fn shared_variables_used_in_goroutines_are_races() {
    let code = "var x int\nfunc f() {\n    go work(x)\n}\n";
    let tree = parse(code);
    let mut info = find_variable_at_position(&tree, code, Position::new(0, 4)).expect("x");
    let decorations = decorate_variable(&tree, code, &mut info);
    assert_eq!(decorations.len(), 2);
    assert_eq!(decorations[1].kind, DecorationType::Race);
    assert!(info.potential_race);
    assert_eq!(info.race_severity, RaceSeverity::High);

    let field = "type T struct {\n    n int\n}\nfunc f(t T) {\n    go func() {\n        mu.Lock()\n        t.n = 1\n        mu.Unlock()\n    }()\n}\n";
    let tree = parse(field);
    let mut info = find_variable_at_position(&tree, field, Position::new(1, 4)).expect("n");
    assert_eq!(info.name, "n");
    let decorations = decorate_variable(&tree, field, &mut info);
    assert_eq!(decorations.len(), 2);
    assert_eq!(decorations[1].kind, DecorationType::RaceLow);
    assert_eq!(
        decorations[1].hover_text,
        "Use of `n` in goroutine - LOW PRIORITY (sync detected)"
    );
    assert!(info.potential_race);
    assert_eq!(info.race_severity, RaceSeverity::Low);

    let assigned = "var x int\nfunc f() {\n    go func() {\n        x = 1\n    }()\n    x = 2\n}\n";
    let tree = parse(assigned);
    let mut info = find_variable_at_position(&tree, assigned, Position::new(0, 4)).expect("x");
    let decorations = decorate_variable(&tree, assigned, &mut info);
    assert_eq!(decorations.len(), 3);
    assert_eq!(decorations[1].kind, DecorationType::Race);
    assert_eq!(decorations[2].kind, DecorationType::AliasReassigned);
    assert_eq!(decorations[2].hover_text, "Reassignment of `x`");
    assert!(info.potential_race);
    assert_eq!(info.race_severity, RaceSeverity::High);
}

#[test]
fn shared_variables_used_in_plain_closures_are_captures() {
    let code = "var x int\nfunc f() {\n    g := func() {\n        println(x)\n    }\n    g()\n    println(x)\n}\n";
    let tree = parse(code);
    let mut info = find_variable_at_position(&tree, code, Position::new(0, 4)).expect("x");
    let decorations = decorate_variable(&tree, code, &mut info);
    assert_eq!(decorations.len(), 3);
    assert_eq!(decorations[1].kind, DecorationType::AliasCaptured);
    assert_eq!(
        decorations[1].hover_text,
        "Captured `x` in closure/goroutine"
    );
    assert_eq!(decorations[2].kind, DecorationType::Use);
    assert!(!info.potential_race);
    assert_eq!(info.race_severity, RaceSeverity::Medium);
}

#[test]
fn field_read_in_its_own_goroutine_is_a_race() {
    let code = "func f() {\n    go func() {\n        var s struct{ n int }\n        println(s.n)\n    }()\n}\n";
    let tree = parse(code);
    let mut info = find_variable_at_position(&tree, code, Position::new(3, 18)).expect("n");
    assert_eq!(info.name, "n");
    assert_eq!(
        info.declaration,
        Range::new(Position::new(2, 22), Position::new(2, 23))
    );
    let decorations = decorate_variable(&tree, code, &mut info);
    assert_eq!(decorations.len(), 2);
    assert_eq!(decorations[1].kind, DecorationType::Race);
    assert_eq!(
        decorations[1].hover_text,
        "Use of `n` in goroutine - HIGH PRIORITY data race!"
    );
    assert!(info.potential_race);
    assert_eq!(info.race_severity, RaceSeverity::High);

    let locked = "func f() {\n    go func() {\n        var s struct{ n int }\n        mu.Lock()\n        println(s.n)\n        mu.Unlock()\n    }()\n}\n";
    let tree = parse(locked);
    let mut info = find_variable_at_position(&tree, locked, Position::new(4, 18)).expect("n");
    let decorations = decorate_variable(&tree, locked, &mut info);
    assert_eq!(decorations[1].kind, DecorationType::RaceLow);
    assert_eq!(
        decorations[1].hover_text,
        "Use of `n` in goroutine - LOW PRIORITY (sync detected)"
    );
    assert!(info.potential_race);
    assert_eq!(info.race_severity, RaceSeverity::Low);
}

#[test]
fn deferred_unlock_keeps_the_lock() {
    let code = "func f() {\n    mu.Lock()\n    defer mu.Unlock()\n    x = 1\n}\n";
    let tree = parse(code);
    let funcs = known_sync_funcs(&tree, code);
    assert!(is_synchronized(&tree, point(3, 4), code, &funcs));
    let plain = "func f() {\n    mu.Lock()\n    mu.Unlock()\n    x = 1\n}\n";
    let tree_plain = parse(plain);
    let funcs_plain = known_sync_funcs(&tree_plain, plain);
    assert!(!is_synchronized(&tree_plain, point(3, 4), plain, &funcs_plain));
}

#[test]
fn atomic_call_is_recognized() {
    let code = "func inc() {\n    atomic.AddInt32(&counter, 1)\n}\n";
    let tree = parse(code);
    let at = point(1, 21);
    assert!(is_in_atomic_context(&tree, at, code));
    assert!(has_synchronization_in_block(&tree, at, code));
    let other = "func inc() {\n    other.AddInt32(&counter, 1)\n}\n";
    let tree_other = parse(other);
    assert!(!is_in_atomic_context(&tree_other, at, other));
    assert!(!has_synchronization_in_block(&tree_other, at, other));
}

#[test]
fn entities_are_counted() {
    let code = "var global int\nfunc f() {}\nfunc main() {\n    go f()\n    var ch chan int\n}\n";
    let tree = parse(code);
    let counts = count_entities(&tree, code);
    assert_eq!(counts.variables, 2);
    assert_eq!(counts.functions, 2);
    assert_eq!(counts.channels, 1);
    assert_eq!(counts.goroutines, 1);
    let reads = "func f() {\n    x := 1\n    y := x\n}\n";
    let tree = parse(reads);
    let counts = count_entities(&tree, reads);
    assert_eq!(counts.variables, 2);
    assert_eq!(counts.functions, 1);
    assert_eq!(counts.channels, 0);
    assert_eq!(counts.goroutines, 0);
    let several = "var a, b = 1, 2\nfunc f(p int) {\n    c, d := a, b\n    for i := range c {\n        _ = i + p + d\n    }\n}\n";
    let tree = parse(several);
    assert_eq!(count_entities(&tree, several).variables, 4);
    let anonymous = "var global int\nfunc f() {}\nfunc main() {\n    go func() {}()\n    _ = make(chan int)\n}\n";
    let tree = parse(anonymous);
    let counts = count_entities(&tree, anonymous);
    assert_eq!(counts.variables, 1);
    assert_eq!(counts.functions, 2);
    assert_eq!(counts.channels, 1);
    assert_eq!(counts.goroutines, 1);
}

#[test]
fn graph_holds_one_node_per_declaration() {
    let code = "var g int\nfunc f() {\n    a, b := 1, 2\n    go f()\n    var ch chan int\n    ch <- a + b + g\n    _ = <-ch\n}\n";
    let tree = parse(code);
    let graph = build_graph_data(&tree, code);
    let count = |sort: GraphEntityType, used: bool| {
        graph
            .nodes
            .iter()
            .filter(|n| n.entity_type == sort && n.extra.is_some() == used)
            .count()
    };
    assert_eq!(count(GraphEntityType::Variable, false), 4);
    assert_eq!(count(GraphEntityType::Function, false), 1);
    assert_eq!(count(GraphEntityType::Goroutine, false), 1);
    assert_eq!(count(GraphEntityType::Channel, false), 1);
    assert_eq!(count(GraphEntityType::SyncBlock, false), 0);
    assert_eq!(count(GraphEntityType::Variable, true), 5);
    let edges = |sort: GraphEdgeType| graph.edges.iter().filter(|e| e.edge_type == sort).count();
    assert_eq!(edges(GraphEdgeType::Use), 5);
    assert_eq!(edges(GraphEdgeType::Spawn), 1);
    assert_eq!(edges(GraphEdgeType::Call), 1);
    assert_eq!(edges(GraphEdgeType::Send), 1);
    assert_eq!(edges(GraphEdgeType::Receive), 1);
    assert_eq!(edges(GraphEdgeType::Sync), 0);
    for e in graph.edges.iter().filter(|e| e.edge_type == GraphEdgeType::Use) {
        assert!(graph
            .nodes
            .iter()
            .any(|n| n.id == e.to && n.extra.is_none()));
        assert!(graph
            .nodes
            .iter()
            .any(|n| n.id == e.from && n.extra.is_some()));
    }
}

#[test]
fn declarations_are_resolved_at_the_cursor() {
    let code = "var g int\nfunc f(p *int) {\n    x := 1\n    {\n        x := &g\n        println(x)\n    }\n    println(x, p, g)\n}\n";
    let tree = parse(code);
    assert_eq!(
        resolve_declaration_at(&tree, code, "x", Position::new(5, 16)),
        Some(DeclInfo {
            range: Range::new(Position::new(4, 8), Position::new(4, 9)),
            var_id: VarId { start_byte: 52, end_byte: 53 },
            is_pointer: true,
        })
    );
    assert_eq!(
        resolve_declaration_at(&tree, code, "x", Position::new(7, 12)),
        Some(DeclInfo {
            range: Range::new(Position::new(2, 4), Position::new(2, 5)),
            var_id: VarId { start_byte: 31, end_byte: 32 },
            is_pointer: false,
        })
    );
    assert_eq!(
        resolve_declaration_at(&tree, code, "p", Position::new(7, 15)),
        Some(DeclInfo {
            range: Range::new(Position::new(1, 7), Position::new(1, 8)),
            var_id: VarId { start_byte: 17, end_byte: 18 },
            is_pointer: true,
        })
    );
    assert_eq!(resolve_declaration_at(&tree, code, "g", Position::new(7, 18)), None);
    assert_eq!(resolve_declaration_at(&tree, code, "y", Position::new(7, 12)), None);
    assert_eq!(resolve_declaration_at(&tree, code, "x", Position::new(70, 0)), None);
}

#[test]
fn severities() {
    let code = "func update() {\n    mu.Lock()\n    mu.Unlock()\n}\nfunc f() {\n    println(x)\n    x = 1\n    update(x)\n    go func() {\n        println(x)\n    }()\n}\n";
    let tree = parse(code);
    assert_eq!(determine_race_severity(&tree, point(5, 12), code), RaceSeverity::Medium);
    assert_eq!(determine_race_severity(&tree, point(6, 4), code), RaceSeverity::High);
    assert_eq!(determine_race_severity(&tree, point(7, 11), code), RaceSeverity::Low);
    assert_eq!(determine_race_severity(&tree, point(9, 16), code), RaceSeverity::High);
    assert_eq!(determine_race_severity(&tree, point(90, 0), code), RaceSeverity::Medium);
    assert_eq!(
        race_severity_with(&tree, point(7, 11), code, &Vec::new()),
        RaceSeverity::Medium
    );
}
