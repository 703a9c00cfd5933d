use goanalyzer::concurrency::{
    determine_race_severity, is_in_goroutine, is_variable_captured, is_variable_reassignment,
};
use goanalyzer::cursor::find_node_at_cursor_with_context;
use goanalyzer::entities::count_entities;
use goanalyzer::parse::parse_go;
use goanalyzer::resolve::{find_variable_at_position, find_variable_at_position_enhanced};
use goanalyzer::sync::has_synchronization_in_block;
use goanalyzer::syntax::SyntaxTree;
use goanalyzer::types::{CursorContextType, Position, RaceSeverity, Range};
use goanalyzer::usage::analyze_goroutine_usage;

fn parse(code: &str) -> SyntaxTree {
    parse_go(code).expect("Failed to parse code")
}

#[test]
fn test_find_variable_simple_declaration() {
    let code = r#"
func main() {
    x := 42
    println(x)
}
        "#;
    let tree = parse(code);

    let pos_decl = Position::new(2, 4);
    let var_info =
        find_variable_at_position(&tree, code, pos_decl).expect("Variable should be found");

    assert_eq!(var_info.name, "x");
    assert!(var_info.declaration.start.line <= 2);
    assert!(var_info.uses.len() >= 1);
    assert!(!var_info.is_pointer);
}

#[test]
fn test_find_struct_field_access() {
    let code = r#"
type User struct {
    name string
}

func main() {
    user := User{}
    user.name = "John"
    println(user.name)
}
        "#;
    let tree = parse(code);

    let pos_object = Position::new(7, 4);
    let var_info_obj =
        find_variable_at_position(&tree, code, pos_object).expect("Variable should be found");

    assert_eq!(var_info_obj.name, "user");
    assert!(var_info_obj.declaration.start.line <= 7);
    assert!(var_info_obj.uses.len() >= 2);
}

#[test]
fn test_find_function_parameter() {
    let code = r#"
func process(data string) {
    println(data)
    for i := 0; i < 5; i++ {
        println(i, data)
    }
}
        "#;
    let tree = parse(code);

    let pos_use = Position::new(4, 19);
    let var_info_use =
        find_variable_at_position(&tree, code, pos_use).expect("Parameter should be found");

    assert_eq!(var_info_use.name, "data");
    assert!(var_info_use.declaration.start.line <= 1);
}

#[test]
fn test_find_range_variable() {
    let code = r#"
func main() {
    items := []string{"a", "b", "c"}
    for i, v := range items {
        println(i, v)
    }
}
        "#;
    let tree = parse(code);

    let pos_index = Position::new(3, 8);
    let var_info_i =
        find_variable_at_position(&tree, code, pos_index).expect("Range variable should be found");

    assert_eq!(var_info_i.name, "i");
    assert!(var_info_i.declaration.start.line <= 3);
    assert!(var_info_i.uses.len() >= 1);
}

#[test]
fn test_find_type_switch_variable() {
    let code = r#"
func main() {
    var x interface{} = "hello"
    switch v := x.(type) {
    case string:
        println(v)
    }
}
        "#;
    let tree = parse(code);

    let pos_switch = Position::new(3, 11);
    let var_info = find_variable_at_position(&tree, code, pos_switch)
        .expect("Type switch variable should be found");

    assert_eq!(var_info.name, "v");
    assert!(var_info.declaration.start.line <= 3);
    assert!(var_info.uses.len() >= 1);
}

#[test]
fn test_variable_lifecycle_comprehensive() {
    let code = r#"
func demo() {
    var x int = 10      // Declaration
    y := &x             // Address-of operation  
    z := x + 5          // Read operation
    println(x, y, z)    // Multiple uses
}
        "#;
    let tree = parse(code);

    let pos_x = Position::new(2, 8);
    let var_info =
        find_variable_at_position(&tree, code, pos_x).expect("Variable x should be found");

    assert_eq!(var_info.name, "x");
    assert!(var_info.declaration.start.line <= 2);
    assert!(var_info.uses.len() >= 2);
}

#[test]
fn test_pointer_operations_detection() {
    let code = r#"
func main() {
    x := 42
    ptr := &x       // Take address
    println(x, ptr)
}
        "#;
    let tree = parse(code);

    let pos_addr = Position::new(3, 12);
    let var_info =
        find_variable_at_position(&tree, code, pos_addr).expect("Variable should be found");

    assert_eq!(var_info.name, "x");
    assert!(var_info.uses.len() >= 1);
}

#[test]
fn test_goroutine_detection_basic() {
    let code = r#"
func main() {
    x := 42
    go func() {
        println(x)  // Variable used in goroutine
    }()
    x = 100        // Potential race condition
}
        "#;
    let tree = parse(code);

    let range_inside = Range::new(Position::new(4, 16), Position::new(4, 16));
    assert!(is_in_goroutine(&tree, range_inside));

    let range_outside = Range::new(Position::new(6, 4), Position::new(6, 4));
    assert!(!is_in_goroutine(&tree, range_outside));
}

#[test]
fn test_race_severity_detection() {
    let safe_code = r#"
func safe() {
    var mu sync.Mutex
    mu.Lock()
    x := 0
    mu.Unlock()
}
        "#;

    let unsafe_code = r#"
func unsafe() {
    x := 0
    go func() {
        x++  // Race condition!
    }()
}
        "#;

    let tree_safe = parse(safe_code);
    let tree_unsafe = parse(unsafe_code);

    let range_safe = Range::new(Position::new(4, 4), Position::new(4, 4));
    let severity_safe = determine_race_severity(&tree_safe, range_safe, safe_code);
    assert_eq!(severity_safe, RaceSeverity::Low);

    let range_unsafe = Range::new(Position::new(4, 8), Position::new(4, 8));
    let severity_unsafe = determine_race_severity(&tree_unsafe, range_unsafe, unsafe_code);
    assert_eq!(severity_unsafe, RaceSeverity::High);
}

#[test]
fn test_cursor_context_detection() {
    let code = r#"
func main() {
    user := "John"
    println(user)
}
        "#;
    let tree = parse(code);

    let pos_var_decl = Position::new(2, 4);
    let context =
        find_node_at_cursor_with_context(&tree, pos_var_decl).expect("Context should be found");
    assert!(context.target_node_kind.len() > 0);
}

#[test]
fn test_empty_file() {
    let code = "";
    let tree = parse(code);

    let pos = Position::new(0, 0);
    let var_info = find_variable_at_position(&tree, code, pos);
    assert!(var_info.is_none());

    let context = find_node_at_cursor_with_context(&tree, pos);
    if let Some(ctx) = context {
        assert!(matches!(ctx.context_type, CursorContextType::Unknown));
    }
}

#[test]
fn test_cursor_outside_code() {
    let code = r#"
func main() {
    x := 42
}
        "#;
    let tree = parse(code);

    let pos_outside = Position::new(100, 100);
    let var_info = find_variable_at_position(&tree, code, pos_outside);
    assert!(var_info.is_none());
}

#[test]
fn test_has_synchronization_in_block_mutex() {
    let code = r#"
func example() {
    var x int
    {
        mutex.Lock()
        x = 1
        mutex.Unlock()
    }
}
        "#;
    let tree = parse(code);
    let range = Range::new(Position::new(2, 12), Position::new(2, 12));
    assert!(has_synchronization_in_block(&tree, range, code));
}

#[test]
fn test_has_synchronization_in_block_none() {
    let code = r#"
func example() {
    {
        x = 2
    }
}
        "#;
    let tree = parse(code);
    let range = Range::new(Position::new(2, 16), Position::new(2, 16));
    assert!(!has_synchronization_in_block(&tree, range, code));
}

#[test]
fn test_has_synchronization_in_block_atomic() {
    let code = r#"
func inc() {
    atomic.AddInt32(&counter, 1)
}
        "#;
    let tree = parse(code);
    let range = Range::new(Position::new(2, 12), Position::new(2, 12));
    assert!(has_synchronization_in_block(&tree, range, code));
}

#[test]
fn test_determine_race_severity_original() {
    let safe_code = r#"
func safe() {
    m.Lock();
    x++;
    m.Unlock();
}
        "#;
    let unsafe_code = r#"
func unsafe() {
    x = x + 1
}
        "#;
    let tree_safe = parse(safe_code);
    let tree_unsafe = parse(unsafe_code);
    let range_safe = Range::new(Position::new(2, 10), Position::new(2, 10));
    let range_unsafe = Range::new(Position::new(2, 5), Position::new(2, 5));

    assert_eq!(
        determine_race_severity(&tree_safe, range_safe, safe_code),
        RaceSeverity::Low
    );
    assert_eq!(
        determine_race_severity(&tree_unsafe, range_unsafe, unsafe_code),
        RaceSeverity::High
    );
}

#[test]
fn test_find_variable_at_position_original() {
    let code = r#"
func demo() {
    var a, b = 1, 2
    c := a + b
    _ = c
}
        "#;
    let tree = parse(code);
    let pos = Position::new(3, 9);
    let info = find_variable_at_position(&tree, code, pos).expect("Variable should be found");
    assert_eq!(info.name, "a");
    assert_eq!(info.declaration.start.line, 2);
    assert_eq!(info.uses.len(), 1);
    assert!(!info.is_pointer);
}

#[test]
fn test_is_in_goroutine_original() {
    let code = r#"
func run() {
    go func() {
        doWork()
    }()
}
        "#;
    let tree = parse(code);
    let range_inside = Range::new(Position::new(2, 15), Position::new(2, 15));
    assert!(is_in_goroutine(&tree, range_inside));
    let range_outside = Range::new(Position::new(1, 5), Position::new(1, 5));
    assert!(!is_in_goroutine(&tree, range_outside));
}

#[test]
fn test_enhanced_cursor_position_detection_original() {
    let code = r#"
func example() {
    var user struct {
        name string
        age  int
    }
    user.name = "John"
    go func() {
        fmt.Println(user.age)
    }()
}
        "#;
    let tree = parse(code);

    let pos_field_access = Position::new(6, 9);
    let context = find_node_at_cursor_with_context(&tree, pos_field_access);
    assert!(context.is_some());
    let context = context.unwrap();
    assert_eq!(context.context_type, CursorContextType::FieldAccess);

    let pos_goroutine = Position::new(8, 23);
    let var_info = find_variable_at_position_enhanced(&tree, code, pos_goroutine);
    assert!(var_info.is_some());
    let var_info = var_info.unwrap();
    assert_eq!(var_info.name, "user");

    let pos_declaration = Position::new(2, 8);
    let var_info_decl = find_variable_at_position_enhanced(&tree, code, pos_declaration);
    assert!(var_info_decl.is_some());
    let var_info_decl = var_info_decl.unwrap();
    assert_eq!(var_info_decl.name, "user");
    assert!(var_info_decl.uses.len() >= 2);
}

#[test]
fn test_anonymous_structs() {
    let code = r#"
func main() {
    person := struct {
        name string
        age  int
    }{
        name: "Alice",
        age:  30,
    }
    println(person.name)
}
        "#;
    let tree = parse(code);

    let pos_person = Position::new(9, 12);
    let var_info =
        find_variable_at_position(&tree, code, pos_person).expect("Variable should be found");

    assert_eq!(var_info.name, "person");
    assert!(var_info.declaration.start.line <= 2);
}

#[test]
fn test_method_receivers() {
    let code = r#"
type Counter struct {
    value int
}

func (c *Counter) Increment() {
    c.value++
}
        "#;
    let tree = parse(code);

    let pos_ptr_receiver = Position::new(5, 6);
    let var_info =
        find_variable_at_position(&tree, code, pos_ptr_receiver).expect("Receiver should be found");

    assert_eq!(var_info.name, "c");
    assert!(var_info.declaration.start.line <= 5);
}

#[test]
fn test_interface_usage() {
    let code = r#"
type Writer interface {
    Write(data []byte) (int, error)
}

func process(w Writer) {
    data := []byte("hello")
    w.Write(data)
}
        "#;
    let tree = parse(code);

    let pos_interface = Position::new(5, 13);
    let var_info = find_variable_at_position(&tree, code, pos_interface)
        .expect("Interface parameter should be found");

    assert_eq!(var_info.name, "w");
    assert!(var_info.declaration.start.line <= 5);
    assert!(var_info.uses.len() >= 1);
}

#[test]
fn test_complex_variable_scoping() {
    let code = r#"
func outer() {
    x := 10
    func() {
        y := x + 5
        println(y)
    }()
}
        "#;
    let tree = parse(code);

    let pos_x = Position::new(4, 13);
    let var_info =
        find_variable_at_position(&tree, code, pos_x).expect("Variable should be found");

    assert_eq!(var_info.name, "x");
    assert!(var_info.declaration.start.line <= 2);
}

#[test]
fn test_multiple_assignments() {
    let code = r#"
func main() {
    a, b := 1, 2
    c, d := getValues()
    println(a, b, c, d)
}

func getValues() (int, int) {
    return 3, 4
}
        "#;
    let tree = parse(code);

    let pos_a = Position::new(2, 4);
    let var_info_a =
        find_variable_at_position(&tree, code, pos_a).expect("Variable a should be found");

    assert_eq!(var_info_a.name, "a");
    assert!(var_info_a.declaration.start.line <= 2);

    let pos_c = Position::new(3, 4);
    let var_info_c =
        find_variable_at_position(&tree, code, pos_c).expect("Variable c should be found");

    assert_eq!(var_info_c.name, "c");
    assert!(var_info_c.declaration.start.line <= 3);
}

#[test]
fn test_invalid_syntax_graceful_handling() {
    let code = r#"
func broken( {
    x := 
    y = x +
}
        "#;
    let tree = parse(code);
    let pos = Position::new(2, 4);
    let _ = find_variable_at_position(&tree, code, pos);
}

#[test]
fn test_variable_reassignment_detection() {
    let code = r#"
func main() {
    x := 42      // Declaration
    x = 100      // Reassignment
    y := 30
    y = 40       // Another reassignment
}
        "#;
    let tree = parse(code);

    let reassign_range = Range::new(Position::new(3, 4), Position::new(3, 5));
    let is_reassign = is_variable_reassignment(&tree, "x", reassign_range, code);
    assert!(is_reassign, "Should detect x = 100 as reassignment");

    let decl_range = Range::new(Position::new(2, 4), Position::new(2, 5));
    let is_not_reassign = is_variable_reassignment(&tree, "x", decl_range, code);
    assert!(
        !is_not_reassign,
        "Should not detect declaration as reassignment"
    );
}

#[test]
fn test_variable_capture_in_closure() {
    let code = r#"
func main() {
    x := 42
    go func() {
        println(x)   // Captured variable
    }()
    y := 30
    println(y)       // Not captured
}
        "#;
    let tree = parse(code);

    let capture_range = Range::new(Position::new(4, 16), Position::new(4, 17));
    let declaration_range = Range::new(Position::new(2, 4), Position::new(2, 5));
    let is_captured = is_variable_captured(&tree, "x", capture_range, declaration_range);
    assert!(is_captured, "Should detect x as captured in goroutine");

    let non_capture_range = Range::new(Position::new(7, 12), Position::new(7, 13));
    let y_declaration_range = Range::new(Position::new(6, 4), Position::new(6, 5));
    let is_not_captured =
        is_variable_captured(&tree, "y", non_capture_range, y_declaration_range);
    assert!(!is_not_captured, "Should not detect y as captured");
}

#[test]
fn test_variable_capture_in_function_literal() {
    let code = r#"
func main() {
    value := 100
    callback := func() {
        println(value)  // Captured in function literal
    }
    callback()
}
        "#;
    let tree = parse(code);

    let capture_range = Range::new(Position::new(4, 16), Position::new(4, 21));
    let declaration_range = Range::new(Position::new(2, 4), Position::new(2, 9));
    let is_captured = is_variable_captured(&tree, "value", capture_range, declaration_range);
    assert!(
        is_captured,
        "Should detect value as captured in function literal"
    );
}

#[test]
fn test_panic_recovery() {
    let code = r#"
func main() {
    x := 42
    go func() {
        println(x)
    }()
}
        "#;
    let tree = parse(code);
    let pos = Position::new(4, 16);

    let _ = find_variable_at_position(&tree, code, pos);
    let _ = find_variable_at_position_enhanced(&tree, code, pos);
    let _ = find_node_at_cursor_with_context(&tree, pos);
    let _ = analyze_goroutine_usage(&tree, "x", code);
}

#[test]
fn test_count_entities_original() {
    let code = r#"
var global int
func f() {}
func main() {
    go doSomething()
    ch := make(chan int)
    x := 10
}
        "#;
    let tree = parse(code);
    let counts = count_entities(&tree, code);
    assert_eq!(counts.variables, 3);
    assert_eq!(counts.functions, 2);
    assert_eq!(counts.goroutines, 1);
    assert_eq!(counts.channels, 1);
}

#[test]
fn test_nested_goroutines() {
    let code = r#"
func main() {
    x := 42
    go func() {
        go func() {
            println(x)
        }()
    }()
}
        "#;
    let tree = parse(code);

    let range_nested = Range::new(Position::new(5, 20), Position::new(5, 20));
    assert!(is_in_goroutine(&tree, range_nested));

    let usage_analysis = analyze_goroutine_usage(&tree, "x", code);
    assert!(!usage_analysis.is_empty());
}

#[test]
fn test_channel_operations() {
    let code = r#"
func main() {
    ch := make(chan int)
    go func() {
        ch <- 42
    }()
    value := <-ch
    println(value)
}
        "#;
    let tree = parse(code);

    let counts = count_entities(&tree, code);
    assert!(counts.channels >= 1);
    assert!(counts.goroutines >= 1);
    assert!(counts.variables >= 2);

    let pos_ch = Position::new(2, 4);
    let var_info =
        find_variable_at_position(&tree, code, pos_ch).expect("Channel variable should be found");

    assert_eq!(var_info.name, "ch");
    assert!(var_info.uses.len() >= 2);
}

#[test]
fn test_comprehensive_entity_counting() {
    let code = r#"
package main

var globalVar int

func function1() {}

func function2() {
    localVar := 10
    ch := make(chan int)
    go func() {
        println("goroutine")
    }()
    
    go function1()
    anotherVar := 20
}

func main() {
    mainVar := "hello"
    println(mainVar)
}
        "#;
    let tree = parse(code);
    let counts = count_entities(&tree, code);

    assert!(counts.variables >= 5);
    assert!(counts.functions >= 3);
    assert!(counts.channels >= 1);
    assert!(counts.goroutines >= 2);
}
