use hezen::error::{HezenError, HezenErrorList};
use hezen::host::{Arithmetic, Host, Link};
use hezen::{get_verbosity, run};

struct Console {
    output: String,
    clock: f64,
}

impl Host for Console {
    fn parse_number(&mut self, text: &str) -> u64 {
        text.parse::<f64>().unwrap().to_bits()
    }

    fn arithmetic(&mut self, operation: Arithmetic, left: u64, right: u64) -> u64 {
        let (a, b) = (f64::from_bits(left), f64::from_bits(right));
        let r = match operation {
            Arithmetic::Add => a + b,
            Arithmetic::Subtract => a - b,
            Arithmetic::Multiply => a * b,
            Arithmetic::Divide => a / b,
            Arithmetic::Remainder => a % b,
        };
        r.to_bits()
    }

    fn number_text(&mut self, number: u64) -> String {
        format!("{}", f64::from_bits(number))
    }

    fn clock(&mut self) -> u64 {
        self.clock += 1.5;
        self.clock.to_bits()
    }

    fn write(&mut self, text: &str) {
        self.output.push_str(text);
    }
}

fn execute(code: &str) -> (String, Result<(), HezenErrorList>) {
    let mut link = Link::new(Console { output: String::new(), clock: 0.0 });
    let result = run(&mut link, "test.hz".to_string(), code.to_string(), get_verbosity(None), u64::MAX);
    (link.into_host().output, result)
}

fn output_of(code: &str) -> String {
    let (output, result) = execute(code);
    if let Err(errors) = &result {
        panic!("unexpected errors: {}", errors.to_string());
    }
    output
}

fn errors_of(code: &str) -> Vec<String> {
    let (_, result) = execute(code);
    match result {
        Ok(()) => panic!("expected errors"),
        Err(errors) => errors.iter().iter().map(|e| e.to_string()).collect(),
    }
}

fn single_error(code: &str) -> HezenError {
    let (_, result) = execute(code);
    match result {
        Ok(()) => panic!("expected an error"),
        Err(errors) => {
            assert_eq!(errors.len(), 1);
            errors.iter()[0].clone()
        }
    }
}

#[test]
fn arithmetic_follows_precedence() {
    assert_eq!(output_of("println(1 + 2 * 3);"), "7\n");
}

#[test]
fn while_loop_counts() {
    assert_eq!(
        output_of("var mut i = 0; while (i < 3) { print(i); i = i + 1; } println(\"\");"),
        "012\n"
    );
}

#[test]
fn closure_keeps_its_counter() {
    assert_eq!(
        output_of(
            "fn make() { var mut n = 0; fn inc() { n = n + 1; return n; } return inc; } \
             var c = make(); println(c()); println(c()); println(c());"
        ),
        "1\n2\n3\n"
    );
}

#[test]
fn super_calls_the_inherited_method() {
    assert_eq!(
        output_of(
            "class A { greet() { println(\"A\"); } } \
             class B < A { greet() { super.greet(); println(\"B\"); } } B().greet();"
        ),
        "A\nB\n"
    );
}

#[test]
fn initializer_sets_fields() {
    assert_eq!(
        output_of("class P { init(x) { self.x = x; } } var p = P(42); println(p.x);"),
        "42\n"
    );
}

#[test]
fn assignment_to_immutable_variable_fails() {
    let error = single_error("var x = 1; x = 2;");
    match error {
        HezenError::Runtime(_, message) => {
            assert_eq!(message, "Cannot assign to immutable variable 'x'")
        }
        other => panic!("expected a runtime error, got {}", other.to_string()),
    }
}

#[test]
fn assignment_to_mutable_variable_succeeds() {
    assert_eq!(output_of("var mut x = 1; x = 2; println(x);"), "2\n");
}

#[test]
fn for_loop_runs_its_body_n_times() {
    for n in [0usize, 1, 2, 7] {
        let code = format!("for (var mut i = 0; i < {n}; i = i + 1) {{ print(\"x\"); }}");
        assert_eq!(output_of(&code), "x".repeat(n));
    }
}

#[test]
fn for_loop_over_an_immutable_variable_fails_at_its_increment() {
    let (output, result) = execute("for (var i = 0; i < 3; i = i + 1) { print(\"x\"); }");
    assert_eq!(output, "x");
    let errors = result.unwrap_err();
    assert_eq!(errors.len(), 1);
    match &errors.iter()[0] {
        HezenError::Runtime(_, message) => {
            assert_eq!(message, "Cannot assign to immutable variable 'i'")
        }
        other => panic!("expected a runtime error, got {}", other.to_string()),
    }
}

#[test]
fn loop_with_false_condition_runs_nothing() {
    assert_eq!(output_of("while (false) { print(\"x\"); } print(\"end\");"), "end");
    assert_eq!(output_of("for (var mut i = 5; i < 5; i = i + 1) { print(\"x\"); } print(\"end\");"), "end");
}

#[test]
fn for_loop_leaves_the_counter_at_the_first_value_not_below_the_limit() {
    assert_eq!(
        output_of(
            "var mut seen = 0; \
             for (var mut i = 1; i < 8; i = i + 3) { print(i); seen = i + 3; } \
             println(seen);"
        ),
        "14710\n"
    );
}

#[test]
fn for_loop_without_clauses_breaks() {
    assert_eq!(
        output_of("var mut i = 0; for (;;) { if (i >= 2) { break; } i = i + 1; } println(i);"),
        "2\n"
    );
}

#[test]
fn or_skips_its_right_operand_when_left_is_true() {
    assert_eq!(
        output_of(
            "fn loud() { println(\"called\"); return true; } \
             println(true or loud()); println(false or loud());"
        ),
        "true\ncalled\ntrue\n"
    );
}

#[test]
fn and_skips_its_right_operand_when_left_is_false() {
    assert_eq!(
        output_of(
            "fn loud() { println(\"called\"); return 1; } \
             println(false and loud()); println(nil and loud()); println(true and loud());"
        ),
        "false\nnil\ncalled\n1\n"
    );
}

#[test]
fn zero_and_empty_string_are_true() {
    assert_eq!(
        output_of("if (0) { print(\"zero \"); } if (\"\") { print(\"empty\"); } if (nil) { print(\"nil\"); }"),
        "zero empty"
    );
}

#[test]
fn initializer_with_bare_return_yields_the_instance() {
    assert_eq!(
        output_of(
            "class P { init(x) { self.x = x; return; } } var p = P(3); println(p.x); println(show(p));"
        ),
        "3\n<instance P>\n"
    );
}

#[test]
fn initializer_with_value_is_rejected() {
    let errors = errors_of("class P { init() { return 1; } }");
    assert_eq!(errors.len(), 1);
    assert!(errors[0].starts_with("Validation error"));
    assert!(errors[0].ends_with("Cannot return a value from an initializer."));
}

#[test]
fn wrong_arity_is_a_runtime_error_and_body_does_not_run() {
    let (output, result) = execute("fn f(a, b) { println(\"ran\"); } f(1);");
    assert_eq!(output, "");
    let errors = result.unwrap_err();
    assert_eq!(errors.len(), 1);
    match &errors.iter()[0] {
        HezenError::Runtime(_, message) => assert_eq!(message, "Expected 2 arguments but got 1"),
        other => panic!("expected a runtime error, got {}", other.to_string()),
    }
}

#[test]
fn class_without_init_takes_no_arguments() {
    let error = single_error("class A {} A(1);");
    match error {
        HezenError::Runtime(_, message) => assert_eq!(message, "Expected 0 arguments but got 1"),
        other => panic!("expected a runtime error, got {}", other.to_string()),
    }
}

#[test]
fn undefined_variable_is_reported() {
    let error = single_error("println(y);");
    match error {
        HezenError::Runtime(info, message) => {
            assert_eq!(message, "Undefined variable 'y'");
            assert_eq!(info.file, "test.hz");
            assert_eq!(info.line, 1);
            assert_eq!(info.column, 9);
        }
        other => panic!("expected a runtime error, got {}", other.to_string()),
    }
}

#[test]
fn undefined_property_is_reported() {
    let error = single_error("class A {} var a = A(); a.missing;");
    match error {
        HezenError::Runtime(_, message) => assert_eq!(message, "Undefined property 'missing'"),
        other => panic!("expected a runtime error, got {}", other.to_string()),
    }
}

#[test]
fn only_instances_have_properties() {
    let error = single_error("var a = 1; a.x;");
    match error {
        HezenError::Runtime(_, message) => {
            assert_eq!(message, "Only instances have properties, 'number' does not")
        }
        other => panic!("expected a runtime error, got {}", other.to_string()),
    }
}

#[test]
fn calling_a_number_fails() {
    let error = single_error("var a = 1; a();");
    match error {
        HezenError::Runtime(_, message) => {
            assert_eq!(message, "Can only call functions and classes, not 'number'")
        }
        other => panic!("expected a runtime error, got {}", other.to_string()),
    }
}

#[test]
fn superclass_must_be_a_class() {
    let error = single_error("var a = 1; class B < a {}");
    match error {
        HezenError::Runtime(_, message) => {
            assert_eq!(message, "Superclass must be a class, not 'number'")
        }
        other => panic!("expected a runtime error, got {}", other.to_string()),
    }
}

#[test]
fn adding_number_and_string_fails() {
    let error = single_error("1 + \"a\";");
    match error {
        HezenError::Runtime(_, message) => assert_eq!(
            message,
            "Operands must be two numbers or two strings, not 'number' and 'string'"
        ),
        other => panic!("expected a runtime error, got {}", other.to_string()),
    }
}

#[test]
fn negating_a_string_fails() {
    let error = single_error("-\"a\";");
    match error {
        HezenError::Runtime(_, message) => {
            assert_eq!(message, "Operand must be a number, not 'string'")
        }
        other => panic!("expected a runtime error, got {}", other.to_string()),
    }
}

#[test]
fn strings_concatenate() {
    assert_eq!(output_of("println(\"ab\" + \"cd\");"), "abcd\n");
}

#[test]
fn division_by_zero_is_not_an_error() {
    assert_eq!(output_of("println(1 / 0); println(0 / 0 == 0 / 0);"), "inf\nfalse\n");
}

#[test]
fn comparisons_and_equality() {
    assert_eq!(
        output_of(
            "println(1 < 2); println(2 <= 2); println(3 > 4); println(4 >= 5); \
             println(1 == 1); println(1 != 1); println(\"a\" == \"a\"); println(nil == nil); \
             println(nil == false); println(0 - 0 == 0); println(1 == \"1\");"
        ),
        "true\ntrue\nfalse\nfalse\ntrue\nfalse\ntrue\ntrue\nfalse\ntrue\nfalse\n"
    );
}

#[test]
fn negative_numbers_compare_in_order() {
    assert_eq!(
        output_of("println(-2 < -1); println(-1 < 1); println(-1 > -2); println(-0 == 0); println(-3 < -3);"),
        "true\ntrue\ntrue\ntrue\nfalse\n"
    );
}

#[test]
fn unary_operators() {
    assert_eq!(
        output_of("println(-3); println(!true); println(!nil); println(!0); println(--2);"),
        "-3\nfalse\ntrue\nfalse\n2\n"
    );
}

#[test]
fn instances_and_functions_compare_by_identity() {
    assert_eq!(
        output_of(
            "class A { m() {} } var a = A(); var b = A(); fn f() {} \
             println(a == a); println(a == b); println(f == f); println(A == A); println(print == print);"
        ),
        "true\nfalse\ntrue\ntrue\ntrue\n"
    );
}

#[test]
fn builtins_mod_show_and_clock() {
    assert_eq!(
        output_of(
            "println(mod(7, 3)); println(show(nil) + show(1.5) + show(true)); \
             var a = clock(); var b = clock(); println(b - a);"
        ),
        "1\nnil1.5true\n1.5\n"
    );
}

#[test]
fn builtins_are_immutable() {
    let error = single_error("print = 1;");
    match error {
        HezenError::Runtime(_, message) => {
            assert_eq!(message, "Cannot assign to immutable variable 'print'")
        }
        other => panic!("expected a runtime error, got {}", other.to_string()),
    }
}

#[test]
fn values_show_their_kind() {
    assert_eq!(
        output_of("class A {} fn f() {} println(A); println(A()); println(f); println(print);"),
        "<class A>\n<instance A>\n<function f>\n<native function print>\n"
    );
}

#[test]
fn blocks_open_scopes() {
    assert_eq!(
        output_of("var x = 1; { var x = 2; println(x); } println(x);"),
        "2\n1\n"
    );
}

#[test]
fn closures_capture_the_binding_they_were_resolved_to() {
    assert_eq!(
        output_of(
            "var a = \"global\"; { fn show_a() { println(a); } show_a(); var a = \"block\"; show_a(); }"
        ),
        "global\nglobal\n"
    );
}

#[test]
fn globals_bind_late() {
    assert_eq!(output_of("fn f() { return y; } var y = 2; println(f());"), "2\n");
}

#[test]
fn return_leaves_loops() {
    assert_eq!(
        output_of("fn f() { var mut i = 0; while (true) { if (i == 3) { return i; } i = i + 1; } } println(f());"),
        "3\n"
    );
}

#[test]
fn continue_restarts_at_the_condition() {
    assert_eq!(
        output_of(
            "var mut i = 0; while (i < 5) { i = i + 1; if (mod(i, 2) == 0) { continue; } print(i); }"
        ),
        "135"
    );
}

#[test]
fn break_outside_a_loop_is_a_runtime_error() {
    let error = single_error("fn f() { break; } f();");
    match error {
        HezenError::Runtime(_, message) => {
            assert_eq!(message, "Cannot use 'break' or 'continue' outside of a loop")
        }
        other => panic!("expected a runtime error, got {}", other.to_string()),
    }
}

#[test]
fn methods_bind_self() {
    assert_eq!(
        output_of(
            "class C { init() { self.n = 0; } inc() { self.n = self.n + 1; return self; } } \
             var c = C(); c.inc().inc(); var m = c.inc; m(); println(c.n);"
        ),
        "3\n"
    );
}

#[test]
fn inherited_methods_are_found() {
    assert_eq!(
        output_of("class A { hi() { return \"hi\"; } } class B < A {} class C < B {} println(C().hi());"),
        "hi\n"
    );
}

#[test]
fn fields_shadow_methods() {
    assert_eq!(
        output_of("class A { m() { return 1; } } var a = A(); a.m = 2; println(a.m);"),
        "2\n"
    );
}

#[test]
fn else_if_chains() {
    assert_eq!(
        output_of(
            "fn f(x) { if (x < 0) { return \"neg\"; } else if (x == 0) { return \"zero\"; } else { return \"pos\"; } } \
             print(f(-1)); print(f(0)); print(f(1));"
        ),
        "negzeropos"
    );
}

#[test]
fn return_at_top_level_is_rejected() {
    let errors = errors_of("return 1;");
    assert_eq!(errors, vec!["Validation error in file test.hz at line 1:1: Cannot return from top-level code."]);
}

#[test]
fn self_and_super_outside_a_class_are_rejected() {
    let errors = errors_of("self; super.x; class A { m() { super.m(); } }");
    assert_eq!(
        errors,
        vec![
            "Validation error in file test.hz at line 1:1: Cannot use 'self' outside of a class.",
            "Validation error in file test.hz at line 1:7: Cannot use 'super' outside of a class.",
            "Validation error in file test.hz at line 1:32: Cannot use 'super' in a class with no superclass.",
        ]
    );
}

#[test]
fn class_cannot_inherit_from_itself() {
    let errors = errors_of("class A < A {}");
    assert_eq!(
        errors,
        vec!["Validation error in file test.hz at line 1:11: A class cannot inherit from itself."]
    );
}

#[test]
fn reading_a_variable_in_its_own_initializer_is_rejected() {
    let errors = errors_of("{ var a = a; }");
    assert_eq!(
        errors,
        vec!["Validation error in file test.hz at line 1:11: Cannot read local variable in its own initializer."]
    );
}

#[test]
fn parser_reports_several_errors() {
    let errors = errors_of("var = 1;\nprint(;\nvar ok = 2;\n1 = 2;");
    assert_eq!(
        errors,
        vec![
            "SyntaxError: Expected variable name. at test.hz:1:5",
            "SyntaxError: Expected expression. at test.hz:2:7",
            "SyntaxError: Invalid assignment target. at test.hz:4:3",
        ]
    );
}

#[test]
fn too_many_arguments_are_a_syntax_error() {
    let mut code = String::from("f(");
    for i in 0..256 {
        if i > 0 {
            code.push_str(", ");
        }
        code.push('1');
    }
    code.push_str(");");
    let errors = errors_of(&code);
    assert_eq!(errors.len(), 1);
    assert!(errors[0].starts_with("SyntaxError: Cannot have more than 255 arguments."));
}

#[test]
fn too_many_parameters_are_a_syntax_error() {
    let mut code = String::from("fn f(");
    for i in 0..256 {
        if i > 0 {
            code.push_str(", ");
        }
        code.push_str(&format!("p{i}"));
    }
    code.push_str(") {}");
    let errors = errors_of(&code);
    assert!(errors[0].starts_with("SyntaxError: Cannot have more than 255 parameters."));
}

#[test]
fn lexer_reports_unexpected_characters_and_unterminated_strings() {
    let errors = errors_of("var a = 1 @ 2;\nvar b = \"open");
    assert_eq!(
        errors,
        vec![
            "SyntaxError: Unexpected character. at test.hz:1:11",
            "SyntaxError: Unterminated string. at test.hz:2:13",
        ]
    );
}

#[test]
fn comments_are_skipped() {
    assert_eq!(output_of("// nothing\nprintln(1); // more\n// end"), "1\n");
}

#[test]
fn string_escapes_are_replaced() {
    assert_eq!(output_of("print(\"a\\nb\\tc\");"), "a\nb\tc");
}

#[test]
fn execution_budget_ends_endless_loops() {
    let mut link = Link::new(Console { output: String::new(), clock: 0.0 });
    let result = run(
        &mut link,
        "test.hz".to_string(),
        "while (true) {}".to_string(),
        get_verbosity(None),
        1000,
    );
    let errors = result.unwrap_err();
    match &errors.iter()[0] {
        HezenError::Runtime(_, message) => assert_eq!(message, "Evaluation budget exhausted"),
        other => panic!("expected a runtime error, got {}", other.to_string()),
    }
}

#[test]
fn functions_without_return_give_their_last_value() {
    assert_eq!(output_of("fn f() { 1 + 2; } println(f()); fn g() {} println(g());"), "3\nnil\n");
}

#[test]
fn equal_calls_give_equal_results() {
    assert_eq!(
        output_of(
            "fn twice(a) { var mut n = a; n = n * 2; return n + 1; } \
             println(twice(4) == twice(4)); println(twice(4)); println(twice(4));"
        ),
        "true\n9\n9\n"
    );
}

#[test]
fn recursion_reaches_its_base() {
    assert_eq!(
        output_of("fn fib(n) { if (n < 2) { return n; } return fib(n - 1) + fib(n - 2); } println(fib(15));"),
        "610\n"
    );
}

#[test]
fn inherited_initializers_are_not_run() {
    assert_eq!(
        output_of(
            "class A { init(x) { self.x = x; } } class B < A { get() { return 1; } } \
             var b = B(); println(b.get());"
        ),
        "1\n"
    );
}

#[test]
fn closures_made_in_a_loop_keep_their_own_frame() {
    assert_eq!(
        output_of(
            "var mut first = nil; var mut second = nil; var mut i = 0; \
             while (i < 2) { var seen = i; fn get() { return seen; } \
             if (i == 0) { first = get; } else { second = get; } i = i + 1; } \
             println(first()); println(second());"
        ),
        "0\n1\n"
    );
}

#[test]
fn super_reaches_over_several_classes() {
    assert_eq!(
        output_of(
            "class A { who() { return \"A\"; } name() { return self.tag; } } \
             class B < A { who() { return \"B\" + super.who(); } } \
             class C < B { init() { self.tag = \"c\"; } who() { return \"C\" + super.who(); } } \
             var c = C(); println(c.who()); println(c.name());"
        ),
        "CBA\nc\n"
    );
}

#[test]
fn methods_call_each_other_through_self() {
    assert_eq!(
        output_of(
            "class Counter { init(start) { self.n = start; self.bump(); } \
             bump() { self.n = self.n + 1; return self; } value() { return self.n; } } \
             println(Counter(5).bump().bump().value());"
        ),
        "8\n"
    );
}

#[test]
fn return_leaves_nested_blocks_and_loops() {
    assert_eq!(
        output_of(
            "fn find(limit) { var mut i = 0; while (true) { { { if (i * i > limit) { return i; } } } i = i + 1; } } \
             println(find(50)); var after = 1; println(after);"
        ),
        "8\n1\n"
    );
}

#[test]
fn globals_can_be_redefined() {
    assert_eq!(
        output_of("var a = 1; var a = 2; println(a); fn f() { return 1; } fn f() { return 2; } println(f());"),
        "2\n2\n"
    );
}

#[test]
fn strings_are_not_ordered() {
    let error = single_error("\"a\" < \"b\";");
    match error {
        HezenError::Runtime(_, message) => assert_eq!(
            message,
            "Operands must be two numbers, not 'string' and 'string'"
        ),
        other => panic!("expected a runtime error, got {}", other.to_string()),
    }
}

#[test]
fn a_global_cannot_be_read_in_its_own_initializer() {
    let errors = errors_of("var a = a;");
    assert_eq!(
        errors,
        vec!["Validation error in file test.hz at line 1:9: Cannot read local variable in its own initializer."]
    );
}

#[test]
fn calls_nest_two_hundred_deep() {
    assert_eq!(
        output_of("fn down(n) { if (n == 0) { return 0; } return 1 + down(n - 1); } println(down(200));"),
        "200\n"
    );
}

#[test]
fn arguments_are_evaluated_from_left_to_right() {
    assert_eq!(
        output_of(
            "fn say(x) { print(x); return x; } fn three(a, b, c) { return a + b + c; } \
             println(three(say(1), say(2), say(3)));"
        ),
        "1236\n"
    );
}

#[test]
fn a_block_restores_the_frame_after_an_error() {
    let (output, result) = execute("var a = 1; { var a = 2; { a.b; } } println(a);");
    assert!(result.is_err());
    assert_eq!(output, "");
}

#[test]
fn verbosity_levels_add_up() {
    let none = get_verbosity(None);
    assert!(!none.lexer && !none.intermediate && !none.resolver);
    let zero = get_verbosity(Some(0));
    assert!(!zero.lexer && !zero.intermediate && !zero.resolver);
    let one = get_verbosity(Some(1));
    assert!(!one.lexer && one.intermediate && !one.resolver);
    let two = get_verbosity(Some(2));
    assert!(!two.lexer && two.intermediate && two.resolver);
    let three = get_verbosity(Some(3));
    assert!(three.lexer && three.intermediate && three.resolver);
}
