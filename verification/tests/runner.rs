use hezen::error::HezenErrorList;
use hezen::host::{Arithmetic, Host, Link};
use hezen::interpreter::Interpreter;
use hezen::runner::{entry_line, load, perform, run_in, trim, write_table, write_tree};
use hezen::{get_verbosity, run, shell, ShellStep};
use hezen::error::HezenLineInfo;
use hezen::token::{Token, TokenType};

struct Console {
    output: String,
}

impl Host for Console {
    fn parse_number(&mut self, text: &str) -> u64 {
        text.parse::<f64>().unwrap().to_bits()
    }

    fn arithmetic(&mut self, operation: Arithmetic, left: u64, right: u64) -> u64 {
        let (a, b) = (f64::from_bits(left), f64::from_bits(right));
        let r = match operation {
            Arithmetic::Add => a + b,
            Arithmetic::Subtract => a - b,
            Arithmetic::Multiply => a * b,
            Arithmetic::Divide => a / b,
            Arithmetic::Remainder => a % b,
        };
        r.to_bits()
    }

    fn number_text(&mut self, number: u64) -> String {
        format!("{}", f64::from_bits(number))
    }

    fn clock(&mut self) -> u64 {
        0
    }

    fn write(&mut self, text: &str) {
        self.output.push_str(text);
    }
}

fn console() -> Link<Console> {
    Link::new(Console { output: String::new() })
}

fn verbose(level: u8, code: &str) -> (String, Result<(), HezenErrorList>) {
    let mut link = console();
    let result = run(&mut link, "r.hz".to_string(), code.to_string(), get_verbosity(Some(level)), u64::MAX);
    (link.into_host().output, result)
}

#[test]
fn a_quiet_run_writes_only_the_output() {
    let (output, result) = verbose(0, "println(1);");
    assert!(result.is_ok());
    assert_eq!(output, "1\n");
}

#[test]
fn level_one_writes_the_tree() {
    let (output, result) = verbose(1, "var a = 1; println(a);");
    assert!(result.is_ok());
    assert_eq!(
        output,
        "AST:\n(var a = 1)\n(call callee: (variable println) (arguments (variable a)))\n1\n"
    );
}

#[test]
fn level_two_writes_the_distance_table_too() {
    let (output, result) = verbose(2, "var a = 1; { a; }");
    assert!(result.is_ok());
    assert_eq!(
        output,
        "AST:\n(var a = 1)\n(block (variable a))\na: 1, at 1:14\n"
    );
}

#[test]
fn level_three_writes_the_tokens_too() {
    let (output, result) = verbose(3, "1;");
    assert!(result.is_ok());
    assert_eq!(output, "Tokens: 1: 1\n;: ;\n: eof\n\nAST:\n1\n");
}

#[test]
fn syntax_errors_end_the_run_before_anything_runs() {
    let (output, result) = verbose(3, "println(1); var = 2;");
    let errors = result.unwrap_err();
    assert_eq!(errors.len(), 1);
    assert!(output.starts_with("Tokens: "));
    assert!(!output.contains("AST:"));
    assert!(!output.ends_with("1\n"));
}

#[test]
fn scan_errors_end_the_run_before_the_tokens_are_written() {
    let (output, result) = verbose(3, "println(1); #");
    assert_eq!(result.unwrap_err().len(), 1);
    assert_eq!(output, "");
}

#[test]
fn validation_errors_end_the_run_before_anything_runs() {
    let (output, result) = verbose(0, "println(1); return 2; self;");
    let errors = result.unwrap_err();
    assert_eq!(errors.len(), 2);
    assert_eq!(output, "");
}

#[test]
fn the_first_runtime_error_ends_the_run() {
    let (output, result) = verbose(0, "println(1); println(a); println(2); println(b);");
    let errors = result.unwrap_err();
    assert_eq!(errors.len(), 1);
    assert_eq!(
        errors.iter()[0].to_string(),
        "Runtime error in file r.hz at line 1:21: Undefined variable 'a'"
    );
    assert_eq!(output, "1\n");
}

#[test]
fn the_shell_keeps_its_state_between_lines() {
    let mut interpreter = Interpreter::new();
    let mut link = console();
    assert!(matches!(
        shell(&mut interpreter, &mut link, "var mut n = 1;\n", u64::MAX),
        ShellStep::Ran(Ok(()))
    ));
    assert!(matches!(
        shell(&mut interpreter, &mut link, "  n = n + 1; println(n);  \n", u64::MAX),
        ShellStep::Ran(Ok(()))
    ));
    assert!(matches!(
        shell(&mut interpreter, &mut link, "fn f() { return n * 10; }", u64::MAX),
        ShellStep::Ran(Ok(()))
    ));
    assert!(matches!(
        shell(&mut interpreter, &mut link, "println(f());", u64::MAX),
        ShellStep::Ran(Ok(()))
    ));
    assert_eq!(link.host().output, "2\n20\n");
}

#[test]
fn the_shell_knows_exit_and_help() {
    let mut interpreter = Interpreter::new();
    let mut link = console();
    assert!(matches!(shell(&mut interpreter, &mut link, "exit", u64::MAX), ShellStep::Exit));
    assert!(matches!(shell(&mut interpreter, &mut link, "  exit \r\n", u64::MAX), ShellStep::Exit));
    assert!(matches!(shell(&mut interpreter, &mut link, "help\n", u64::MAX), ShellStep::Help));
    assert!(matches!(
        shell(&mut interpreter, &mut link, "exit;", u64::MAX),
        ShellStep::Ran(Err(_))
    ));
    assert_eq!(link.host().output, "");
}

#[test]
fn the_shell_reports_errors_and_goes_on() {
    let mut interpreter = Interpreter::new();
    let mut link = console();
    match shell(&mut interpreter, &mut link, "println(", u64::MAX) {
        ShellStep::Ran(Err(errors)) => {
            assert_eq!(errors.iter()[0].to_string(), "SyntaxError: Expected expression. at shell:1:9")
        }
        _ => panic!("expected errors"),
    }
    assert!(matches!(
        shell(&mut interpreter, &mut link, "println(3);", u64::MAX),
        ShellStep::Ran(Ok(()))
    ));
    assert_eq!(link.host().output, "3\n");
}

#[test]
fn stages_can_be_run_one_by_one() {
    let mut link = console();
    let statements = load(&mut link, "r.hz".to_string(), "var a = 2; println(a);".to_string(), false).unwrap();
    assert_eq!(statements.len(), 2);
    write_tree(&mut link, &statements);
    let mut interpreter = Interpreter::new();
    assert!(perform(&mut interpreter, &mut link, &statements, u64::MAX, true).is_ok());
    write_table(&interpreter, &mut link);
    assert_eq!(
        link.host().output,
        "(var a = 2)\n(call callee: (variable println) (arguments (variable a)))\na: 0, at 1:20\n2\na: 0, at 1:20\n"
    );
    assert!(load(&mut link, "r.hz".to_string(), "var".to_string(), false).is_err());
    assert!(run_in(&mut interpreter, &mut link, "r.hz".to_string(), "println(a);".to_string(), get_verbosity(None), 100).is_ok());
}

#[test]
fn lines_are_trimmed_as_std_trims_them() {
    let lines = [
        "",
        " ",
        "a",
        "  a b  ",
        "\t\r\n x \n",
        "\u{a0}wide\u{3000}",
        "no-blanks",
        " \n \t ",
        "x ",
        " x",
    ];
    for line in lines {
        assert_eq!(trim(line), line.trim(), "{line:?}");
    }
}

#[test]
fn loops_and_calls_leave_no_frames_behind() {
    let mut interpreter = Interpreter::new();
    let mut link = console();
    let quiet = get_verbosity(None);
    let code = "fn add(a, b) { var c = a + b; { var d = c; } return c; } \
                var mut i = 0; var mut total = 0; \
                while (i < 50) { { total = add(total, i); } i = i + 1; } println(total);";
    assert!(run_in(&mut interpreter, &mut link, "r.hz".to_string(), code.to_string(), quiet, u64::MAX).is_ok());
    assert_eq!(link.host().output, "1225\n");
    assert_eq!(interpreter.heap.frames.len(), 1);
    let keep = "fn make() { var mut n = 0; fn next() { n = n + 1; return n; } return next; } \
                var counter = make(); counter(); println(counter());";
    assert!(run_in(&mut interpreter, &mut link, "r.hz".to_string(), keep.to_string(), quiet, u64::MAX).is_ok());
    assert_eq!(link.host().output, "1225\n2\n");
    assert_eq!(interpreter.heap.frames.len(), 2);
}

#[test]
fn table_entries_have_their_line() {
    let token = Token::new(
        TokenType::Identifier,
        "name".to_string(),
        HezenLineInfo::new("r.hz".to_string(), 12, 34),
    );
    assert_eq!(entry_line(&token, 5), "name: 5, at 12:34\n");
}
