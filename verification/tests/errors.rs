use hezen::error::{HezenError, HezenErrorList, HezenLineInfo};
use hezen::report::{blank, label_of, line_of, lines_in, Painted};

#[test]
fn runtime_error_renders_with_place() {
    let error = HezenError::runtime("main.hz".to_string(), 3, 14, "Undefined variable 'x'".to_string());
    assert_eq!(
        error.to_string(),
        "Runtime error in file main.hz at line 3:14: Undefined variable 'x'"
    );
}

#[test]
fn each_kind_renders_in_its_own_way() {
    let syntax = HezenError::syntax_error("a".to_string(), 1, 2, "oops".to_string());
    let validation = HezenError::validation("b".to_string(), 30, 40, "bad".to_string());
    assert_eq!(syntax.to_string(), "SyntaxError: oops at a:1:2");
    let parsed = HezenError::parser("a".to_string(), 1, 2, "oops".to_string());
    assert_eq!(parsed.to_string(), "SyntaxError: oops at a:1:2");
    assert_eq!(validation.to_string(), "Validation error in file b at line 30:40: bad");
    assert_eq!(syntax.kind(), "syntax error");
    assert_eq!(validation.kind(), "validation error");
    assert_eq!(validation.message(), "bad");
    assert_eq!(validation.place().line, 30);
}

#[test]
fn line_info_keeps_its_parts() {
    let info = HezenLineInfo::new("f.hz".to_string(), 7, 9);
    assert_eq!(info.file, "f.hz");
    assert_eq!(info.line, 7);
    assert_eq!(info.column, 9);
    let copy = info.clone();
    assert_eq!(copy.file, "f.hz");
    assert_eq!(copy.line, 7);
    assert_eq!(copy.column, 9);
}

#[test]
fn error_list_keeps_order() {
    let mut list = HezenErrorList::default();
    assert!(list.is_empty());
    assert_eq!(list.len(), 0);
    list.add(HezenError::syntax_error("a".to_string(), 1, 2, "first".to_string()));
    list.add(HezenError::validation("a".to_string(), 10, 20, "second".to_string()));
    assert!(!list.is_empty());
    assert_eq!(list.len(), 2);
    assert_eq!(list.iter().len(), 2);
    assert_eq!(list.iter()[1].to_string(), "Validation error in file a at line 10:20: second");
    assert_eq!(
        list.to_string(),
        "SyntaxError: first at a:1:2\nValidation error in file a at line 10:20: second\n"
    );
}

#[test]
fn error_list_from_one_error() {
    let list = HezenErrorList::from(HezenError::runtime("a".to_string(), 1, 1, "m".to_string()));
    assert_eq!(list.len(), 1);
}

#[test]
fn lines_are_counted_and_found() {
    let source: Vec<char> = "one\ntwo\r\nthree".chars().collect();
    assert_eq!(lines_in(&source), 3);
    assert_eq!(line_of(&source, 1), "one");
    assert_eq!(line_of(&source, 2), "two");
    assert_eq!(line_of(&source, 3), "three");
    assert_eq!(line_of(&source, 0), "");
    assert_eq!(line_of(&source, 4), "");
    let ended: Vec<char> = "one\ntwo\n".chars().collect();
    assert_eq!(lines_in(&ended), 2);
    let empty: Vec<char> = Vec::new();
    assert_eq!(lines_in(&empty), 0);
    let std_lines: Vec<&str> = "one\ntwo\r\nthree".lines().collect();
    assert_eq!(std_lines, vec!["one", "two", "three"]);
}

#[test]
fn lines_are_those_of_std() {
    let texts = [
        "",
        "one",
        "one\n",
        "\n",
        "\n\n",
        "a\n\nb",
        "foo\r\nbar\n\nbaz\r",
        "\r\n",
        "x\r\n\r\ny",
        "tail\r\r\n",
        "a\rb\nc",
    ];
    for text in texts {
        let expected: Vec<&str> = text.lines().collect();
        let chars: Vec<char> = text.chars().collect();
        assert_eq!(lines_in(&chars), expected.len(), "{text:?}");
        for (i, line) in expected.iter().enumerate() {
            assert_eq!(line_of(&chars, i + 1), *line, "{text:?} line {}", i + 1);
        }
        assert_eq!(line_of(&chars, expected.len() + 1), "", "{text:?}");
    }
}

#[test]
fn labels_are_padded_to_the_widest_line_number() {
    let mut text = String::new();
    for _ in 0..120 {
        text.push_str("x\n");
    }
    let source: Vec<char> = text.chars().collect();
    assert_eq!(label_of(&source, 7), "  7 |");
    assert_eq!(label_of(&source, 42), " 42 |");
    assert_eq!(label_of(&source, 120), "120 |");
    assert_eq!(blank(3), "   ");
    assert_eq!(blank(0), "");
}

#[test]
fn details_lay_out_the_report() {
    let error = HezenError::runtime("main.hz".to_string(), 2, 5, "Undefined variable 'y'".to_string());
    let source: Vec<char> = "var x = 1;\nx = y;\n".chars().collect();
    let painted = Painted {
        kind: "runtime error".to_string(),
        arrow: " -->".to_string(),
        label: "2 |".to_string(),
        bar: "|".to_string(),
        caret: "^".to_string(),
    };
    assert_eq!(
        error.details(&source, &painted),
        "runtime error: Undefined variable 'y'\n --> main.hz:2:5\n  |\n2 | x = y;\n  |     ^\n  |\n"
    );
}

#[test]
fn print_details_names_the_error_and_the_line() {
    let error = HezenError::syntax_error("main.hz".to_string(), 1, 3, "Expected expression.".to_string());
    let report = error.print_details("1 +;");
    assert!(report.contains("syntax error"));
    assert!(report.contains("Expected expression."));
    assert!(report.contains("main.hz:1:3"));
    assert!(report.contains("1 +;"));
    let mut list = HezenErrorList::default();
    list.add(error);
    list.add(HezenError::runtime("main.hz".to_string(), 1, 1, "second".to_string()));
    let all = list.print_details("1 +;");
    assert!(all.contains("Expected expression."));
    assert!(all.contains("second"));
}
