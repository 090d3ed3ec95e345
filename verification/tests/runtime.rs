use hezen::ast::{Expr, Literal, Stmt};
use hezen::callable::HezenCallable;
use hezen::class::{ClassType, HezenClass, HezenClassHandle};
use hezen::environment::{
    immutable_message, undefined_message, HezenEnvironmentHandle, HezenInstanceHandle, HezenValue,
    HezenVariable,
};
use hezen::error::{HezenError, HezenErrorList, HezenLineInfo};
use hezen::function::{Builtin, FunctionType, HezenFunction, HezenNativeFunction};
use hezen::heap::{runtime_at, Heap};
use hezen::host::{Arithmetic, Host, Link};
use hezen::interpreter::{argument_at, bind_parameters, HezenControl, HezenInterruption, Interpreter};
use hezen::resolver::{validation_at, Resolver};
use hezen::table::Table;
use hezen::text::{decimal, join3, join5};
use hezen::token::{Token, TokenType};

struct Console {
    output: String,
    asked: usize,
}

impl Host for Console {
    fn parse_number(&mut self, text: &str) -> u64 {
        self.asked += 1;
        text.parse::<f64>().unwrap().to_bits()
    }

    fn arithmetic(&mut self, operation: Arithmetic, left: u64, right: u64) -> u64 {
        self.asked += 1;
        let (a, b) = (f64::from_bits(left), f64::from_bits(right));
        let r = match operation {
            Arithmetic::Add => a + b,
            Arithmetic::Subtract => a - b,
            Arithmetic::Multiply => a * b,
            Arithmetic::Divide => a / b,
            Arithmetic::Remainder => a % b,
        };
        r.to_bits()
    }

    fn number_text(&mut self, number: u64) -> String {
        self.asked += 1;
        format!("{}", f64::from_bits(number))
    }

    fn clock(&mut self) -> u64 {
        self.asked += 1;
        42f64.to_bits()
    }

    fn write(&mut self, text: &str) {
        self.asked += 1;
        self.output.push_str(text);
    }
}

fn console() -> Link<Console> {
    Link::new(Console { output: String::new(), asked: 0 })
}

fn name(lexeme: &str, column: usize) -> Token {
    Token::new(
        TokenType::Identifier,
        lexeme.to_string(),
        HezenLineInfo::new("rt.hz".to_string(), 1, column),
    )
}

fn op(ty: TokenType, lexeme: &str) -> Token {
    Token::new(ty, lexeme.to_string(), HezenLineInfo::new("rt.hz".to_string(), 1, 1))
}

fn number(value: f64) -> HezenValue {
    HezenValue::Number(value.to_bits())
}

fn text(value: &str) -> HezenValue {
    HezenValue::String(value.to_string())
}

fn message(error: &HezenError) -> String {
    error.message().clone()
}

#[test]
fn truthiness_of_every_kind_of_value() {
    assert!(!HezenValue::Nil.is_truthy());
    assert!(!HezenValue::Bool(false).is_truthy());
    assert!(HezenValue::Bool(true).is_truthy());
    assert!(number(0.0).is_truthy());
    assert!(number(f64::NAN).is_truthy());
    assert!(text("").is_truthy());
    assert!(HezenValue::Function(0).is_truthy());
    assert!(HezenValue::NativeFunction(0).is_truthy());
    assert!(HezenValue::Class(0).is_truthy());
    assert!(HezenValue::Instance(HezenInstanceHandle { index: 0 }).is_truthy());
}

#[test]
fn equality_of_values() {
    assert!(HezenValue::Nil.equals(&HezenValue::Nil));
    assert!(!HezenValue::Nil.equals(&HezenValue::Bool(false)));
    assert!(HezenValue::Bool(true).equals(&HezenValue::Bool(true)));
    assert!(number(1.0).equals(&number(1.0)));
    assert!(number(0.0).equals(&number(-0.0)));
    assert!(!number(f64::NAN).equals(&number(f64::NAN)));
    assert!(text("a").equals(&text("a")));
    assert!(!text("a").equals(&text("b")));
    assert!(!text("1").equals(&number(1.0)));
    assert!(HezenValue::Function(3).equals(&HezenValue::Function(3)));
    assert!(!HezenValue::Function(3).equals(&HezenValue::Function(4)));
    assert!(!HezenValue::Function(3).equals(&HezenValue::Class(3)));
    assert!(!HezenValue::Function(3).equals(&HezenValue::NativeFunction(3)));
    assert!(HezenValue::Class(1).equals(&HezenValue::Class(1)));
    assert!(HezenValue::NativeFunction(1).equals(&HezenValue::NativeFunction(1)));
    let a = HezenValue::Instance(HezenInstanceHandle { index: 2 });
    assert!(a.equals(&a.clone()));
    assert!(!a.equals(&HezenValue::Instance(HezenInstanceHandle { index: 5 })));
}

#[test]
fn literals_compare_by_kind_and_content() {
    assert!(Literal::Nil.same(&Literal::Nil));
    assert!(!Literal::Nil.same(&Literal::Bool(false)));
    assert!(Literal::Bool(true).same(&Literal::Bool(true)));
    assert!(!Literal::Bool(true).same(&Literal::Bool(false)));
    assert!(Literal::Number(1f64.to_bits()).same(&Literal::Number(1f64.to_bits())));
    assert!(!Literal::Number(0f64.to_bits()).same(&Literal::Number((-0f64).to_bits())));
    assert!(Literal::String("a".to_string()).same(&Literal::String("a".to_string())));
    assert!(!Literal::String("a".to_string()).same(&Literal::String("b".to_string())));
    assert!(!Literal::String("1".to_string()).same(&Literal::Number(1f64.to_bits())));
}

#[test]
fn signals_have_their_text() {
    let interpreter = Interpreter::new();
    let mut link = console();
    assert_eq!(interpreter.describe(&mut link, &HezenControl::Break), "break");
    assert_eq!(interpreter.describe(&mut link, &HezenControl::Continue), "continue");
    assert_eq!(
        interpreter.describe(&mut link, &HezenControl::Return(number(2.5))),
        "return 2.5"
    );
    assert_eq!(
        interpreter.describe(&mut link, &HezenControl::Return(HezenValue::Nil)),
        "return nil"
    );
}

#[test]
fn values_of_literals() {
    assert!(HezenValue::from(&Literal::Nil).equals(&HezenValue::Nil));
    assert!(HezenValue::from(&Literal::Bool(true)).equals(&HezenValue::Bool(true)));
    assert!(HezenValue::from(&Literal::Number(2.5f64.to_bits())).equals(&number(2.5)));
    assert!(HezenValue::from(&Literal::String("s".to_string())).equals(&text("s")));
}

#[test]
fn variables_hold_values() {
    let mut variable = HezenVariable::new(name("v", 1), number(1.0), true);
    assert!(variable.get().equals(&number(1.0)));
    assert!(variable.is_mutable);
    assert_eq!(variable.definition_token.lexeme, "v");
    variable.set(text("two"));
    assert!(variable.get().equals(&text("two")));
    assert!(variable.is_mutable);
    let other = HezenVariable::new(name("w", 9), text("two"), false);
    assert!(variable.equals(&other));
    assert!(!variable.equals(&HezenVariable::new(name("v", 1), text("three"), true)));
}

#[test]
fn frames_define_and_find_names() {
    let mut heap = Heap::new();
    let outer = HezenEnvironmentHandle::new(&mut heap, None);
    let inner = HezenEnvironmentHandle::new(&mut heap, Some(outer));
    assert_eq!(outer.index, 0);
    assert_eq!(inner.index, 1);
    assert_eq!(inner.enclosing(&heap), Some(outer));
    assert_eq!(outer.enclosing(&heap), None);
    outer.define(&mut heap, name("a", 1), number(1.0), false);
    outer.define(&mut heap, name("b", 1), number(2.0), true);
    inner.define(&mut heap, name("a", 1), text("inner"), true);

    assert!(inner.defined(&heap, &name("a", 9)));
    assert!(!inner.defined(&heap, &name("b", 9)));
    assert!(inner.defined_at(&heap, 1, &name("b", 9)));
    assert!(!inner.defined_at(&heap, 2, &name("b", 9)));
    assert!(inner.get(&heap, &name("a", 9)).unwrap().equals(&text("inner")));
    assert!(inner.get(&heap, &name("b", 9)).unwrap().equals(&number(2.0)));
    assert!(inner.get_at(&heap, 1, &name("a", 9)).unwrap().equals(&number(1.0)));
    assert!(inner.get_at(&heap, 0, &name("a", 9)).unwrap().equals(&text("inner")));
    assert_eq!(
        message(&inner.get_at(&heap, 0, &name("b", 9)).unwrap_err()),
        "Undefined variable 'b'"
    );
    assert_eq!(
        message(&inner.get_at(&heap, 2, &name("a", 9)).unwrap_err()),
        "Undefined variable 'a'"
    );
    assert_eq!(message(&inner.get(&heap, &name("c", 9)).unwrap_err()), "Undefined variable 'c'");
    assert_eq!(inner.ancestor(&heap, 0), Some(inner));
    assert_eq!(inner.ancestor(&heap, 1), Some(outer));
    assert_eq!(inner.ancestor(&heap, 2), None);
    assert_eq!(inner.holder(&heap, &"b".to_string()), Some(outer));
    assert_eq!(inner.holder(&heap, &"zz".to_string()), None);
}

#[test]
fn redefining_a_name_replaces_its_binding() {
    let mut heap = Heap::new();
    let frame = HezenEnvironmentHandle::new(&mut heap, None);
    frame.define(&mut heap, name("a", 1), number(1.0), false);
    frame.define(&mut heap, name("a", 7), number(2.0), true);
    assert!(frame.get(&heap, &name("a", 9)).unwrap().equals(&number(2.0)));
    assert!(frame.mutable(&heap, &name("a", 9)));
    assert_eq!(heap.frames[0].values.len(), 1);
    assert_eq!(heap.frames[0].values.value_at(0).definition_token.position.column, 7);
}

#[test]
fn assignment_needs_a_mutable_binding() {
    let mut heap = Heap::new();
    let outer = HezenEnvironmentHandle::new(&mut heap, None);
    let inner = HezenEnvironmentHandle::new(&mut heap, Some(outer));
    outer.define(&mut heap, name("fixed", 1), number(1.0), false);
    outer.define(&mut heap, name("free", 1), number(2.0), true);

    assert!(!inner.mutable(&heap, &name("fixed", 9)));
    assert!(inner.mutable(&heap, &name("free", 9)));
    assert!(!inner.mutable(&heap, &name("none", 9)));
    assert!(!inner.mutable_at(&heap, 0, &name("free", 9)));
    assert!(inner.mutable_at(&heap, 1, &name("free", 9)));
    assert!(!inner.mutable_at(&heap, 1, &name("fixed", 9)));
    assert!(!inner.mutable_at(&heap, 5, &name("free", 9)));

    assert!(inner.assign(&mut heap, &name("free", 9), number(3.0)).is_ok());
    assert!(outer.get(&heap, &name("free", 9)).unwrap().equals(&number(3.0)));
    assert!(outer.mutable(&heap, &name("free", 9)));
    assert_eq!(
        message(&inner.assign(&mut heap, &name("fixed", 9), number(3.0)).unwrap_err()),
        "Cannot assign to immutable variable 'fixed'"
    );
    assert_eq!(
        message(&inner.assign(&mut heap, &name("none", 9), number(3.0)).unwrap_err()),
        "Undefined variable 'none'"
    );
    assert!(inner.assign_at(&mut heap, 1, &name("free", 9), number(4.0)).is_ok());
    assert!(outer.get(&heap, &name("free", 9)).unwrap().equals(&number(4.0)));
    assert_eq!(
        message(&inner.assign_at(&mut heap, 0, &name("free", 9), number(5.0)).unwrap_err()),
        "Cannot assign to immutable variable 'free'"
    );
    assert!(outer.get(&heap, &name("free", 9)).unwrap().equals(&number(4.0)));
    assert!(outer.get(&heap, &name("fixed", 9)).unwrap().equals(&number(1.0)));
}

#[test]
fn handles_that_point_nowhere_do_nothing() {
    let mut heap = Heap::new();
    let nowhere = HezenEnvironmentHandle { index: 7 };
    nowhere.define(&mut heap, name("a", 1), number(1.0), true);
    assert!(!nowhere.defined(&heap, &name("a", 1)));
    assert!(nowhere.get(&heap, &name("a", 1)).is_err());
    assert!(nowhere.assign(&mut heap, &name("a", 1), number(1.0)).is_err());
    assert_eq!(nowhere.ancestor(&heap, 0), None);
    assert_eq!(nowhere.enclosing(&heap), None);
    assert!(!nowhere.mutable(&heap, &name("a", 1)));
    let ghost = HezenInstanceHandle { index: 3 };
    assert!(ghost.get(&mut heap, &"x".to_string()).is_none());
    ghost.set(&mut heap, "x".to_string(), number(1.0));
    assert_eq!(ghost.class_name(&heap), "");
    assert_eq!(heap.class_name(9), "");
    assert_eq!(heap.find_method(9, &"m".to_string()), None);
    assert_eq!(heap.instances.len(), 0);
}

#[test]
fn error_messages_of_names() {
    assert_eq!(undefined_message(&"x".to_string()), "Undefined variable 'x'");
    assert_eq!(immutable_message(&"x".to_string()), "Cannot assign to immutable variable 'x'");
    let error = runtime_at(&name("x", 4), "m".to_string());
    assert_eq!(error.to_string(), "Runtime error in file rt.hz at line 1:4: m");
    let error = validation_at(&name("x", 4), "v");
    assert_eq!(error.to_string(), "Validation error in file rt.hz at line 1:4: v");
}

fn method(heap: &mut Heap, lexeme: &str, closure: HezenEnvironmentHandle) -> usize {
    let function = HezenFunction::new(
        name(lexeme, 1),
        vec![name("p", 2)],
        Stmt::Block(Vec::new()),
        closure,
        lexeme == "init",
    );
    heap.add_function(function)
}

#[test]
fn classes_find_their_methods_along_the_chain() {
    let mut heap = Heap::new();
    let globals = HezenEnvironmentHandle::new(&mut heap, None);
    let base_m = method(&mut heap, "m", globals);
    let base_n = method(&mut heap, "n", globals);
    let mut methods = Table::new();
    methods.insert("m".to_string(), base_m);
    methods.insert("n".to_string(), base_n);
    let base = heap.add_class(HezenClass::new("Base".to_string(), None, methods));
    let derived_m = method(&mut heap, "m", globals);
    let mut methods = Table::new();
    methods.insert("m".to_string(), derived_m);
    let derived = heap.add_class(HezenClass::new("Derived".to_string(), Some(base), methods));

    assert_eq!(heap.find_method(derived, &"m".to_string()), Some(derived_m));
    assert_eq!(heap.find_method(derived, &"n".to_string()), Some(base_n));
    assert_eq!(heap.find_method(derived, &"o".to_string()), None);
    assert_eq!(heap.find_method(base, &"m".to_string()), Some(base_m));
    assert_eq!(heap.classes[derived].find_method(&heap, &"n".to_string()), Some(base_n));
    assert_eq!(heap.classes[derived].find_method(&heap, &"m".to_string()), Some(derived_m));
    assert_eq!(heap.classes[base].find_method(&heap, &"zz".to_string()), None);
    assert_eq!(heap.class_name(derived), "Derived");
    assert_eq!(heap.classes[derived].superclass, Some(base));
    assert_eq!(HezenValue::Class(derived).kind_name(&heap), "class Derived");
}

#[test]
fn instances_have_fields_and_bound_methods() {
    let mut heap = Heap::new();
    let globals = HezenEnvironmentHandle::new(&mut heap, None);
    let frames_before = heap.frames.len();
    let m = method(&mut heap, "m", globals);
    let mut methods = Table::new();
    methods.insert("m".to_string(), m);
    let class = heap.add_class(HezenClass::new("Thing".to_string(), None, methods));
    let instance = HezenInstanceHandle::new(&mut heap, class);
    assert_eq!(instance.class_name(&heap), "Thing");
    assert_eq!(HezenValue::Instance(instance).kind_name(&heap), "instance of Thing");
    assert!(instance.get(&mut heap, &"x".to_string()).is_none());
    instance.set(&mut heap, "x".to_string(), number(1.0));
    instance.set(&mut heap, "x".to_string(), number(2.0));
    assert!(instance.get(&mut heap, &"x".to_string()).unwrap().equals(&number(2.0)));
    assert_eq!(heap.frames.len(), frames_before);

    let bound = match instance.get(&mut heap, &"m".to_string()) {
        Some(HezenValue::Function(index)) => index,
        _ => panic!("expected a function"),
    };
    assert!(bound != m);
    assert_eq!(heap.frames.len(), frames_before + 1);
    let closure = heap.functions[bound].closure;
    assert_eq!(closure.enclosing(&heap), Some(globals));
    let own = Token::new(
        TokenType::Self_,
        "self".to_string(),
        HezenLineInfo::new("rt.hz".to_string(), 1, 1),
    );
    assert!(closure.get_at(&heap, 0, &own).unwrap().equals(&HezenValue::Instance(instance)));
    assert!(!closure.mutable(&heap, &own));
    assert_eq!(heap.functions[bound].arity(&heap), 1);
    assert_eq!(heap.functions[bound].name(&heap), "m");

    let again = instance.get(&mut heap, &"m".to_string()).unwrap();
    assert!(!again.equals(&HezenValue::Function(bound)));
}

#[test]
fn functions_know_their_name_and_arity() {
    let mut heap = Heap::new();
    let globals = HezenEnvironmentHandle::new(&mut heap, None);
    let function = HezenFunction::new(
        name("f", 1),
        vec![name("a", 2), name("b", 3)],
        Stmt::Block(Vec::new()),
        globals,
        false,
    );
    assert_eq!(function.arity(&heap), 2);
    assert_eq!(function.name(&heap), "f");
    assert!(!function.initializer);
    let copy = function.clone();
    assert_eq!(copy.arity(&heap), 2);
    let declared = HezenFunction::declared(&function.declaration, globals, true);
    assert!(declared.initializer);
    assert_eq!(declared.name(&heap), "f");
    let instance = HezenInstanceHandle { index: 0 };
    let bound = function.bind(&mut heap, instance);
    assert_eq!(bound.closure.index, 1);
    assert_eq!(bound.name(&heap), "f");
    let native = HezenNativeFunction::new(op(TokenType::Builtin, "clock"), 0, Builtin::Clock);
    assert_eq!(native.arity(&heap), 0);
    assert_eq!(native.name(&heap), "clock");
    assert_eq!(native.function, Builtin::Clock);
    let index = heap.add_native(native);
    assert_eq!(index, 0);
    assert_eq!(HezenValue::NativeFunction(index).kind_name(&heap), "native function");
    assert_eq!(HezenValue::Function(0).kind_name(&heap), "function");
    assert_eq!(HezenValue::Nil.kind_name(&heap), "nil");
    assert_eq!(HezenValue::Bool(true).kind_name(&heap), "bool");
    assert_eq!(number(1.0).kind_name(&heap), "number");
    assert_eq!(text("s").kind_name(&heap), "string");
}

#[test]
fn a_new_interpreter_knows_the_host_functions() {
    let interpreter = Interpreter::new();
    assert_eq!(interpreter.globals.index, 0);
    assert_eq!(interpreter.environment.index, 0);
    assert_eq!(interpreter.locals.len(), 0);
    assert_eq!(interpreter.heap.frames.len(), 1);
    let expected = [("clock", 0), ("print", 1), ("println", 1), ("mod", 2), ("show", 1)];
    for (i, (word, arity)) in expected.iter().enumerate() {
        let value = interpreter.get(&name(word, 1)).unwrap();
        assert!(value.equals(&HezenValue::NativeFunction(i)), "{word}");
        assert_eq!(interpreter.arity(&value), Some(*arity), "{word}");
        assert_eq!(interpreter.heap.natives[i].name(&interpreter.heap), *word);
        assert!(!interpreter.assignable(&name(word, 1)));
    }
    assert_eq!(interpreter.arity(&number(1.0)), None);
    assert_eq!(interpreter.arity(&HezenValue::Function(99)), None);
}

#[test]
fn resolved_names_read_exactly_their_frame() {
    let mut interpreter = Interpreter::new();
    let mut link = console();
    let middle = HezenEnvironmentHandle::new(&mut interpreter.heap, Some(interpreter.globals));
    let inner = HezenEnvironmentHandle::new(&mut interpreter.heap, Some(middle));
    interpreter.globals.define(&mut interpreter.heap, name("x", 1), text("global"), true);
    middle.define(&mut interpreter.heap, name("x", 1), text("middle"), true);
    inner.define(&mut interpreter.heap, name("x", 1), text("inner"), true);
    inner.define(&mut interpreter.heap, name("only_inner", 1), text("here"), true);
    interpreter.environment = inner;

    let unresolved = name("x", 10);
    let at_zero = name("x", 20);
    let at_one = name("x", 30);
    let at_two = name("x", 40);
    let misplaced = name("only_inner", 50);
    interpreter.resolve(&at_zero, 0);
    interpreter.resolve(&at_one, 1);
    interpreter.resolve(&at_two, 2);
    interpreter.resolve(&misplaced, 1);

    let read = |interpreter: &mut Interpreter, link: &mut Link<Console>, token: &Token| {
        interpreter.evaluate(link, &Expr::Variable(token.clone()), 10)
    };
    assert!(read(&mut interpreter, &mut link, &unresolved).unwrap().equals(&text("global")));
    assert!(read(&mut interpreter, &mut link, &at_zero).unwrap().equals(&text("inner")));
    assert!(read(&mut interpreter, &mut link, &at_one).unwrap().equals(&text("middle")));
    assert!(read(&mut interpreter, &mut link, &at_two).unwrap().equals(&text("global")));
    assert_eq!(
        message(&read(&mut interpreter, &mut link, &misplaced).unwrap_err()),
        "Undefined variable 'only_inner'"
    );

    let write = Expr::Assign(at_one.clone(), Box::new(Expr::Literal(Literal::Nil)));
    assert!(interpreter.evaluate(&mut link, &write, 10).unwrap().equals(&HezenValue::Nil));
    assert!(middle.get_at(&interpreter.heap, 0, &at_one).unwrap().equals(&HezenValue::Nil));
    assert!(inner.get_at(&interpreter.heap, 0, &at_one).unwrap().equals(&text("inner")));
    assert!(interpreter
        .globals
        .get_at(&interpreter.heap, 0, &at_one)
        .unwrap()
        .equals(&text("global")));
    assert_eq!(interpreter.environment, inner);
    assert!(interpreter.assign(&at_two, number(9.0)).is_ok());
    assert!(interpreter.globals.get(&interpreter.heap, &at_two).unwrap().equals(&number(9.0)));
}

#[test]
fn operations_on_values() {
    let interpreter = Interpreter::new();
    let mut link = console();
    let plus = op(TokenType::Plus, "+");
    assert!(interpreter
        .binary(&mut link, &plus, &number(1.0), &number(2.0))
        .unwrap()
        .equals(&number(3.0)));
    assert!(interpreter
        .binary(&mut link, &plus, &text("a"), &text("b"))
        .unwrap()
        .equals(&text("ab")));
    assert!(interpreter.binary(&mut link, &plus, &text("a"), &number(1.0)).is_err());
    let cases = [
        (TokenType::Minus, "-", 7.0, 2.0, number(5.0)),
        (TokenType::Star, "*", 7.0, 2.0, number(14.0)),
        (TokenType::Slash, "/", 7.0, 2.0, number(3.5)),
        (TokenType::Greater, ">", 7.0, 2.0, HezenValue::Bool(true)),
        (TokenType::GreaterEqual, ">=", 2.0, 2.0, HezenValue::Bool(true)),
        (TokenType::Less, "<", 7.0, 2.0, HezenValue::Bool(false)),
        (TokenType::LessEqual, "<=", 7.0, 2.0, HezenValue::Bool(false)),
        (TokenType::EqualEqual, "==", 7.0, 7.0, HezenValue::Bool(true)),
        (TokenType::BangEqual, "!=", 7.0, 7.0, HezenValue::Bool(false)),
    ];
    for (ty, lexeme, a, b, expected) in cases {
        let token = op(ty, lexeme);
        assert!(
            interpreter.binary(&mut link, &token, &number(a), &number(b)).unwrap().equals(&expected),
            "{lexeme}"
        );
    }
    for (ty, lexeme) in [(TokenType::Minus, "-"), (TokenType::Less, "<")] {
        let error = interpreter.binary(&mut link, &op(ty, lexeme), &HezenValue::Nil, &number(1.0));
        assert_eq!(
            message(&error.unwrap_err()),
            "Operands must be two numbers, not 'nil' and 'number'"
        );
    }
    assert_eq!(
        message(&interpreter.binary(&mut link, &op(TokenType::Comma, ","), &number(1.0), &number(1.0)).unwrap_err()),
        "Invalid binary operator ','. Don't know how you did it, but that's a parser bug"
    );
    assert!(interpreter.unary(&op(TokenType::Minus, "-"), &number(2.0)).unwrap().equals(&number(-2.0)));
    assert!(interpreter
        .unary(&op(TokenType::Bang, "!"), &HezenValue::Nil)
        .unwrap()
        .equals(&HezenValue::Bool(true)));
    assert_eq!(
        message(&interpreter.unary(&op(TokenType::Plus, "+"), &number(2.0)).unwrap_err()),
        "Invalid unary operator '+'. Don't know how you did it, but that's a parser bug"
    );
    assert_eq!(link.host().asked, 4);
}

#[test]
fn host_functions_do_their_work() {
    let interpreter = Interpreter::new();
    let mut link = console();
    assert!(interpreter.native(&mut link, Builtin::Clock, &vec![]).unwrap().equals(&number(42.0)));
    assert!(interpreter
        .native(&mut link, Builtin::Mod, &vec![number(7.5), number(2.0)])
        .unwrap()
        .equals(&number(1.5)));
    assert_eq!(
        message(&interpreter.native(&mut link, Builtin::Mod, &vec![number(7.5), text("x")]).unwrap_err()),
        "Operands must be two numbers, not 'number' and 'string'"
    );
    assert!(interpreter
        .native(&mut link, Builtin::Show, &vec![number(2.0)])
        .unwrap()
        .equals(&text("2")));
    assert!(interpreter.native(&mut link, Builtin::Show, &vec![]).unwrap().equals(&text("nil")));
    assert!(interpreter
        .native(&mut link, Builtin::Print, &vec![text("a")])
        .unwrap()
        .equals(&HezenValue::Nil));
    assert!(interpreter
        .native(&mut link, Builtin::Println, &vec![HezenValue::Bool(true)])
        .unwrap()
        .equals(&HezenValue::Nil));
    assert_eq!(link.host().output, "atrue\n");
    assert_eq!(interpreter.render(&mut link, &HezenValue::NativeFunction(3)), "<native function mod>");
    assert_eq!(interpreter.render(&mut link, &HezenValue::Function(77)), "<function >");
    assert!(argument_at(&vec![number(1.0)], 0).equals(&number(1.0)));
    assert!(argument_at(&vec![number(1.0)], 1).equals(&HezenValue::Nil));
}

#[test]
fn calls_bind_parameters_in_a_new_frame() {
    let mut interpreter = Interpreter::new();
    let mut link = console();
    let body = Stmt::Block(vec![Stmt::Return(
        op(TokenType::Return, "return"),
        Some(Expr::Variable(name("a", 5))),
    )]);
    let function = HezenFunction::new(name("f", 1), vec![name("a", 2)], body, interpreter.globals, false);
    let index = interpreter.heap.add_function(function);
    interpreter.resolve(&name("a", 5), 0);
    let frames = interpreter.heap.frames.len();
    let result = interpreter.call_function(&mut link, index, &vec![text("given")], 10);
    assert!(result.unwrap().equals(&text("given")));
    assert_eq!(interpreter.heap.frames.len(), frames);
    assert_eq!(interpreter.environment, interpreter.globals);
    assert!(!interpreter.globals.defined(&interpreter.heap, &name("a", 1)));

    let paren = op(TokenType::RightParen, ")");
    let wrong = interpreter.call_value(&mut link, &HezenValue::Function(index), &vec![], &paren, 10);
    assert_eq!(message(&wrong.unwrap_err()), "Expected 1 arguments but got 0");
    assert_eq!(interpreter.heap.frames.len(), frames);
    let missing = interpreter.call_function(&mut link, 99, &vec![], 10);
    assert_eq!(message(&missing.unwrap_err()), "Cannot call a function that does not exist");
    let shallow = interpreter.call_function(&mut link, index, &vec![text("given")], 0);
    assert_eq!(message(&shallow.unwrap_err()), "Evaluation budget exhausted");

    let mut heap = Heap::new();
    let frame = HezenEnvironmentHandle::new(&mut heap, None);
    bind_parameters(&mut heap, frame, &vec![name("a", 1), name("b", 2)], &vec![number(1.0), number(2.0)]);
    assert!(frame.get(&heap, &name("b", 1)).unwrap().equals(&number(2.0)));
    assert!(!frame.mutable(&heap, &name("a", 1)));
}

#[test]
fn callables_are_called_through_one_interface() {
    let mut interpreter = Interpreter::new();
    let mut link = console();
    let body = Stmt::Block(vec![Stmt::Return(
        op(TokenType::Return, "return"),
        Some(Expr::Literal(Literal::Number(7f64.to_bits()))),
    )]);
    let function = HezenFunction::new(name("seven", 1), vec![], body, interpreter.globals, false);
    assert_eq!(function.arity(&interpreter.heap), 0);
    assert_eq!(function.name(&interpreter.heap), "seven");
    assert!(function.call(&mut interpreter, &mut link, &vec![], 10).unwrap().equals(&number(7.0)));

    let show = HezenNativeFunction::new(op(TokenType::Builtin, "show"), 1, Builtin::Show);
    assert_eq!(show.arity(&interpreter.heap), 1);
    assert!(show
        .call(&mut interpreter, &mut link, &vec![number(1.5)], 10)
        .unwrap()
        .equals(&text("1.5")));
    assert_eq!(
        message(&show.call(&mut interpreter, &mut link, &vec![], 10).unwrap_err()),
        "Expected 1 arguments but got 0."
    );

    let init = Stmt::Function(std::rc::Rc::new(hezen::ast::Declaration {
        name: name("init", 2),
        parameters: vec![name("a", 3)],
        body: Stmt::Block(Vec::new()),
    }));
    let class = match interpreter.make_class(&name("K", 1), None, &vec![init]) {
        Ok(HezenValue::Class(class)) => HezenClassHandle { index: class },
        _ => panic!("expected a class"),
    };
    assert_eq!(class.arity(&interpreter.heap), 1);
    assert_eq!(class.name(&interpreter.heap), "K");
    let made = class.call(&mut interpreter, &mut link, &vec![number(1.0)], 10).unwrap();
    assert_eq!(made.kind_name(&interpreter.heap), "instance of K");
    let nowhere = HezenClassHandle { index: 99 };
    assert_eq!(nowhere.arity(&interpreter.heap), 0);
    assert_eq!(nowhere.name(&interpreter.heap), "");
    assert_eq!(
        message(&nowhere.call(&mut interpreter, &mut link, &vec![], 10).unwrap_err()),
        "Cannot call a class that does not exist"
    );
    let built = interpreter.construct(&mut link, class.index, &vec![number(2.0)], 10).unwrap();
    assert!(!built.equals(&made));
}

#[test]
fn frames_are_given_back_unless_a_function_may_hold_them() {
    let mut heap = Heap::new();
    let globals = HezenEnvironmentHandle::new(&mut heap, None);
    let inner = HezenEnvironmentHandle::new(&mut heap, Some(globals));
    HezenEnvironmentHandle::new(&mut heap, Some(inner));
    assert_eq!(heap.frames.len(), 3);
    heap.release(1, 1);
    assert_eq!(heap.frames.len(), 3);
    heap.release(4, 0);
    assert_eq!(heap.frames.len(), 3);
    heap.release(1, 0);
    assert_eq!(heap.frames.len(), 1);
    assert!(globals.enclosing(&heap).is_none());
    let frame = HezenEnvironmentHandle::new(&mut heap, Some(globals));
    method(&mut heap, "m", frame);
    heap.release(1, 0);
    assert_eq!(heap.frames.len(), 2);
}

#[test]
fn statements_signal_how_they_end() {
    let mut interpreter = Interpreter::new();
    let mut link = console();
    assert!(matches!(
        interpreter.execute(&mut link, &Stmt::Break, 5),
        Err(HezenInterruption::Control(HezenControl::Break))
    ));
    assert!(matches!(
        interpreter.execute(&mut link, &Stmt::Continue, 5),
        Err(HezenInterruption::Control(HezenControl::Continue))
    ));
    match interpreter.execute(&mut link, &Stmt::Return(op(TokenType::Return, "return"), None), 5) {
        Err(HezenInterruption::Control(HezenControl::Return(value))) => {
            assert!(value.equals(&HezenValue::Nil))
        }
        _ => panic!("expected a return"),
    }
    assert!(matches!(
        interpreter.execute(&mut link, &Stmt::Break, 0),
        Err(HezenInterruption::Error(_))
    ));
    let block = vec![
        Stmt::Var(name("local", 1), Some(Expr::Literal(Literal::Bool(true)))),
        Stmt::Expression(Expr::Literal(Literal::Number(5f64.to_bits()))),
    ];
    let frame = HezenEnvironmentHandle::new(&mut interpreter.heap, Some(interpreter.globals));
    let value = interpreter.execute_block(&mut link, &block, frame, 5).unwrap();
    assert!(value.equals(&number(5.0)));
    assert_eq!(interpreter.environment, interpreter.globals);
    assert!(frame.defined(&interpreter.heap, &name("local", 1)));
    assert!(!interpreter.globals.defined(&interpreter.heap, &name("local", 1)));
    let failing = vec![Stmt::Break, Stmt::Var(name("never", 1), None)];
    assert!(interpreter.execute_block(&mut link, &failing, frame, 5).is_err());
    assert_eq!(interpreter.environment, interpreter.globals);
    assert!(!frame.defined(&interpreter.heap, &name("never", 1)));
    assert_eq!(
        message(&interpreter.interpret(&mut link, &vec![Stmt::Continue], 5).unwrap_err()),
        "Cannot use 'break' or 'continue' outside of a loop"
    );
}

#[test]
fn classes_are_made_with_their_methods() {
    let mut interpreter = Interpreter::new();
    let class_name = name("K", 1);
    let init = Stmt::Function(std::rc::Rc::new(hezen::ast::Declaration {
        name: name("init", 2),
        parameters: vec![name("a", 3), name("b", 4)],
        body: Stmt::Block(Vec::new()),
    }));
    let made = interpreter.make_class(&class_name, None, &vec![init, Stmt::Break]);
    let class = match made {
        Ok(HezenValue::Class(class)) => class,
        _ => panic!("expected a class"),
    };
    assert!(interpreter.get(&class_name).unwrap().equals(&HezenValue::Class(class)));
    assert!(interpreter.assignable(&class_name));
    assert_eq!(interpreter.arity(&HezenValue::Class(class)), Some(2));
    assert_eq!(interpreter.heap.classes[class].methods.len(), 1);
    let index = interpreter.heap.find_method(class, &"init".to_string()).unwrap();
    assert!(interpreter.heap.functions[index].initializer);
    assert_eq!(interpreter.heap.functions[index].closure, interpreter.globals);

    let sub = interpreter.make_class(&name("L", 1), Some(class), &vec![]);
    let sub = match sub {
        Ok(HezenValue::Class(sub)) => sub,
        _ => panic!("expected a class"),
    };
    assert_eq!(interpreter.arity(&HezenValue::Class(sub)), Some(0));
    assert_eq!(interpreter.heap.find_method(sub, &"init".to_string()), Some(index));
    assert_eq!(interpreter.environment, interpreter.globals);
}

#[test]
fn the_resolver_counts_scopes() {
    let mut interpreter = Interpreter::new();
    let mut errors = HezenErrorList::default();
    let mut resolver = Resolver::new();
    assert_eq!(resolver.current_function, FunctionType::TopLevel);
    assert_eq!(resolver.current_class, ClassType::NoClass);
    let outer_use = name("a", 10);
    let inner_use = name("a", 20);
    let global_use = name("print", 30);
    let shadow_use = name("a", 40);
    let program = vec![
        Stmt::Var(name("a", 1), None),
        Stmt::Expression(Expr::Variable(outer_use.clone())),
        Stmt::Block(vec![
            Stmt::Block(vec![Stmt::Expression(Expr::Variable(inner_use.clone()))]),
            Stmt::Expression(Expr::Variable(global_use.clone())),
            Stmt::VarMut(name("a", 2), None),
            Stmt::Expression(Expr::Assign(
                shadow_use.clone(),
                Box::new(Expr::Literal(Literal::Nil)),
            )),
        ]),
    ];
    resolver.resolve(&mut interpreter, &mut errors, &program);
    assert!(errors.is_empty());
    assert_eq!(interpreter.locals.get(&outer_use), Some(&0));
    assert_eq!(interpreter.locals.get(&inner_use), Some(&2));
    assert_eq!(interpreter.locals.get(&global_use), None);
    assert_eq!(interpreter.locals.get(&shadow_use), Some(&0));
    assert!(interpreter.locals.contains_key(&outer_use));
    assert_eq!(resolver.scopes.len(), 0);
    assert_eq!(resolver.current_function, FunctionType::TopLevel);
    assert_eq!(resolver.current_class, ClassType::NoClass);
    assert_eq!(interpreter.heap.frames.len(), 1);
}

#[test]
fn tables_map_keys_to_their_last_value() {
    let mut table: Table<String, usize> = Table::new();
    assert_eq!(table.len(), 0);
    assert!(!table.contains_key(&"a".to_string()));
    assert_eq!(table.get(&"a".to_string()), None);
    table.insert("a".to_string(), 1);
    table.insert("b".to_string(), 2);
    table.insert("a".to_string(), 3);
    assert_eq!(table.len(), 2);
    assert!(table.contains_key(&"a".to_string()));
    assert_eq!(table.get(&"a".to_string()), Some(&3));
    assert_eq!(table.get(&"b".to_string()), Some(&2));
    assert_eq!(table.key_at(0), "a");
    assert_eq!(table.value_at(0), &3);
    assert_eq!(table.key_at(1), "b");
}

#[test]
fn texts_are_joined_and_numbers_written() {
    assert_eq!(decimal(0), "0");
    assert_eq!(decimal(7), "7");
    assert_eq!(decimal(10), "10");
    assert_eq!(decimal(1234567890), "1234567890");
    assert_eq!(decimal(usize::MAX), usize::MAX.to_string());
    assert_eq!(join3("a", "", "c"), "ac");
    assert_eq!(join5("1", "2", "3", "4", "5"), "12345");
}
