use lox::host::{Answer, NumberOp, Query};
use lox::interpreter::{Error, Interpreter, Printed};
use lox::parser::{ParseError, Parser};
use lox::resolver::{Error as ResolveError, Resolver};
use lox::scanner::Scanner;
use lox::std_fns::Clock;
use lox::ast::Program;

fn number_bits(s: &str) -> u64 {
    s.parse::<f64>().unwrap().to_bits()
}

fn host(q: Query) -> Answer {
    match q {
        Query::Binary { op, left, right } => {
            let a = f64::from_bits(left);
            let b = f64::from_bits(right);
            match op {
                NumberOp::Add => Answer::Number((a + b).to_bits()),
                NumberOp::Subtract => Answer::Number((a - b).to_bits()),
                NumberOp::Multiply => Answer::Number((a * b).to_bits()),
                NumberOp::Divide => Answer::Number((a / b).to_bits()),
                NumberOp::Less => Answer::Bool(a < b),
                NumberOp::LessEqual => Answer::Bool(a <= b),
                NumberOp::Greater => Answer::Bool(a > b),
                NumberOp::GreaterEqual => Answer::Bool(a >= b),
                NumberOp::Equal => Answer::Bool(a == b),
            }
        }
        Query::Negate(n) => Answer::Number((-f64::from_bits(n)).to_bits()),
        Query::Clock(i) => Answer::Number((1000.0 + i as f64).to_bits()),
    }
}

fn parse(src: &str) -> Result<Program, ParseError> {
    let mut scanner = Scanner::new(src.to_string());
    scanner.scan_tokens(&number_bits).unwrap();
    let mut parser = Parser::new(scanner.tokens);
    parser.parse()
}

fn resolve(src: &str) -> Result<(), ResolveError> {
    let program = parse(src).unwrap();
    let mut resolver = Resolver::new();
    resolver.resolve(&program)
}

fn render(p: &Printed) -> String {
    match p {
        Printed::Text(s) => s.clone(),
        Printed::Number(n) => format!("{}", f64::from_bits(*n)),
    }
}

fn run_with_fuel(src: &str, fuel: usize) -> (Vec<String>, Result<(), Error>) {
    let program = parse(src).unwrap();
    let mut interpreter = Interpreter::new();
    let r = interpreter.interpret(&program, &host, fuel);
    let lines = interpreter.output().iter().map(render).collect();
    (lines, r)
}

fn run(src: &str) -> (Vec<String>, Result<(), Error>) {
    run_with_fuel(src, 1_000_000)
}

fn printed(src: &str) -> Vec<String> {
    let (lines, r) = run(src);
    assert!(r.is_ok(), "unexpected error: {:?}", r);
    lines
}

fn runtime_message(src: &str) -> String {
    match run(src).1 {
        Err(Error::RuntimeError { message, .. }) => message,
        other => panic!("expected a runtime error, got {:?}", other),
    }
}

#[test]
fn numeric_operators_reject_other_operands() {
    for op in ["-", "/", "*", ">", ">=", "<", "<="] {
        for (l, r) in [("\"a\"", "1"), ("1", "\"a\""), ("nil", "1"), ("true", "2"), ("\"a\"", "\"b\"")] {
            let src = format!("print {} {} {};", l, op, r);
            let msg = runtime_message(&src);
            assert!(msg.starts_with("Operands must be numbers"), "{}: {}", src, msg);
        }
    }
}

#[test]
fn type_error_names_both_operands() {
    assert_eq!(runtime_message("print \"a\" - nil;"), "Operands must be numbers, got string and nil.");
}

#[test]
fn only_nil_and_false_are_falsy() {
    assert_eq!(printed("if (0) print \"t\"; else print \"f\";"), vec!["t"]);
    assert_eq!(printed("if (\"\") print \"t\"; else print \"f\";"), vec!["t"]);
    assert_eq!(printed("if (nil) print \"t\"; else print \"f\";"), vec!["f"]);
    assert_eq!(printed("if (false) print \"t\"; else print \"f\";"), vec!["f"]);
    assert_eq!(printed("print !0; print !nil; print !\"\";"), vec!["false", "true", "false"]);
}

#[test]
fn logical_operators_return_deciding_operand() {
    assert_eq!(printed("print 0 or \"x\";"), vec!["0"]);
    assert_eq!(printed("print nil and 1;"), vec!["nil"]);
    assert_eq!(printed("print nil or \"x\";"), vec!["x"]);
    assert_eq!(printed("print 1 and \"y\";"), vec!["y"]);
}

#[test]
fn logical_operators_short_circuit() {
    assert_eq!(printed("print 1 or undefined_name;"), vec!["1"]);
    assert_eq!(printed("var a = 0; false and (a = 1); print a;"), vec!["0"]);
    assert_eq!(printed("var a = 0; true or (a = 1); print a;"), vec!["0"]);
}

#[test]
fn redeclaration_in_one_scope_is_rejected() {
    let e = resolve("{ var a = 1; var a = 2; }").unwrap_err();
    assert_eq!(e.message, "Variable with this name already defined in scope.");
    assert_eq!(e.token.lexeme, "a");
}

#[test]
fn shadowing_in_nested_scope_is_allowed() {
    assert!(resolve("{ var a = 1; { var a = 2; } }").is_ok());
    assert!(resolve("fun f(a) { { var a = 2; } }").is_ok());
}

#[test]
fn self_initializer_is_rejected() {
    let e = resolve("{ var a = a; }").unwrap_err();
    assert_eq!(e.message, "Cannot read local variable in its own initializer.");
}

#[test]
fn top_level_return_is_rejected() {
    let e = resolve("return 1;").unwrap_err();
    assert_eq!(e.message, "Cannot return from top-level code.");
    assert!(resolve("fun f() { return 1; }").is_ok());
    assert_eq!(runtime_message("return 1;"), "Cannot return from top-level code.");
}

#[test]
fn duplicate_parameters_are_rejected() {
    assert!(resolve("fun f(a, a) {}").is_err());
}

#[test]
fn closures_share_state_with_their_scope() {
    let src = "fun makeCounter() { var i = 0; fun inc() { i = i + 1; return i; } return inc; }
               var c = makeCounter();
               print c();
               print c();";
    assert_eq!(printed(src), vec!["1", "2"]);
}

#[test]
fn closures_see_later_assignments() {
    let src = "var x = 1; fun get() { return x; } x = 2; print get();";
    assert_eq!(printed(src), vec!["2"]);
}

#[test]
fn plus_on_strings_and_numbers() {
    assert_eq!(printed("print \"a\" + \"b\";"), vec!["ab"]);
    assert_eq!(printed("print 1 + 2;"), vec!["3"]);
    assert_eq!(
        runtime_message("print \"a\" + 1;"),
        "Operands must be two numbers or two strings, got string and number."
    );
}

#[test]
fn for_loop_desugars_to_while() {
    assert_eq!(printed("for (var i = 0; i < 3; i = i + 1) print i;"), vec!["0", "1", "2"]);
    assert_eq!(printed("var i = 5; for (; i < 7;) { print i; i = i + 1; }"), vec!["5", "6"]);
}

#[test]
fn precedence_chain() {
    assert_eq!(printed("print 1 + 2 * 3;"), vec!["7"]);
    assert_eq!(printed("print (1 + 2) * 3;"), vec!["9"]);
    assert_eq!(printed("print 10 - 4 - 3;"), vec!["3"]);
    assert_eq!(printed("print 8 / 4 / 2;"), vec!["1"]);
    assert_eq!(printed("print -2 * 3;"), vec!["-6"]);
    assert_eq!(printed("print 1 < 2 == true;"), vec!["true"]);
}

#[test]
fn block_scoping() {
    assert_eq!(printed("var a = 1; { var a = 2; print a; } print a;"), vec!["2", "1"]);
}

#[test]
fn equality_of_values() {
    assert_eq!(
        printed("print 1 == 1; print \"a\" != \"a\"; print nil == false; print nil == nil; print 1 == \"1\";"),
        vec!["true", "false", "false", "true", "false"]
    );
    assert_eq!(printed("fun f() {} fun g() {} print f == f; print f == g;"), vec!["true", "false"]);
}

#[test]
fn arithmetic_exact_values() {
    assert_eq!(printed("print 7 / 2; print 2.5 * 4; print 0.5 - 1;"), vec!["3.5", "10", "-0.5"]);
}

#[test]
fn printing_values() {
    assert_eq!(printed("print nil; print true; print \"s\"; print clock;"), vec!["nil", "true", "s", "<fn clock>"]);
    assert_eq!(printed("fun hello() {} print hello;"), vec!["<fn hello>"]);
}

#[test]
fn functions_and_recursion() {
    let src = "fun fib(n) { if (n < 2) return n; return fib(n - 1) + fib(n - 2); } print fib(10);";
    assert_eq!(printed(src), vec!["55"]);
    assert_eq!(printed("fun f() {} print f();"), vec!["nil"]);
    assert_eq!(printed("fun add(a, b) { return a + b; } print add(2, 3);"), vec!["5"]);
}

#[test]
fn while_loop_runs_until_falsy() {
    assert_eq!(printed("var n = 3; while (n > 0) { print n; n = n - 1; }"), vec!["3", "2", "1"]);
}

#[test]
fn undefined_variable_is_an_error() {
    assert_eq!(runtime_message("print x;"), "Undefined variable x.");
    assert_eq!(runtime_message("x = 1;"), "Undefined variable x.");
}

#[test]
fn calling_a_non_function_is_an_error() {
    assert_eq!(runtime_message("var a = 1; a();"), "Expression is not callable");
    assert_eq!(runtime_message("\"s\"();"), "Expression is not callable");
}

#[test]
fn wrong_argument_count_is_an_error() {
    assert_eq!(runtime_message("fun f(a) {} f();"), "Wrong number of arguments.");
    assert_eq!(runtime_message("fun f() {} f(1);"), "Wrong number of arguments.");
    assert_eq!(runtime_message("clock(1);"), "Wrong number of arguments.");
}

#[test]
fn negating_a_non_number_is_an_error() {
    assert_eq!(runtime_message("print -\"a\";"), "Operand must be a number.");
}

#[test]
fn error_stops_the_program() {
    let (lines, r) = run("print 1; print x; print 2;");
    assert_eq!(lines, vec!["1"]);
    assert!(r.is_err());
}

#[test]
fn clock_asks_the_host() {
    assert_eq!(printed("print clock(); print clock();"), vec!["1000", "1001"]);
    assert_eq!(Clock.arity(), 0);
    assert_eq!(Clock.name(), "clock");
}

#[test]
fn fuel_bounds_loops() {
    let (_, r) = run_with_fuel("while (true) {}", 100);
    assert!(matches!(r, Err(Error::LimitReached)));
}

#[test]
fn output_can_be_taken() {
    let program = parse("print 1; print \"two\";").unwrap();
    let mut interpreter = Interpreter::new();
    assert!(interpreter.interpret(&program, &host, 1000).is_ok());
    let taken: Vec<String> = interpreter.take_output().iter().map(render).collect();
    assert_eq!(taken, vec!["1", "two"]);
    assert!(interpreter.output().is_empty());
}

#[test]
fn interpreter_state_persists_between_programs() {
    let first = parse("var a = 40;").unwrap();
    let second = parse("print a + 2;").unwrap();
    let mut interpreter = Interpreter::new();
    assert!(interpreter.interpret(&first, &host, 1000).is_ok());
    assert!(interpreter.interpret(&second, &host, 1000).is_ok());
    let lines: Vec<String> = interpreter.output().iter().map(render).collect();
    assert_eq!(lines, vec!["42"]);
}

#[test]
fn evaluate_expression_gives_deciding_operand_and_type_errors() {
    let program = parse("1 or x; nil < 1;").unwrap();
    let mut interpreter = Interpreter::new();
    match &program.statements[0] {
        lox::ast::Statement::Expression { expression } => {
            match interpreter.evaluate_expression(expression, &host, 1000) {
                Ok(lox::lox_value::LoxValue::Number(b)) => assert_eq!(f64::from_bits(b), 1.0),
                other => panic!("unexpected {:?}", other),
            }
        }
        _ => panic!("not an expression statement"),
    }
    match &program.statements[1] {
        lox::ast::Statement::Expression { expression } => {
            match interpreter.evaluate_expression(expression, &host, 1000) {
                Err(Error::RuntimeError { token, message }) => {
                    assert_eq!(token.lexeme, "<");
                    assert_eq!(message, "Operands must be numbers, got nil and number.");
                }
                other => panic!("unexpected {:?}", other),
            }
        }
        _ => panic!("not an expression statement"),
    }
    assert!(interpreter.output().is_empty());
}
