use lox::ast::{Expr, Statement};
use lox::parser::Parser;
use lox::scanner::Scanner;
use lox::token::TokenType;

fn number_bits(s: &str) -> u64 {
    s.parse::<f64>().unwrap().to_bits()
}

fn parser_for(src: &str) -> Parser {
    let mut scanner = Scanner::new(src.to_string());
    scanner.scan_tokens(&number_bits).unwrap();
    Parser::new(scanner.tokens)
}

fn parse_error(src: &str) -> String {
    match parser_for(src).parse() {
        Err(e) => e.message,
        Ok(_) => panic!("expected a syntax error in {}", src),
    }
}

#[test]
fn multiplication_binds_tighter_than_addition() {
    let program = parser_for("1 + 2 * 3;").parse().unwrap();
    match &program.statements[0] {
        Statement::Expression { expression } => match &**expression {
            Expr::Binary { operator, right, .. } => {
                assert_eq!(operator.token_type, TokenType::Plus);
                match &**right {
                    Expr::Binary { operator, .. } => assert_eq!(operator.token_type, TokenType::Star),
                    _ => panic!("right operand is not a product"),
                }
            }
            _ => panic!("not a binary expression"),
        },
        _ => panic!("not an expression statement"),
    }
}

#[test]
fn subtraction_associates_left() {
    let program = parser_for("1 - 2 - 3;").parse().unwrap();
    match &program.statements[0] {
        Statement::Expression { expression } => match &**expression {
            Expr::Binary { left, right, .. } => {
                assert!(matches!(&**left, Expr::Binary { .. }));
                assert!(matches!(&**right, Expr::Literal { .. }));
            }
            _ => panic!("not a binary expression"),
        },
        _ => panic!("not an expression statement"),
    }
}

#[test]
fn for_becomes_block_with_while() {
    let program = parser_for("for (var i = 0; i < 3; i = i + 1) print i;").parse().unwrap();
    match &program.statements[0] {
        Statement::Block { statements } => {
            assert_eq!(statements.len(), 2);
            assert!(matches!(statements[0], Statement::Var { .. }));
            match &statements[1] {
                Statement::While { body, .. } => match &**body {
                    Statement::Block { statements } => {
                        assert_eq!(statements.len(), 2);
                        assert!(matches!(statements[0], Statement::Print { .. }));
                        assert!(matches!(statements[1], Statement::Expression { .. }));
                    }
                    _ => panic!("loop body is not a block"),
                },
                _ => panic!("no while loop"),
            }
        }
        _ => panic!("not a block"),
    }
}

#[test]
fn for_without_condition_loops_on_true() {
    let program = parser_for("for (;;) print 1;").parse().unwrap();
    match &program.statements[0] {
        Statement::While { condition, .. } => match &**condition {
            Expr::Literal { value, .. } => assert!(matches!(value, lox::lox_value::LoxValue::Bool(true))),
            _ => panic!("condition is not a literal"),
        },
        _ => panic!("not a while loop"),
    }
}

#[test]
fn chained_calls() {
    let program = parser_for("f()();").parse().unwrap();
    match &program.statements[0] {
        Statement::Expression { expression } => match &**expression {
            Expr::Call { callee, .. } => assert!(matches!(&**callee, Expr::Call { .. })),
            _ => panic!("not a call"),
        },
        _ => panic!("not an expression statement"),
    }
}

#[test]
fn assignment_needs_a_variable() {
    assert_eq!(parse_error("1 = 2;"), "Invalid assignment target");
    assert!(parser_for("a = b = 2;").parse().is_ok());
}

#[test]
fn at_most_eight_arguments() {
    assert!(parser_for("f(1, 2, 3, 4, 5, 6, 7, 8);").parse().is_ok());
    assert_eq!(parse_error("f(1, 2, 3, 4, 5, 6, 7, 8, 9);"), "Cannot have more than 8 arguments");
}

#[test]
fn at_most_eight_parameters() {
    assert!(parser_for("fun f(a, b, c, d, e, g, h, i) {}").parse().is_ok());
    assert_eq!(parse_error("fun f(a, b, c, d, e, g, h, i, j) {}"), "Cannot have more than 8 parameters.");
}

#[test]
fn missing_delimiters() {
    assert_eq!(parse_error("print 1"), "Expect ';' after statement.");
    assert_eq!(parse_error("print (1;"), "Expect ')' after expression.");
    assert_eq!(parse_error("{ print 1;"), "Expect '}' after block.");
    assert_eq!(parse_error("print ;"), "No matching primary");
}

#[test]
fn unterminated_group_at_end_is_an_error() {
    assert_eq!(parse_error("print ("), "Expect expression.");
    assert_eq!(parse_error("f("), "Expect expression.");
}

#[test]
fn first_error_carries_the_offending_token() {
    let e = parser_for("var 1 = 2;").parse().unwrap_err();
    assert_eq!(e.message, "Expect variable name.");
    assert_eq!(e.token.lexeme, "1");
}

#[test]
fn empty_program() {
    assert_eq!(parser_for("").parse().unwrap().statements.len(), 0);
}

#[test]
fn expression_identity_is_kind_and_position() {
    let program = parser_for("1 + 2;\nx;").parse().unwrap();
    match &program.statements[0] {
        Statement::Expression { expression } => assert_eq!(expression.string_id(), "Plus 2"),
        _ => panic!("not an expression statement"),
    }
    match &program.statements[1] {
        Statement::Expression { expression } => assert_eq!(expression.string_id(), "Identifier 7"),
        _ => panic!("not an expression statement"),
    }
}
