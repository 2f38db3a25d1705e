use lox::scanner::{is_alpha, is_alphanumeric, is_digit, Scanner};
use lox::token::{get_keyword, Token, TokenType};

fn number_bits(s: &str) -> u64 {
    s.parse::<f64>().unwrap().to_bits()
}

fn scan(s: &str) -> Vec<Token> {
    let mut scanner = Scanner::new(s.to_string());
    scanner.scan_tokens(&number_bits).unwrap();
    scanner.tokens
}

fn check_token_type(s: &str, tt: TokenType) {
    let tokens = scan(s);
    let t = tokens.iter().nth(0).unwrap();
    assert_eq!(t.token_type, tt);
}

#[test]
fn parses_number() {
    check_token_type("12.5", TokenType::Number)
}

#[test]
fn parses_string() {
    check_token_type("\"cool\"", TokenType::String)
}

#[test]
fn number_literal_carries_its_value() {
    let tokens = scan("12.5");
    match tokens[0].literal {
        lox::lox_value::LoxValue::Number(bits) => assert_eq!(f64::from_bits(bits), 12.5),
        _ => panic!("not a number"),
    }
    assert_eq!(tokens[0].lexeme, "12.5");
}

#[test]
fn string_literal_drops_quotes() {
    let tokens = scan("\"cool\"");
    match &tokens[0].literal {
        lox::lox_value::LoxValue::String(s) => assert_eq!(s, "cool"),
        _ => panic!("not a string"),
    }
    assert_eq!(tokens[0].lexeme, "\"cool\"");
}

#[test]
fn stream_ends_with_eof() {
    let tokens = scan("var x = 1; // comment\nprint x;");
    let kinds: Vec<TokenType> = tokens.iter().map(|t| t.token_type).collect();
    assert_eq!(
        kinds,
        vec![
            TokenType::Var,
            TokenType::Identifier,
            TokenType::Equal,
            TokenType::Number,
            TokenType::Semicolon,
            TokenType::Print,
            TokenType::Identifier,
            TokenType::Semicolon,
            TokenType::Eof,
        ]
    );
    assert_eq!(tokens[6].line, 2);
    assert_eq!(tokens[5].position, 22);
}

#[test]
fn two_character_operators() {
    let tokens = scan("!= == <= >= ! = < >");
    let kinds: Vec<TokenType> = tokens.iter().map(|t| t.token_type).collect();
    assert_eq!(
        kinds,
        vec![
            TokenType::BangEqual,
            TokenType::EqualEqual,
            TokenType::LessEqual,
            TokenType::GreaterEqual,
            TokenType::Bang,
            TokenType::Equal,
            TokenType::Less,
            TokenType::Greater,
            TokenType::Eof,
        ]
    );
}

#[test]
fn unterminated_string_is_an_error() {
    let mut scanner = Scanner::new("\"open".to_string());
    assert!(scanner.scan_tokens(&number_bits).is_err());
}

#[test]
fn unknown_character_is_unexpected() {
    check_token_type("@", TokenType::Unexpected)
}

#[test]
fn keywords_and_identifiers() {
    assert_eq!(get_keyword("while"), TokenType::While);
    assert_eq!(get_keyword("and"), TokenType::And);
    assert_eq!(get_keyword("return"), TokenType::Return);
    assert_eq!(get_keyword("whale"), TokenType::Identifier);
    assert_eq!(get_keyword(""), TokenType::Identifier);
    check_token_type("fun", TokenType::Fun);
    check_token_type("funny", TokenType::Identifier);
}

#[test]
fn character_classes() {
    assert!(is_digit('0') && is_digit('9') && !is_digit('a'));
    assert!(is_alpha('a') && is_alpha('Z') && is_alpha('_') && !is_alpha('1'));
    assert!(is_alphanumeric('7') && is_alphanumeric('q') && !is_alphanumeric('-'));
}
