use vstd::prelude::*;
use crate::lox_value::LoxValue;
use crate::token::{Token, TokenType};

verus! {

/// An expression.  Each node carries the token that identifies it.
#[derive(Debug)]
pub enum Expr {
    Assign { name: Token, value: Box<Expr> },
    Binary { left: Box<Expr>, right: Box<Expr>, operator: Token },
    Call { callee: Box<Expr>, paren: Token, arguments: Vec<Expr> },
    Grouping { expression: Box<Expr>, token: Token },
    Literal { value: LoxValue, token: Token },
    Logical { left: Box<Expr>, right: Box<Expr>, operator: Token },
    Unary { right: Box<Expr>, operator: Token },
    Variable { name: Token },
}

/// The token that identifies an expression.
pub open spec fn token_of(e: Expr) -> Token {
    match e {
        Expr::Assign { name, .. } => name,
        Expr::Variable { name } => name,
        Expr::Call { paren, .. } => paren,
        Expr::Grouping { token, .. } => token,
        Expr::Literal { token, .. } => token,
        Expr::Binary { operator, .. } => operator,
        Expr::Logical { operator, .. } => operator,
        Expr::Unary { operator, .. } => operator,
    }
}

/// The name of a token kind.
pub open spec fn kind_text(t: TokenType) -> Seq<char> {
    match t {
        TokenType::Eof => "Eof"@,
        TokenType::LeftParen => "LeftParen"@,
        TokenType::RightParen => "RightParen"@,
        TokenType::LeftBrace => "LeftBrace"@,
        TokenType::RightBrace => "RightBrace"@,
        TokenType::Comma => "Comma"@,
        TokenType::Dot => "Dot"@,
        TokenType::Minus => "Minus"@,
        TokenType::Plus => "Plus"@,
        TokenType::Semicolon => "Semicolon"@,
        TokenType::Star => "Star"@,
        TokenType::Bang => "Bang"@,
        TokenType::BangEqual => "BangEqual"@,
        TokenType::Equal => "Equal"@,
        TokenType::EqualEqual => "EqualEqual"@,
        TokenType::Less => "Less"@,
        TokenType::LessEqual => "LessEqual"@,
        TokenType::Greater => "Greater"@,
        TokenType::GreaterEqual => "GreaterEqual"@,
        TokenType::Slash => "Slash"@,
        TokenType::String => "String"@,
        TokenType::Number => "Number"@,
        TokenType::Identifier => "Identifier"@,
        TokenType::Unexpected => "Unexpected"@,
        TokenType::And => "And"@,
        TokenType::Class => "Class"@,
        TokenType::Else => "Else"@,
        TokenType::False => "False"@,
        TokenType::For => "For"@,
        TokenType::Fun => "Fun"@,
        TokenType::If => "If"@,
        TokenType::Nil => "Nil"@,
        TokenType::Or => "Or"@,
        TokenType::Print => "Print"@,
        TokenType::Return => "Return"@,
        TokenType::Super => "Super"@,
        TokenType::This => "This"@,
        TokenType::True => "True"@,
        TokenType::Var => "Var"@,
        TokenType::While => "While"@,
    }
}

/// The decimal digits of `n`.
pub open spec fn decimal(n: nat) -> Seq<char>
    decreases n,
{
    if n < 10 {
        seq![digit_char(n)]
    } else {
        decimal(n / 10) + seq![digit_char(n % 10)]
    }
}

/// The digit character for `d` below ten.
pub open spec fn digit_char(d: nat) -> char {
    if d < 10 { ((48 + d) as u8) as char } else { '?' }
}

fn kind_name(t: TokenType) -> (r: &'static str)
    ensures
        r@ == kind_text(t),
{
    proof {
        reveal_strlit("Eof");
        reveal_strlit("LeftParen");
        reveal_strlit("RightParen");
        reveal_strlit("LeftBrace");
        reveal_strlit("RightBrace");
        reveal_strlit("Comma");
        reveal_strlit("Dot");
        reveal_strlit("Minus");
        reveal_strlit("Plus");
        reveal_strlit("Semicolon");
        reveal_strlit("Star");
        reveal_strlit("Bang");
        reveal_strlit("BangEqual");
        reveal_strlit("Equal");
        reveal_strlit("EqualEqual");
        reveal_strlit("Less");
        reveal_strlit("LessEqual");
        reveal_strlit("Greater");
        reveal_strlit("GreaterEqual");
        reveal_strlit("Slash");
        reveal_strlit("String");
        reveal_strlit("Number");
        reveal_strlit("Identifier");
        reveal_strlit("Unexpected");
        reveal_strlit("And");
        reveal_strlit("Class");
        reveal_strlit("Else");
        reveal_strlit("False");
        reveal_strlit("For");
        reveal_strlit("Fun");
        reveal_strlit("If");
        reveal_strlit("Nil");
        reveal_strlit("Or");
        reveal_strlit("Print");
        reveal_strlit("Return");
        reveal_strlit("Super");
        reveal_strlit("This");
        reveal_strlit("True");
        reveal_strlit("Var");
        reveal_strlit("While");
    }
    match t {
        TokenType::Eof => "Eof",
        TokenType::LeftParen => "LeftParen",
        TokenType::RightParen => "RightParen",
        TokenType::LeftBrace => "LeftBrace",
        TokenType::RightBrace => "RightBrace",
        TokenType::Comma => "Comma",
        TokenType::Dot => "Dot",
        TokenType::Minus => "Minus",
        TokenType::Plus => "Plus",
        TokenType::Semicolon => "Semicolon",
        TokenType::Star => "Star",
        TokenType::Bang => "Bang",
        TokenType::BangEqual => "BangEqual",
        TokenType::Equal => "Equal",
        TokenType::EqualEqual => "EqualEqual",
        TokenType::Less => "Less",
        TokenType::LessEqual => "LessEqual",
        TokenType::Greater => "Greater",
        TokenType::GreaterEqual => "GreaterEqual",
        TokenType::Slash => "Slash",
        TokenType::String => "String",
        TokenType::Number => "Number",
        TokenType::Identifier => "Identifier",
        TokenType::Unexpected => "Unexpected",
        TokenType::And => "And",
        TokenType::Class => "Class",
        TokenType::Else => "Else",
        TokenType::False => "False",
        TokenType::For => "For",
        TokenType::Fun => "Fun",
        TokenType::If => "If",
        TokenType::Nil => "Nil",
        TokenType::Or => "Or",
        TokenType::Print => "Print",
        TokenType::Return => "Return",
        TokenType::Super => "Super",
        TokenType::This => "This",
        TokenType::True => "True",
        TokenType::Var => "Var",
        TokenType::While => "While",
    }
}

fn digit_text(d: usize) -> (r: &'static str)
    requires
        d < 10,
    ensures
        r@ == seq![digit_char(d as nat)],
{
    proof {
        reveal_strlit("0");
        reveal_strlit("1");
        reveal_strlit("2");
        reveal_strlit("3");
        reveal_strlit("4");
        reveal_strlit("5");
        reveal_strlit("6");
        reveal_strlit("7");
        reveal_strlit("8");
        reveal_strlit("9");
    }
    match d {
        0 => "0",
        1 => "1",
        2 => "2",
        3 => "3",
        4 => "4",
        5 => "5",
        6 => "6",
        7 => "7",
        8 => "8",
        _ => "9",
    }
}

fn decimal_text(n: usize) -> (r: String)
    ensures
        r@ == decimal(n as nat),
    decreases n,
{
    if n < 10 {
        String::from_str(digit_text(n))
    } else {
        let mut r = decimal_text(n / 10);
        r.append(digit_text(n % 10));
        r
    }
}

impl Expr {
    /// The token that identifies this expression.
    pub fn token(&self) -> (r: &Token)
        ensures
            *r == token_of(*self),
    {
        match self {
            Expr::Assign { name, .. } => name,
            Expr::Variable { name } => name,
            Expr::Call { paren, .. } => paren,
            Expr::Grouping { token, .. } => token,
            Expr::Literal { token, .. } => token,
            Expr::Binary { operator, .. } => operator,
            Expr::Logical { operator, .. } => operator,
            Expr::Unary { operator, .. } => operator,
        }
    }

    /// The identity of this expression: the kind and source position of
    /// its token.  Two expressions at different places differ even when
    /// they are written alike.
    pub fn string_id(&self) -> (r: String)
        ensures
            r@ == kind_text(token_of(*self).token_type) + " "@ + decimal(token_of(*self).position as nat),
    {
        proof { reveal_strlit(" "); }
        let t = self.token();
        let mut r = String::from_str(kind_name(t.token_type));
        r.append(" ");
        r.append(decimal_text(t.position).as_str());
        r
    }
}

/// A function declaration: its name, its parameters in order, its body.
#[derive(Debug)]
pub struct FunctionDeclaration {
    pub name: Token,
    pub parameters: Vec<Token>,
    pub body: Vec<Statement>,
}

/// A statement.
#[derive(Debug)]
pub enum Statement {
    Block { statements: Vec<Statement> },
    Expression { expression: Box<Expr> },
    Function(FunctionDeclaration),
    If { condition: Box<Expr>, then_branch: Box<Statement>, else_branch: Option<Box<Statement>> },
    Print { expression: Box<Expr> },
    Return { keyword: Token, value: Option<Box<Expr>> },
    While { condition: Box<Expr>, body: Box<Statement> },
    Var { name: Token, initializer: Option<Box<Expr>> },
}

/// A whole program: its top-level statements in order.
#[derive(Debug)]
pub struct Program {
    pub statements: Vec<Statement>,
}

} // verus!
