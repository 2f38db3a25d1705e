use vstd::prelude::*;
use crate::host::{NumberOp, Query};
use crate::lox_value::{Callable, LoxValue, Val};
use crate::token::TokenType;

verus! {

/// What an operator does with its operands: a value, a question to the host
/// (whose answer is negated when `negate` holds), or a type error.
#[derive(Debug)]
pub enum Outcome {
    Value(LoxValue),
    Ask { query: Query, negate: bool },
    TypeError(String),
}

/// The model of an `Outcome`.
pub enum OutcomeV {
    Value(Val),
    Ask { query: Query, negate: bool },
    TypeError(Seq<char>),
}

impl View for Outcome {
    type V = OutcomeV;

    open spec fn view(&self) -> OutcomeV {
        match self {
            Outcome::Value(v) => OutcomeV::Value(v@),
            Outcome::Ask { query, negate } => OutcomeV::Ask { query: *query, negate: *negate },
            Outcome::TypeError(m) => OutcomeV::TypeError(m@),
        }
    }
}

/// The operators that take two numbers and nothing else.
pub open spec fn numeric_only(op: TokenType) -> bool {
    op == TokenType::Minus || op == TokenType::Slash || op == TokenType::Star
        || op == TokenType::Greater || op == TokenType::GreaterEqual || op == TokenType::Less
        || op == TokenType::LessEqual
}

/// The host operation behind an arithmetic or comparison operator.
pub open spec fn number_op(op: TokenType) -> NumberOp {
    match op {
        TokenType::Minus => NumberOp::Subtract,
        TokenType::Slash => NumberOp::Divide,
        TokenType::Star => NumberOp::Multiply,
        TokenType::Plus => NumberOp::Add,
        TokenType::Greater => NumberOp::Greater,
        TokenType::GreaterEqual => NumberOp::GreaterEqual,
        TokenType::Less => NumberOp::Less,
        TokenType::LessEqual => NumberOp::LessEqual,
        _ => NumberOp::Equal,
    }
}

/// The name of a value's type, as error messages give it.
pub open spec fn kind_name(v: Val) -> Seq<char> {
    match v {
        Val::Str(_) => "string"@,
        Val::Number(_) => "number"@,
        Val::Bool(_) => "boolean"@,
        Val::Nil => "nil"@,
        Val::Fn(_) => "function"@,
    }
}

/// The message of a type error on two operands, naming both.
pub open spec fn operands_message(expected: Seq<char>, l: Val, r: Val) -> Seq<char> {
    "Operands must be "@ + expected + ", got "@ + kind_name(l) + " and "@ + kind_name(r) + "."@
}

/// Equality of two values that are not both numbers: structural for
/// primitives, identity for callables, false across types.
pub open spec fn plain_equal(a: Val, b: Val) -> bool {
    match (a, b) {
        (Val::Str(x), Val::Str(y)) => x == y,
        (Val::Bool(x), Val::Bool(y)) => x == y,
        (Val::Nil, Val::Nil) => true,
        (Val::Fn(x), Val::Fn(y)) => x == y,
        _ => false,
    }
}

/// What the binary operator `op` does with `l` and `r`.
pub open spec fn binary_spec(op: TokenType, l: Val, r: Val) -> OutcomeV {
    if numeric_only(op) {
        match (l, r) {
            (Val::Number(a), Val::Number(b)) => OutcomeV::Ask {
                query: Query::Binary { op: number_op(op), left: a, right: b },
                negate: false,
            },
            _ => OutcomeV::TypeError(operands_message("numbers"@, l, r)),
        }
    } else if op == TokenType::Plus {
        match (l, r) {
            (Val::Number(a), Val::Number(b)) => OutcomeV::Ask {
                query: Query::Binary { op: NumberOp::Add, left: a, right: b },
                negate: false,
            },
            (Val::Str(a), Val::Str(b)) => OutcomeV::Value(Val::Str(a + b)),
            _ => OutcomeV::TypeError(operands_message("two numbers or two strings"@, l, r)),
        }
    } else if op == TokenType::EqualEqual || op == TokenType::BangEqual {
        let negate = op == TokenType::BangEqual;
        match (l, r) {
            (Val::Number(a), Val::Number(b)) => OutcomeV::Ask {
                query: Query::Binary { op: NumberOp::Equal, left: a, right: b },
                negate,
            },
            _ => OutcomeV::Value(Val::Bool(plain_equal(l, r) != negate)),
        }
    } else {
        OutcomeV::TypeError(operands_message("valid for this operator"@, l, r))
    }
}

fn kind_name_of(v: &LoxValue) -> (r: &'static str)
    ensures
        r@ == kind_name(v@),
{
    proof {
        reveal_strlit("string");
        reveal_strlit("number");
        reveal_strlit("boolean");
        reveal_strlit("nil");
        reveal_strlit("function");
    }
    match v {
        LoxValue::String(_) => "string",
        LoxValue::Number(_) => "number",
        LoxValue::Bool(_) => "boolean",
        LoxValue::Nil => "nil",
        LoxValue::Fn(_) => "function",
    }
}

fn operands_error(expected: &str, l: &LoxValue, r: &LoxValue) -> (m: String)
    ensures
        m@ == operands_message(expected@, l@, r@),
{
    proof {
        reveal_strlit("Operands must be ");
        reveal_strlit(", got ");
        reveal_strlit(" and ");
        reveal_strlit(".");
    }
    let mut m = String::from_str("Operands must be ");
    m.append(expected);
    m.append(", got ");
    m.append(kind_name_of(l));
    m.append(" and ");
    m.append(kind_name_of(r));
    m.append(".");
    m
}

fn number_op_of(op: TokenType) -> (r: NumberOp)
    ensures
        r == number_op(op),
{
    match op {
        TokenType::Minus => NumberOp::Subtract,
        TokenType::Slash => NumberOp::Divide,
        TokenType::Star => NumberOp::Multiply,
        TokenType::Plus => NumberOp::Add,
        TokenType::Greater => NumberOp::Greater,
        TokenType::GreaterEqual => NumberOp::GreaterEqual,
        TokenType::Less => NumberOp::Less,
        TokenType::LessEqual => NumberOp::LessEqual,
        _ => NumberOp::Equal,
    }
}

/// Equality of two values that are not both numbers.
pub fn plain_equals(a: &LoxValue, b: &LoxValue) -> (r: bool)
    ensures
        r == plain_equal(a@, b@),
{
    match (a, b) {
        (LoxValue::String(x), LoxValue::String(y)) => x.eq(y),
        (LoxValue::Bool(x), LoxValue::Bool(y)) => *x == *y,
        (LoxValue::Nil, LoxValue::Nil) => true,
        (LoxValue::Fn(x), LoxValue::Fn(y)) => *x == *y,
        _ => false,
    }
}

/// What the binary operator `op` does with `l` and `r`.
pub fn binary_outcome(op: TokenType, l: &LoxValue, r: &LoxValue) -> (out: Outcome)
    ensures
        out@ == binary_spec(op, l@, r@),
{
    proof {
        reveal_strlit("numbers");
        reveal_strlit("two numbers or two strings");
        reveal_strlit("valid for this operator");
    }
    let numeric = match op {
        TokenType::Minus | TokenType::Slash | TokenType::Star | TokenType::Greater
        | TokenType::GreaterEqual | TokenType::Less | TokenType::LessEqual => true,
        _ => false,
    };
    if numeric {
        match (l, r) {
            (LoxValue::Number(a), LoxValue::Number(b)) => Outcome::Ask {
                query: Query::Binary { op: number_op_of(op), left: *a, right: *b },
                negate: false,
            },
            _ => Outcome::TypeError(operands_error("numbers", l, r)),
        }
    } else if op == TokenType::Plus {
        match (l, r) {
            (LoxValue::Number(a), LoxValue::Number(b)) => Outcome::Ask {
                query: Query::Binary { op: NumberOp::Add, left: *a, right: *b },
                negate: false,
            },
            (LoxValue::String(a), LoxValue::String(b)) => {
                let mut s = a.clone();
                s.append(b.as_str());
                Outcome::Value(LoxValue::String(s))
            },
            _ => Outcome::TypeError(operands_error("two numbers or two strings", l, r)),
        }
    } else if op == TokenType::EqualEqual || op == TokenType::BangEqual {
        let negate = op == TokenType::BangEqual;
        match (l, r) {
            (LoxValue::Number(a), LoxValue::Number(b)) => Outcome::Ask {
                query: Query::Binary { op: NumberOp::Equal, left: *a, right: *b },
                negate,
            },
            _ => Outcome::Value(LoxValue::Bool(plain_equals(l, r) != negate)),
        }
    } else {
        Outcome::TypeError(operands_error("valid for this operator", l, r))
    }
}

} // verus!
