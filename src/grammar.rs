use vstd::prelude::*;
use crate::ast::{Expr, Statement};
use crate::lox_value::LoxValue;
use crate::token::{Token, TokenType};

verus! {

/// The model of an expression tree.
pub enum ExprV {
    Assign { name: Token, value: Box<ExprV> },
    Binary { left: Box<ExprV>, right: Box<ExprV>, operator: Token },
    Call { callee: Box<ExprV>, paren: Token, arguments: Seq<ExprV> },
    Grouping { expression: Box<ExprV>, token: Token },
    Literal { value: LoxValue, token: Token },
    Logical { left: Box<ExprV>, right: Box<ExprV>, operator: Token },
    Unary { right: Box<ExprV>, operator: Token },
    Variable { name: Token },
}

/// The model of a statement tree.
pub enum StmtV {
    Block { statements: Seq<StmtV> },
    Expression { expression: ExprV },
    Function { name: Token, parameters: Seq<Token>, body: Seq<StmtV> },
    If { condition: ExprV, then_branch: Box<StmtV>, else_branch: Option<Box<StmtV>> },
    Print { expression: ExprV },
    Return { keyword: Token, value: Option<ExprV> },
    While { condition: ExprV, body: Box<StmtV> },
    Var { name: Token, initializer: Option<ExprV> },
}

/// The model of an expression.
pub open spec fn ev(e: Expr) -> ExprV
    decreases e, 0nat,
{
    match e {
        Expr::Assign { name, value } => ExprV::Assign { name, value: Box::new(ev(*value)) },
        Expr::Binary { left, right, operator } => ExprV::Binary {
            left: Box::new(ev(*left)),
            right: Box::new(ev(*right)),
            operator,
        },
        Expr::Call { callee, paren, arguments } => ExprV::Call {
            callee: Box::new(ev(*callee)),
            paren,
            arguments: evs(arguments@),
        },
        Expr::Grouping { expression, token } => ExprV::Grouping { expression: Box::new(ev(*expression)), token },
        Expr::Literal { value, token } => ExprV::Literal { value, token },
        Expr::Logical { left, right, operator } => ExprV::Logical {
            left: Box::new(ev(*left)),
            right: Box::new(ev(*right)),
            operator,
        },
        Expr::Unary { right, operator } => ExprV::Unary { right: Box::new(ev(*right)), operator },
        Expr::Variable { name } => ExprV::Variable { name },
    }
}

/// The models of a list of expressions.
pub open spec fn evs(s: Seq<Expr>) -> Seq<ExprV>
    decreases s, s.len(),
{
    if s.len() == 0 {
        Seq::empty()
    } else {
        evs(s.drop_last()).push(ev(s.last()))
    }
}

/// The model of a statement.
pub open spec fn sv(s: Statement) -> StmtV
    decreases s, 0nat,
{
    match s {
        Statement::Block { statements } => StmtV::Block { statements: svs(statements@) },
        Statement::Expression { expression } => StmtV::Expression { expression: ev(*expression) },
        Statement::Function(decl) => StmtV::Function {
            name: decl.name,
            parameters: decl.parameters@,
            body: svs(decl.body@),
        },
        Statement::If { condition, then_branch, else_branch } => StmtV::If {
            condition: ev(*condition),
            then_branch: Box::new(sv(*then_branch)),
            else_branch: match else_branch {
                Some(b) => Some(Box::new(sv(*b))),
                None => None,
            },
        },
        Statement::Print { expression } => StmtV::Print { expression: ev(*expression) },
        Statement::Return { keyword, value } => StmtV::Return {
            keyword,
            value: match value {
                Some(e) => Some(ev(*e)),
                None => None,
            },
        },
        Statement::While { condition, body } => StmtV::While { condition: ev(*condition), body: Box::new(sv(*body)) },
        Statement::Var { name, initializer } => StmtV::Var {
            name,
            initializer: match initializer {
                Some(e) => Some(ev(*e)),
                None => None,
            },
        },
    }
}

/// The models of a list of statements.
pub open spec fn svs(s: Seq<Statement>) -> Seq<StmtV>
    decreases s, s.len(),
{
    if s.len() == 0 {
        Seq::empty()
    } else {
        svs(s.drop_last()).push(sv(s.last()))
    }
}

pub proof fn lemma_evs_push(s: Seq<Expr>, e: Expr)
    ensures
        evs(s.push(e)) == evs(s).push(ev(e)),
{
    assert(s.push(e).drop_last() =~= s);
}

pub proof fn lemma_evs_len(s: Seq<Expr>)
    ensures
        evs(s).len() == s.len(),
    decreases s.len(),
{
    if s.len() > 0 {
        lemma_evs_len(s.drop_last());
    }
}

pub proof fn lemma_svs_push(s: Seq<Statement>, e: Statement)
    ensures
        svs(s.push(e)) == svs(s).push(sv(e)),
{
    assert(s.push(e).drop_last() =~= s);
}

/// The model of a syntax error.
pub struct PErr {
    pub token: Token,
    pub message: Seq<char>,
}

/// A production's outcome: what it built and where it stopped, or an error.
pub type Parsed<T> = Result<(T, int), PErr>;

pub open spec fn kind(toks: Seq<Token>, p: int) -> TokenType {
    toks[p].token_type
}

pub open spec fn at_end(toks: Seq<Token>, p: int) -> bool {
    kind(toks, p) == TokenType::Eof
}

/// The token at `p` has kind `t` and is not the end.
pub open spec fn sees(toks: Seq<Token>, p: int, t: TokenType) -> bool {
    !at_end(toks, p) && kind(toks, p) == t
}

pub open spec fn err_at(toks: Seq<Token>, p: int, m: Seq<char>) -> PErr {
    PErr { token: toks[p], message: m }
}

/// The outcome for a position outside the stream, which a well-formed
/// stream never reaches.
pub open spec fn stuck(toks: Seq<Token>) -> PErr {
    PErr { token: toks[0], message: Seq::empty() }
}

pub open spec fn inside(toks: Seq<Token>, p: int) -> bool {
    0 <= p < toks.len()
}

/// `q` lies at or after `p` and inside the stream.
pub open spec fn onward(toks: Seq<Token>, p: int, q: int) -> bool {
    p <= q < toks.len()
}

/// The token at `p` must have kind `t`; else an error there.
pub open spec fn expect_g(toks: Seq<Token>, p: int, t: TokenType, m: Seq<char>) -> Parsed<Token> {
    if sees(toks, p, t) {
        Ok((toks[p], p + 1))
    } else {
        Err(err_at(toks, p, m))
    }
}

/// The operators of a binary precedence level (10 `or` down to 5 `*`).
pub open spec fn level_op(level: nat, t: TokenType) -> bool {
    if level == 10 {
        t == TokenType::Or
    } else if level == 9 {
        t == TokenType::And
    } else if level == 8 {
        t == TokenType::EqualEqual || t == TokenType::BangEqual
    } else if level == 7 {
        t == TokenType::Greater || t == TokenType::GreaterEqual || t == TokenType::Less || t == TokenType::LessEqual
    } else if level == 6 {
        t == TokenType::Minus || t == TokenType::Plus
    } else {
        t == TokenType::Slash || t == TokenType::Star
    }
}

/// The node joining two operands at a level: logical for `or`/`and`.
pub open spec fn join(level: nat, l: ExprV, op: Token, r: ExprV) -> ExprV {
    if level >= 9 {
        ExprV::Logical { left: Box::new(l), right: Box::new(r), operator: op }
    } else {
        ExprV::Binary { left: Box::new(l), right: Box::new(r), operator: op }
    }
}

/// expression := assignment
pub open spec fn expression_g(toks: Seq<Token>, p: int) -> Parsed<ExprV>
    decreases toks.len() - p, 30nat,
{
    assignment_g(toks, p)
}

/// assignment := or ( "=" assignment )?, the left side a variable
pub open spec fn assignment_g(toks: Seq<Token>, p: int) -> Parsed<ExprV>
    decreases toks.len() - p, 29nat,
{
    if !inside(toks, p) {
        Err(stuck(toks))
    } else {
        match chain_g(toks, p, 10) {
            Err(x) => Err(x),
            Ok((e, q)) => if !onward(toks, p, q) {
                Err(stuck(toks))
            } else if sees(toks, q, TokenType::Equal) {
                match assignment_g(toks, q + 1) {
                    Err(x) => Err(x),
                    Ok((v, r)) => match e {
                        ExprV::Variable { name } => Ok((ExprV::Assign { name, value: Box::new(v) }, r)),
                        _ => Err(PErr { token: toks[q], message: "Invalid assignment target"@ }),
                    },
                }
            } else {
                Ok((e, q))
            },
        }
    }
}

/// A left-associative chain of the operators of `level` (10 down to 5);
/// its operands are chains of the next level, or unary expressions.
pub open spec fn chain_g(toks: Seq<Token>, p: int, level: nat) -> Parsed<ExprV>
    decreases toks.len() - p, 2 * level + 1,
{
    if !inside(toks, p) || level < 5 || level > 10 {
        Err(stuck(toks))
    } else {
        let first = if level == 5 { unary_g(toks, p) } else { chain_g(toks, p, (level - 1) as nat) };
        match first {
            Err(x) => Err(x),
            Ok((l, q)) => if !onward(toks, p, q) {
                Err(stuck(toks))
            } else {
                chain_rest_g(toks, q, l, level)
            },
        }
    }
}

/// The rest of a chain after the operand `left`.
pub open spec fn chain_rest_g(toks: Seq<Token>, p: int, left: ExprV, level: nat) -> Parsed<ExprV>
    decreases toks.len() - p, 2 * level,
{
    if !inside(toks, p) || level < 5 || level > 10 {
        Err(stuck(toks))
    } else if !at_end(toks, p) && level_op(level, kind(toks, p)) {
        let next = if level == 5 { unary_g(toks, p + 1) } else { chain_g(toks, p + 1, (level - 1) as nat) };
        match next {
            Err(x) => Err(x),
            Ok((r, q)) => if !onward(toks, p + 1, q) {
                Err(stuck(toks))
            } else {
                chain_rest_g(toks, q, join(level, left, toks[p], r), level)
            },
        }
    } else {
        Ok((left, p))
    }
}

/// unary := ( "!" | "-" ) unary | call
pub open spec fn unary_g(toks: Seq<Token>, p: int) -> Parsed<ExprV>
    decreases toks.len() - p, 8nat,
{
    if !inside(toks, p) {
        Err(stuck(toks))
    } else if sees(toks, p, TokenType::Bang) || sees(toks, p, TokenType::Minus) {
        match unary_g(toks, p + 1) {
            Err(x) => Err(x),
            Ok((r, q)) => Ok((ExprV::Unary { right: Box::new(r), operator: toks[p] }, q)),
        }
    } else {
        call_g(toks, p)
    }
}

/// call := primary ( "(" arguments? ")" )*
pub open spec fn call_g(toks: Seq<Token>, p: int) -> Parsed<ExprV>
    decreases toks.len() - p, 7nat,
{
    if !inside(toks, p) {
        Err(stuck(toks))
    } else {
        match primary_g(toks, p) {
            Err(x) => Err(x),
            Ok((e, q)) => if !onward(toks, p, q) {
                Err(stuck(toks))
            } else {
                call_rest_g(toks, q, e)
            },
        }
    }
}

/// The argument lists that follow a callee.
pub open spec fn call_rest_g(toks: Seq<Token>, p: int, callee: ExprV) -> Parsed<ExprV>
    decreases toks.len() - p, 6nat,
{
    if !inside(toks, p) {
        Err(stuck(toks))
    } else if sees(toks, p, TokenType::LeftParen) {
        match finish_call_g(toks, p + 1, callee) {
            Err(x) => Err(x),
            Ok((c, q)) => if !onward(toks, p + 1, q) {
                Err(stuck(toks))
            } else {
                call_rest_g(toks, q, c)
            },
        }
    } else {
        Ok((callee, p))
    }
}

/// The arguments and the closing parenthesis of a call.
pub open spec fn finish_call_g(toks: Seq<Token>, p: int, callee: ExprV) -> Parsed<ExprV>
    decreases toks.len() - p, 32nat,
{
    if !inside(toks, p) {
        Err(stuck(toks))
    } else if sees(toks, p, TokenType::RightParen) {
        close_call_g(toks, p, callee, Seq::empty())
    } else {
        arguments_g(toks, p, callee, Seq::empty())
    }
}

/// More arguments, after those in `args`: at most eight in all.
pub open spec fn arguments_g(toks: Seq<Token>, p: int, callee: ExprV, args: Seq<ExprV>) -> Parsed<ExprV>
    decreases toks.len() - p, 31nat,
{
    if !inside(toks, p) {
        Err(stuck(toks))
    } else if args.len() >= 8 {
        Err(err_at(toks, p, "Cannot have more than 8 arguments"@))
    } else {
        match expression_g(toks, p) {
            Err(x) => Err(x),
            Ok((a, q)) => if !onward(toks, p, q) {
                Err(stuck(toks))
            } else if sees(toks, q, TokenType::Comma) {
                arguments_g(toks, q + 1, callee, args.push(a))
            } else {
                close_call_g(toks, q, callee, args.push(a))
            },
        }
    }
}

pub open spec fn close_call_g(toks: Seq<Token>, p: int, callee: ExprV, args: Seq<ExprV>) -> Parsed<ExprV> {
    match expect_g(toks, p, TokenType::RightParen, "Expect ')' after arguments."@) {
        Err(x) => Err(x),
        Ok((paren, q)) => Ok((ExprV::Call { callee: Box::new(callee), paren, arguments: args }, q)),
    }
}

/// primary := literal | identifier | "(" expression ")"
pub open spec fn primary_g(toks: Seq<Token>, p: int) -> Parsed<ExprV>
    decreases toks.len() - p, 2nat,
{
    if !inside(toks, p) {
        Err(stuck(toks))
    } else if at_end(toks, p) {
        Err(err_at(toks, p, "Expect expression."@))
    } else {
        let t = toks[p];
        if t.token_type == TokenType::True {
            Ok((ExprV::Literal { value: LoxValue::Bool(true), token: t }, p + 1))
        } else if t.token_type == TokenType::False {
            Ok((ExprV::Literal { value: LoxValue::Bool(false), token: t }, p + 1))
        } else if t.token_type == TokenType::Nil {
            Ok((ExprV::Literal { value: LoxValue::Nil, token: t }, p + 1))
        } else if t.token_type == TokenType::Number || t.token_type == TokenType::String {
            Ok((ExprV::Literal { value: t.literal, token: t }, p + 1))
        } else if t.token_type == TokenType::LeftParen {
            match expression_g(toks, p + 1) {
                Err(x) => Err(x),
                Ok((e, q)) => match expect_g(toks, q, TokenType::RightParen, "Expect ')' after expression."@) {
                    Err(x) => Err(x),
                    Ok((_, r)) => Ok((ExprV::Grouping { expression: Box::new(e), token: t }, r)),
                },
            }
        } else if t.token_type == TokenType::Identifier {
            Ok((ExprV::Variable { name: t }, p + 1))
        } else {
            Err(PErr { token: t, message: "No matching primary"@ })
        }
    }
}

/// declaration := "var" varDecl | "fun" function | statement
pub open spec fn declaration_g(toks: Seq<Token>, p: int) -> Parsed<StmtV>
    decreases toks.len() - p, 50nat,
{
    if !inside(toks, p) {
        Err(stuck(toks))
    } else if sees(toks, p, TokenType::Var) {
        var_g(toks, p + 1)
    } else if sees(toks, p, TokenType::Fun) {
        function_g(toks, p + 1)
    } else {
        statement_g(toks, p)
    }
}

/// function := identifier "(" parameters? ")" block
pub open spec fn function_g(toks: Seq<Token>, p: int) -> Parsed<StmtV>
    decreases toks.len() - p, 46nat,
{
    if !inside(toks, p) {
        Err(stuck(toks))
    } else {
        match expect_g(toks, p, TokenType::Identifier, "Expect function name."@) {
            Err(x) => Err(x),
            Ok((name, p1)) => match expect_g(toks, p1, TokenType::LeftParen, "Expect '(' after function name."@) {
                Err(x) => Err(x),
                Ok((_, p2)) => if !onward(toks, p, p2) {
                    Err(stuck(toks))
                } else if sees(toks, p2, TokenType::RightParen) {
                    function_body_g(toks, p2, name, Seq::empty())
                } else {
                    parameters_g(toks, p2, name, Seq::empty())
                },
            },
        }
    }
}

/// More parameters, after those in `params`: at most eight in all.
pub open spec fn parameters_g(toks: Seq<Token>, p: int, name: Token, params: Seq<Token>) -> Parsed<StmtV>
    decreases toks.len() - p, 45nat,
{
    if !inside(toks, p) {
        Err(stuck(toks))
    } else if params.len() >= 8 {
        Err(err_at(toks, p, "Cannot have more than 8 parameters."@))
    } else {
        match expect_g(toks, p, TokenType::Identifier, "Expect parameter name."@) {
            Err(x) => Err(x),
            Ok((t, q)) => if !inside(toks, q) {
                Err(stuck(toks))
            } else if sees(toks, q, TokenType::Comma) {
                parameters_g(toks, q + 1, name, params.push(t))
            } else {
                function_body_g(toks, q, name, params.push(t))
            },
        }
    }
}

/// The closing parenthesis and the body of a function.
pub open spec fn function_body_g(toks: Seq<Token>, p: int, name: Token, params: Seq<Token>) -> Parsed<StmtV>
    decreases toks.len() - p, 44nat,
{
    if !inside(toks, p) {
        Err(stuck(toks))
    } else {
        match expect_g(toks, p, TokenType::RightParen, "Expect ')' after parameters."@) {
            Err(x) => Err(x),
            Ok((_, p1)) => match expect_g(toks, p1, TokenType::LeftBrace, "Expect '{' before function body."@) {
                Err(x) => Err(x),
                Ok((_, p2)) => if !onward(toks, p, p2) {
                    Err(stuck(toks))
                } else {
                    match block_g(toks, p2) {
                        Err(x) => Err(x),
                        Ok((body, q)) => Ok((StmtV::Function { name, parameters: params, body }, q)),
                    }
                },
            },
        }
    }
}

/// varDecl := identifier ( "=" expression )? ";"
pub open spec fn var_g(toks: Seq<Token>, p: int) -> Parsed<StmtV>
    decreases toks.len() - p, 46nat,
{
    if !inside(toks, p) {
        Err(stuck(toks))
    } else {
        match expect_g(toks, p, TokenType::Identifier, "Expect variable name."@) {
            Err(x) => Err(x),
            Ok((name, p1)) => if !inside(toks, p1) {
                Err(stuck(toks))
            } else if sees(toks, p1, TokenType::Equal) {
                match expression_g(toks, p1 + 1) {
                    Err(x) => Err(x),
                    Ok((e, q)) => match expect_g(toks, q, TokenType::Semicolon, "Expect ';' after variable declaration."@) {
                        Err(x) => Err(x),
                        Ok((_, r)) => Ok((StmtV::Var { name, initializer: Some(e) }, r)),
                    },
                }
            } else {
                match expect_g(toks, p1, TokenType::Semicolon, "Expect ';' after variable declaration."@) {
                    Err(x) => Err(x),
                    Ok((_, r)) => Ok((StmtV::Var { name, initializer: None }, r)),
                }
            },
        }
    }
}

/// statement := print | return | block | if | while | for | expression ";"
pub open spec fn statement_g(toks: Seq<Token>, p: int) -> Parsed<StmtV>
    decreases toks.len() - p, 40nat,
{
    if !inside(toks, p) {
        Err(stuck(toks))
    } else if sees(toks, p, TokenType::Print) {
        print_g(toks, p + 1)
    } else if sees(toks, p, TokenType::Return) {
        return_g(toks, p + 1)
    } else if sees(toks, p, TokenType::LeftBrace) {
        match block_g(toks, p + 1) {
            Err(x) => Err(x),
            Ok((statements, q)) => Ok((StmtV::Block { statements }, q)),
        }
    } else if sees(toks, p, TokenType::If) {
        if_g(toks, p + 1)
    } else if sees(toks, p, TokenType::While) {
        while_g(toks, p + 1)
    } else if sees(toks, p, TokenType::For) {
        for_g(toks, p + 1)
    } else {
        expression_statement_g(toks, p)
    }
}

pub open spec fn print_g(toks: Seq<Token>, p: int) -> Parsed<StmtV>
    decreases toks.len() - p, 35nat,
{
    if !inside(toks, p) {
        Err(stuck(toks))
    } else {
        match expression_g(toks, p) {
            Err(x) => Err(x),
            Ok((e, q)) => match expect_g(toks, q, TokenType::Semicolon, "Expect ';' after statement."@) {
                Err(x) => Err(x),
                Ok((_, r)) => Ok((StmtV::Print { expression: e }, r)),
            },
        }
    }
}

pub open spec fn expression_statement_g(toks: Seq<Token>, p: int) -> Parsed<StmtV>
    decreases toks.len() - p, 35nat,
{
    if !inside(toks, p) {
        Err(stuck(toks))
    } else {
        match expression_g(toks, p) {
            Err(x) => Err(x),
            Ok((e, q)) => match expect_g(toks, q, TokenType::Semicolon, "Expect ';' after statement."@) {
                Err(x) => Err(x),
                Ok((_, r)) => Ok((StmtV::Expression { expression: e }, r)),
            },
        }
    }
}

/// return := "return" expression? ";", the keyword just before `p`
pub open spec fn return_g(toks: Seq<Token>, p: int) -> Parsed<StmtV>
    decreases toks.len() - p, 35nat,
{
    if !inside(toks, p) || p < 1 {
        Err(stuck(toks))
    } else if !sees(toks, p, TokenType::Semicolon) {
        match expression_g(toks, p) {
            Err(x) => Err(x),
            Ok((e, q)) => match expect_g(toks, q, TokenType::Semicolon, "Expect ';' after return value."@) {
                Err(x) => Err(x),
                Ok((_, r)) => Ok((StmtV::Return { keyword: toks[p - 1], value: Some(e) }, r)),
            },
        }
    } else {
        match expect_g(toks, p, TokenType::Semicolon, "Expect ';' after return value."@) {
            Err(x) => Err(x),
            Ok((_, r)) => Ok((StmtV::Return { keyword: toks[p - 1], value: None }, r)),
        }
    }
}

pub open spec fn if_g(toks: Seq<Token>, p: int) -> Parsed<StmtV>
    decreases toks.len() - p, 45nat,
{
    if !inside(toks, p) {
        Err(stuck(toks))
    } else {
        match expect_g(toks, p, TokenType::LeftParen, "Expect '(' before 'if'."@) {
            Err(x) => Err(x),
            Ok((_, p1)) => match expression_g(toks, p1) {
                Err(x) => Err(x),
                Ok((c, p2)) => match expect_g(toks, p2, TokenType::RightParen, "Expect ')' after 'if'."@) {
                    Err(x) => Err(x),
                    Ok((_, p3)) => if !onward(toks, p, p3) {
                        Err(stuck(toks))
                    } else {
                        match statement_g(toks, p3) {
                            Err(x) => Err(x),
                            Ok((t, p4)) => if !onward(toks, p3, p4) {
                                Err(stuck(toks))
                            } else if sees(toks, p4, TokenType::Else) {
                                match statement_g(toks, p4 + 1) {
                                    Err(x) => Err(x),
                                    Ok((e, p5)) => Ok((StmtV::If {
                                        condition: c,
                                        then_branch: Box::new(t),
                                        else_branch: Some(Box::new(e)),
                                    }, p5)),
                                }
                            } else {
                                Ok((StmtV::If { condition: c, then_branch: Box::new(t), else_branch: None }, p4))
                            },
                        }
                    },
                },
            },
        }
    }
}

pub open spec fn while_g(toks: Seq<Token>, p: int) -> Parsed<StmtV>
    decreases toks.len() - p, 45nat,
{
    if !inside(toks, p) {
        Err(stuck(toks))
    } else {
        match expect_g(toks, p, TokenType::LeftParen, "Expect '(' after 'while'."@) {
            Err(x) => Err(x),
            Ok((_, p1)) => match expression_g(toks, p1) {
                Err(x) => Err(x),
                Ok((c, p2)) => match expect_g(toks, p2, TokenType::RightParen, "Expect ')' after 'while'."@) {
                    Err(x) => Err(x),
                    Ok((_, p3)) => if !onward(toks, p, p3) {
                        Err(stuck(toks))
                    } else {
                        match statement_g(toks, p3) {
                            Err(x) => Err(x),
                            Ok((b, p4)) => Ok((StmtV::While { condition: c, body: Box::new(b) }, p4)),
                        }
                    },
                },
            },
        }
    }
}

/// What `for (init; cond; incr) body` desugars to:
/// `{ init; while (cond) { body; incr; } }`, with `true` (at the `for`
/// keyword) for a missing condition, and without the block parts that a
/// missing initializer or increment leaves empty.
pub open spec fn desugar_for(keyword: Token, init: Option<StmtV>, cond: Option<ExprV>, incr: Option<ExprV>, body: StmtV) -> StmtV {
    let inner = match incr {
        Some(i) => StmtV::Block { statements: seq![body, StmtV::Expression { expression: i }] },
        None => body,
    };
    let c = match cond {
        Some(c) => c,
        None => ExprV::Literal { value: LoxValue::Bool(true), token: keyword },
    };
    let looped = StmtV::While { condition: c, body: Box::new(inner) };
    match init {
        Some(s) => StmtV::Block { statements: seq![s, looped] },
        None => looped,
    }
}

/// for := "for" "(" ( varDecl | expression ";" | ";" ) expression? ";" expression? ")" statement
pub open spec fn for_g(toks: Seq<Token>, p: int) -> Parsed<StmtV>
    decreases toks.len() - p, 45nat,
{
    if !inside(toks, p) || p < 1 {
        Err(stuck(toks))
    } else {
        match expect_g(toks, p, TokenType::LeftParen, "Expect '(' after 'for'."@) {
            Err(x) => Err(x),
            Ok((_, p1)) => if !inside(toks, p1) {
                Err(stuck(toks))
            } else {
                let init: Parsed<Option<StmtV>> = if sees(toks, p1, TokenType::Semicolon) {
                    Ok((None, p1 + 1))
                } else if sees(toks, p1, TokenType::Var) {
                    match var_g(toks, p1 + 1) {
                        Err(x) => Err(x),
                        Ok((s, q)) => Ok((Some(s), q)),
                    }
                } else {
                    match expression_statement_g(toks, p1) {
                        Err(x) => Err(x),
                        Ok((s, q)) => Ok((Some(s), q)),
                    }
                };
                match init {
                    Err(x) => Err(x),
                    Ok((i, p2)) => if !onward(toks, p, p2) {
                        Err(stuck(toks))
                    } else {
                        let cond: Parsed<Option<ExprV>> = if !sees(toks, p2, TokenType::Semicolon) {
                            match expression_g(toks, p2) {
                                Err(x) => Err(x),
                                Ok((c, q)) => Ok((Some(c), q)),
                            }
                        } else {
                            Ok((None, p2))
                        };
                        match cond {
                            Err(x) => Err(x),
                            Ok((c, p3)) => match expect_g(toks, p3, TokenType::Semicolon, "Expect ';' after loop condition."@) {
                                Err(x) => Err(x),
                                Ok((_, p4)) => if !onward(toks, p, p4) {
                                    Err(stuck(toks))
                                } else {
                                    let incr: Parsed<Option<ExprV>> = if !sees(toks, p4, TokenType::RightParen) {
                                        match expression_g(toks, p4) {
                                            Err(x) => Err(x),
                                            Ok((e, q)) => Ok((Some(e), q)),
                                        }
                                    } else {
                                        Ok((None, p4))
                                    };
                                    match incr {
                                        Err(x) => Err(x),
                                        Ok((n, p5)) => match expect_g(toks, p5, TokenType::RightParen, "Expect ')' after 'for' clauses."@) {
                                            Err(x) => Err(x),
                                            Ok((_, p6)) => if !onward(toks, p, p6) {
                                                Err(stuck(toks))
                                            } else {
                                                match statement_g(toks, p6) {
                                                    Err(x) => Err(x),
                                                    Ok((b, q)) => Ok((desugar_for(toks[p - 1], i, c, n, b), q)),
                                                }
                                            },
                                        },
                                    }
                                },
                            },
                        }
                    },
                }
            },
        }
    }
}

/// The declarations of a block, after those in `stmts`, up to its "}".
pub open spec fn block_rest_g(toks: Seq<Token>, p: int, stmts: Seq<StmtV>) -> Parsed<Seq<StmtV>>
    decreases toks.len() - p, 60nat,
{
    if !inside(toks, p) {
        Err(stuck(toks))
    } else if !sees(toks, p, TokenType::RightBrace) && !at_end(toks, p) {
        match declaration_g(toks, p) {
            Err(x) => Err(x),
            Ok((s, q)) => if !onward(toks, p + 1, q) {
                Err(stuck(toks))
            } else {
                block_rest_g(toks, q, stmts.push(s))
            },
        }
    } else {
        match expect_g(toks, p, TokenType::RightBrace, "Expect '}' after block."@) {
            Err(x) => Err(x),
            Ok((_, q)) => Ok((stmts, q)),
        }
    }
}

/// block := declaration* "}", after the "{"
pub open spec fn block_g(toks: Seq<Token>, p: int) -> Parsed<Seq<StmtV>>
    decreases toks.len() - p, 61nat,
{
    block_rest_g(toks, p, Seq::empty())
}

/// The declarations of a program, after those in `stmts`, up to the end.
pub open spec fn program_g(toks: Seq<Token>, p: int, stmts: Seq<StmtV>) -> Parsed<Seq<StmtV>>
    decreases toks.len() - p, 70nat,
{
    if !inside(toks, p) {
        Err(stuck(toks))
    } else if at_end(toks, p) {
        Ok((stmts, p))
    } else {
        match declaration_g(toks, p) {
            Err(x) => Err(x),
            Ok((s, q)) => if !onward(toks, p + 1, q) {
                Err(stuck(toks))
            } else {
                program_g(toks, q, stmts.push(s))
            },
        }
    }
}

/// The program a token stream parses to, or its first syntax error.
pub open spec fn parse_program(toks: Seq<Token>) -> Result<Seq<StmtV>, PErr> {
    match program_g(toks, 0, Seq::empty()) {
        Err(x) => Err(x),
        Ok((stmts, _)) => Ok(stmts),
    }
}

} // verus!
