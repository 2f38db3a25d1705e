use vstd::prelude::*;
use crate::ast::{Expr, FunctionDeclaration, Program, Statement};
use crate::lox_value::LoxValue;
use crate::token::{Token, TokenType};
use crate::grammar::{
    arguments_g, assignment_g, expect_g, block_g, block_rest_g, call_g, call_rest_g, chain_g, chain_rest_g, close_call_g,
    declaration_g, desugar_for, ev, evs, expression_g, expression_statement_g, finish_call_g, for_g,
    function_body_g, function_g, if_g, lemma_evs_len, lemma_evs_push, lemma_svs_push, parameters_g, parse_program, primary_g,
    print_g, program_g, return_g, statement_g, sv, svs, unary_g, var_g, while_g, ExprV, PErr, Parsed, StmtV,
};

verus! {

/// A syntax error: the offending token and a message.
#[derive(Debug)]
pub struct ParseError {
    pub token: Token,
    pub message: String,
}

/// The most parameters a function, and arguments a call, may have.
pub const MAX_ARGS: usize = 8;

/// A recursive-descent parser over a token stream that ends with `Eof`.
pub struct Parser {
    pub tokens: Vec<Token>,
    current: usize,
}

/// The token stream ends with `Eof`.
pub open spec fn stream_ok(tokens: Seq<Token>) -> bool {
    tokens.len() > 0 && tokens.last().token_type == TokenType::Eof
}

impl View for ParseError {
    type V = PErr;

    open spec fn view(&self) -> PErr {
        PErr { token: self.token, message: self.message@ }
    }
}

/// The model of an optional expression.
pub open spec fn opt_ev(o: Option<Expr>) -> Option<ExprV> {
    match o {
        Some(e) => Some(ev(e)),
        None => None,
    }
}

/// The model of an optional statement.
pub open spec fn opt_sv(o: Option<Statement>) -> Option<StmtV> {
    match o {
        Some(s) => Some(sv(s)),
        None => None,
    }
}

/// `after` reads the same stream as `before`, no earlier in it, and
/// strictly further when `moved` holds.
pub open spec fn stepped(before: Parser, after: Parser, moved: bool) -> bool {
    &&& after.wf()
    &&& after.stream() == before.stream()
    &&& before.pos() <= after.pos()
    &&& moved ==> before.pos() < after.pos()
}

/// An expression result and the position after it agree with the grammar.
pub open spec fn gives_expr(r: Result<Expr, ParseError>, after: Parser, m: Parsed<ExprV>) -> bool {
    match m {
        Ok((e, q)) => r matches Ok(x) && ev(x) == e && after.pos() == q,
        Err(x) => r matches Err(y) && y@ == x,
    }
}

/// A statement result and the position after it agree with the grammar.
pub open spec fn gives_stmt(r: Result<Statement, ParseError>, after: Parser, m: Parsed<StmtV>) -> bool {
    match m {
        Ok((s, q)) => r matches Ok(x) && sv(x) == s && after.pos() == q,
        Err(x) => r matches Err(y) && y@ == x,
    }
}

/// A list of statements and the position after it agree with the grammar.
pub open spec fn gives_list(r: Result<Vec<Statement>, ParseError>, after: Parser, m: Parsed<Seq<StmtV>>) -> bool {
    match m {
        Ok((s, q)) => r matches Ok(x) && svs(x@) == s && after.pos() == q,
        Err(x) => r matches Err(y) && y@ == x,
    }
}

proof fn lemma_svs_pair(a: Statement, b: Statement)
    ensures
        svs(seq![a, b]) == seq![sv(a), sv(b)],
{
    reveal_with_fuel(svs, 3);
    assert(seq![a, b].drop_last() =~= seq![a]);
    assert(seq![a].drop_last() =~= Seq::<Statement>::empty());
    assert(svs(seq![a]) =~= seq![sv(a)]);
    assert(svs(seq![a, b]) =~= seq![sv(a), sv(b)]);
}

fn pair(first: Statement, second: Statement) -> (r: Vec<Statement>)
    ensures
        r@ == seq![first, second],
{
    let mut r: Vec<Statement> = Vec::new();
    r.push(first);
    r.push(second);
    assert(r@ =~= seq![first, second]);
    r
}

impl Parser {
    /// The position of the next token.
    pub closed spec fn pos(&self) -> int {
        self.current as int
    }

    /// The tokens being read.
    pub closed spec fn stream(&self) -> Seq<Token> {
        self.tokens@
    }

    /// The parser reads a well-formed stream and stands inside it.
    pub open spec fn wf(&self) -> bool {
        stream_ok(self.stream()) && 0 <= self.pos() < self.stream().len()
    }

    /// The next token.
    pub open spec fn next(&self) -> Token {
        self.stream()[self.pos()]
    }

    /// A parser at the start of `tokens`.
    pub fn new(tokens: Vec<Token>) -> (r: Parser)
        ensures
            r.stream() == tokens@,
            r.pos() == 0,
            stream_ok(tokens@) ==> r.wf(),
    {
        Parser { tokens, current: 0 }
    }

    fn peek(&self) -> (r: &Token)
        requires
            self.wf(),
        ensures
            *r == self.next(),
    {
        &self.tokens[self.current]
    }

    fn previous(&self) -> (r: &Token)
        requires
            self.wf(),
        ensures
            self.pos() > 0 ==> *r == self.stream()[self.pos() - 1],
    {
        if self.current == 0 {
            &self.tokens[0]
        } else {
            &self.tokens[self.current - 1]
        }
    }

    fn is_at_end(&self) -> (r: bool)
        requires
            self.wf(),
        ensures
            r == (self.next().token_type == TokenType::Eof),
    {
        self.tokens[self.current].token_type == TokenType::Eof
    }

    fn check(&self, t: TokenType) -> (r: bool)
        requires
            self.wf(),
        ensures
            r == (self.next().token_type != TokenType::Eof && self.next().token_type == t),
    {
        if self.is_at_end() {
            false
        } else {
            self.peek().token_type == t
        }
    }

    fn advance(&mut self) -> (r: &Token)
        requires
            old(self).wf(),
        ensures
            final(self).wf(),
            final(self).stream() == old(self).stream(),
            old(self).next().token_type != TokenType::Eof ==> final(self).pos() == old(self).pos() + 1,
            old(self).next().token_type == TokenType::Eof ==> final(self).pos() == old(self).pos(),
            old(self).next().token_type != TokenType::Eof ==> *r == old(self).next(),
    {
        if !self.is_at_end() {
            assert(self.tokens@.last() == self.tokens@[self.tokens@.len() - 1]);
            assert(self.current + 1 < self.tokens.len());
            self.current = self.current + 1;
        }
        self.previous()
    }

    /// Consumes the next token when it has kind `t`.
    fn match_token(&mut self, t: TokenType) -> (r: bool)
        requires
            old(self).wf(),
        ensures
            final(self).wf(),
            final(self).stream() == old(self).stream(),
            r == (old(self).next().token_type != TokenType::Eof && old(self).next().token_type == t),
            r ==> final(self).pos() == old(self).pos() + 1,
            !r ==> final(self).pos() == old(self).pos(),
    {
        if self.check(t) {
            self.advance();
            true
        } else {
            false
        }
    }

    fn error_here(&self, message: &str) -> (e: ParseError)
        requires
            self.wf(),
        ensures
            e.token == self.next(),
            e.message@ == message@,
    {
        ParseError { token: self.peek().duplicate(), message: String::from_str(message) }
    }

    /// Consumes the next token, which must have kind `t`; else an error at
    /// the next token.
    fn consume(&mut self, t: TokenType, message: &str) -> (r: Result<Token, ParseError>)
        requires
            old(self).wf(),
        ensures
            final(self).wf(),
            final(self).stream() == old(self).stream(),
            match r {
                Ok(tok) => tok == old(self).next() && tok.token_type == t && t != TokenType::Eof
                    && final(self).pos() == old(self).pos() + 1,
                Err(e) => !(old(self).next().token_type == t && t != TokenType::Eof)
                    && e.token == old(self).next() && e.message@ == message@
                    && final(self).pos() == old(self).pos(),
            },
            match expect_g(old(self).stream(), old(self).pos(), t, message@) {
                Ok((tok, q)) => r matches Ok(x) && x == tok && final(self).pos() == q,
                Err(x) => r matches Err(y) && y@ == x,
            },
    {
        if self.check(t) {
            let tok = self.advance().duplicate();
            Ok(tok)
        } else {
            Err(self.error_here(message))
        }
    }
}
impl Parser {
    fn expression(&mut self) -> (r: Result<Expr, ParseError>)
        requires
            old(self).wf(),
        ensures
            stepped(*old(self), *final(self), r is Ok),
            gives_expr(r, *final(self), expression_g(old(self).stream(), old(self).pos())),
        decreases self.stream().len() - self.pos(), 12nat,
    {
        self.assignment()
    }

    fn assignment(&mut self) -> (r: Result<Expr, ParseError>)
        requires
            old(self).wf(),
        ensures
            stepped(*old(self), *final(self), r is Ok),
            gives_expr(r, *final(self), assignment_g(old(self).stream(), old(self).pos())),
        decreases self.stream().len() - self.pos(), 11nat,
    {
        let expr = match self.or() {
            Ok(e) => e,
            Err(x) => return Err(x),
        };
        let ghost mid = self.pos();
        if self.match_token(TokenType::Equal) {
            let equals = self.previous().duplicate();
            let value = match self.assignment() {
                Ok(v) => v,
                Err(x) => return Err(x),
            };
            match expr {
                Expr::Variable { name } => Ok(Expr::Assign { name, value: Box::new(value) }),
                _ => {
                    proof { reveal_strlit("Invalid assignment target"); }
                    Err(ParseError { token: equals, message: String::from_str("Invalid assignment target") })
                },
            }
        } else {
            Ok(expr)
        }
    }

    fn or(&mut self) -> (r: Result<Expr, ParseError>)
        requires
            old(self).wf(),
        ensures
            stepped(*old(self), *final(self), r is Ok),
            gives_expr(r, *final(self), chain_g(old(self).stream(), old(self).pos(), 10)),
        decreases self.stream().len() - self.pos(), 10nat,
    {
        let mut expr = match self.and() {
            Ok(e) => e,
            Err(x) => return Err(x),
        };
        let ghost start = old(self).pos();
        while self.match_token(TokenType::Or)
            invariant
                self.wf(),
                self.stream() == old(self).stream(),
                start == old(self).pos(),
                start < self.pos(),
                chain_g(self.stream(), start, 10) == chain_rest_g(self.stream(), self.pos(), ev(expr), 10),
            decreases self.stream().len() - self.pos(),
        {
            let operator = self.previous().duplicate();
            let right = match self.and() {
                Ok(e) => e,
                Err(x) => return Err(x),
            };
            expr = Expr::Logical { left: Box::new(expr), right: Box::new(right), operator };
        }
        Ok(expr)
    }

    fn and(&mut self) -> (r: Result<Expr, ParseError>)
        requires
            old(self).wf(),
        ensures
            stepped(*old(self), *final(self), r is Ok),
            gives_expr(r, *final(self), chain_g(old(self).stream(), old(self).pos(), 9)),
        decreases self.stream().len() - self.pos(), 9nat,
    {
        let mut expr = match self.equality() {
            Ok(e) => e,
            Err(x) => return Err(x),
        };
        let ghost start = old(self).pos();
        while self.match_token(TokenType::And)
            invariant
                self.wf(),
                self.stream() == old(self).stream(),
                start == old(self).pos(),
                start < self.pos(),
                chain_g(self.stream(), start, 9) == chain_rest_g(self.stream(), self.pos(), ev(expr), 9),
            decreases self.stream().len() - self.pos(),
        {
            let operator = self.previous().duplicate();
            let right = match self.equality() {
                Ok(e) => e,
                Err(x) => return Err(x),
            };
            expr = Expr::Logical { left: Box::new(expr), right: Box::new(right), operator };
        }
        Ok(expr)
    }

    fn equality(&mut self) -> (r: Result<Expr, ParseError>)
        requires
            old(self).wf(),
        ensures
            stepped(*old(self), *final(self), r is Ok),
            gives_expr(r, *final(self), chain_g(old(self).stream(), old(self).pos(), 8)),
        decreases self.stream().len() - self.pos(), 8nat,
    {
        let mut expr = match self.comparison() {
            Ok(e) => e,
            Err(x) => return Err(x),
        };
        let ghost start = old(self).pos();
        while self.match_token(TokenType::EqualEqual) || self.match_token(TokenType::BangEqual)
            invariant
                self.wf(),
                self.stream() == old(self).stream(),
                start == old(self).pos(),
                start < self.pos(),
                chain_g(self.stream(), start, 8) == chain_rest_g(self.stream(), self.pos(), ev(expr), 8),
            decreases self.stream().len() - self.pos(),
        {
            let operator = self.previous().duplicate();
            let right = match self.comparison() {
                Ok(e) => e,
                Err(x) => return Err(x),
            };
            expr = Expr::Binary { left: Box::new(expr), right: Box::new(right), operator };
        }
        Ok(expr)
    }

    fn comparison(&mut self) -> (r: Result<Expr, ParseError>)
        requires
            old(self).wf(),
        ensures
            stepped(*old(self), *final(self), r is Ok),
            gives_expr(r, *final(self), chain_g(old(self).stream(), old(self).pos(), 7)),
        decreases self.stream().len() - self.pos(), 7nat,
    {
        let mut expr = match self.addition() {
            Ok(e) => e,
            Err(x) => return Err(x),
        };
        let ghost start = old(self).pos();
        while self.match_token(TokenType::Greater) || self.match_token(TokenType::GreaterEqual)
            || self.match_token(TokenType::Less) || self.match_token(TokenType::LessEqual)
            invariant
                self.wf(),
                self.stream() == old(self).stream(),
                start == old(self).pos(),
                start < self.pos(),
                chain_g(self.stream(), start, 7) == chain_rest_g(self.stream(), self.pos(), ev(expr), 7),
            decreases self.stream().len() - self.pos(),
        {
            let operator = self.previous().duplicate();
            let right = match self.addition() {
                Ok(e) => e,
                Err(x) => return Err(x),
            };
            expr = Expr::Binary { left: Box::new(expr), right: Box::new(right), operator };
        }
        Ok(expr)
    }

    fn addition(&mut self) -> (r: Result<Expr, ParseError>)
        requires
            old(self).wf(),
        ensures
            stepped(*old(self), *final(self), r is Ok),
            gives_expr(r, *final(self), chain_g(old(self).stream(), old(self).pos(), 6)),
        decreases self.stream().len() - self.pos(), 6nat,
    {
        let mut expr = match self.multiplication() {
            Ok(e) => e,
            Err(x) => return Err(x),
        };
        let ghost start = old(self).pos();
        while self.match_token(TokenType::Minus) || self.match_token(TokenType::Plus)
            invariant
                self.wf(),
                self.stream() == old(self).stream(),
                start == old(self).pos(),
                start < self.pos(),
                chain_g(self.stream(), start, 6) == chain_rest_g(self.stream(), self.pos(), ev(expr), 6),
            decreases self.stream().len() - self.pos(),
        {
            let operator = self.previous().duplicate();
            let right = match self.multiplication() {
                Ok(e) => e,
                Err(x) => return Err(x),
            };
            expr = Expr::Binary { left: Box::new(expr), right: Box::new(right), operator };
        }
        Ok(expr)
    }

    fn multiplication(&mut self) -> (r: Result<Expr, ParseError>)
        requires
            old(self).wf(),
        ensures
            stepped(*old(self), *final(self), r is Ok),
            gives_expr(r, *final(self), chain_g(old(self).stream(), old(self).pos(), 5)),
        decreases self.stream().len() - self.pos(), 5nat,
    {
        let mut expr = match self.unary() {
            Ok(e) => e,
            Err(x) => return Err(x),
        };
        let ghost start = old(self).pos();
        while self.match_token(TokenType::Slash) || self.match_token(TokenType::Star)
            invariant
                self.wf(),
                self.stream() == old(self).stream(),
                start == old(self).pos(),
                start < self.pos(),
                chain_g(self.stream(), start, 5) == chain_rest_g(self.stream(), self.pos(), ev(expr), 5),
            decreases self.stream().len() - self.pos(),
        {
            let operator = self.previous().duplicate();
            let right = match self.unary() {
                Ok(e) => e,
                Err(x) => return Err(x),
            };
            expr = Expr::Binary { left: Box::new(expr), right: Box::new(right), operator };
        }
        Ok(expr)
    }

    fn unary(&mut self) -> (r: Result<Expr, ParseError>)
        requires
            old(self).wf(),
        ensures
            stepped(*old(self), *final(self), r is Ok),
            gives_expr(r, *final(self), unary_g(old(self).stream(), old(self).pos())),
        decreases self.stream().len() - self.pos(), 4nat,
    {
        if self.match_token(TokenType::Bang) || self.match_token(TokenType::Minus) {
            let operator = self.previous().duplicate();
            let right = match self.unary() {
                Ok(e) => e,
                Err(x) => return Err(x),
            };
            Ok(Expr::Unary { right: Box::new(right), operator })
        } else {
            self.call()
        }
    }

    fn call(&mut self) -> (r: Result<Expr, ParseError>)
        requires
            old(self).wf(),
        ensures
            stepped(*old(self), *final(self), r is Ok),
            gives_expr(r, *final(self), call_g(old(self).stream(), old(self).pos())),
        decreases self.stream().len() - self.pos(), 3nat,
    {
        let mut expr = match self.primary() {
            Ok(e) => e,
            Err(x) => return Err(x),
        };
        let ghost start = old(self).pos();
        while self.match_token(TokenType::LeftParen)
            invariant
                self.wf(),
                self.stream() == old(self).stream(),
                start == old(self).pos(),
                start < self.pos(),
                call_g(self.stream(), start) == call_rest_g(self.stream(), self.pos(), ev(expr)),
            decreases self.stream().len() - self.pos(),
        {
            expr = match self.finish_call(expr) {
                Ok(e) => e,
                Err(x) => return Err(x),
            };
        }
        Ok(expr)
    }

    fn finish_call(&mut self, callee: Expr) -> (r: Result<Expr, ParseError>)
        requires
            old(self).wf(),
        ensures
            stepped(*old(self), *final(self), r is Ok),
            gives_expr(r, *final(self), finish_call_g(old(self).stream(), old(self).pos(), ev(callee))),
        decreases self.stream().len() - self.pos(), 13nat,
    {
        let ghost first_pos = old(self).pos();
        let ghost target = ev(callee);
        let mut arguments: Vec<Expr> = Vec::new();
        proof { lemma_evs_len(arguments@); }
        if !self.check(TokenType::RightParen) {
            loop
                invariant_except_break
                    finish_call_g(self.stream(), first_pos, target) == arguments_g(self.stream(), self.pos(), target, evs(arguments@)),
                invariant
                    self.wf(),
                    self.stream() == old(self).stream(),
                    first_pos == old(self).pos(),
                    old(self).pos() <= self.pos(),
                    target == ev(callee),
                    evs(arguments@).len() == arguments@.len(),
                ensures
                    finish_call_g(self.stream(), first_pos, target) == close_call_g(self.stream(), self.pos(), target, evs(arguments@)),
                decreases self.stream().len() - self.pos(),
            {
                if arguments.len() >= MAX_ARGS {
                    proof { reveal_strlit("Cannot have more than 8 arguments"); }
                    return Err(self.error_here("Cannot have more than 8 arguments"));
                }
                let a = match self.expression() {
                    Ok(e) => e,
                    Err(x) => return Err(x),
                };
                proof { lemma_evs_push(arguments@, a); }
                arguments.push(a);
                if !self.match_token(TokenType::Comma) {
                    break;
                }
            }
        }
        proof { reveal_strlit("Expect ')' after arguments."); }
        let paren = match self.consume(TokenType::RightParen, "Expect ')' after arguments.") {
            Ok(t) => t,
            Err(x) => return Err(x),
        };
        Ok(Expr::Call { callee: Box::new(callee), paren, arguments })
    }

    fn primary(&mut self) -> (r: Result<Expr, ParseError>)
        requires
            old(self).wf(),
        ensures
            stepped(*old(self), *final(self), r is Ok),
            gives_expr(r, *final(self), primary_g(old(self).stream(), old(self).pos())),
        decreases self.stream().len() - self.pos(), 2nat,
    {
        if self.is_at_end() {
            proof { reveal_strlit("Expect expression."); }
            return Err(self.error_here("Expect expression."));
        }
        let t = self.advance().duplicate();
        match t.token_type {
            TokenType::True => Ok(Expr::Literal { value: LoxValue::Bool(true), token: t }),
            TokenType::False => Ok(Expr::Literal { value: LoxValue::Bool(false), token: t }),
            TokenType::Nil => Ok(Expr::Literal { value: LoxValue::Nil, token: t }),
            TokenType::Number | TokenType::String => {
                let value = t.literal.duplicate();
                Ok(Expr::Literal { value, token: t })
            },
            TokenType::LeftParen => {
                let expression = match self.expression() {
                    Ok(e) => e,
                    Err(x) => return Err(x),
                };
                proof { reveal_strlit("Expect ')' after expression."); }
                match self.consume(TokenType::RightParen, "Expect ')' after expression.") {
                    Ok(_) => {},
                    Err(x) => return Err(x),
                }
                Ok(Expr::Grouping { expression: Box::new(expression), token: t })
            },
            TokenType::Identifier => Ok(Expr::Variable { name: t }),
            _ => {
                proof { reveal_strlit("No matching primary"); }
                Err(ParseError { token: t, message: String::from_str("No matching primary") })
            },
        }
    }
}

impl Parser {
    /// Parses the whole stream into a program: the statements the grammar
    /// gives (`parse_program` from the start), or its first syntax error.
    pub fn parse(&mut self) -> (r: Result<Program, ParseError>)
        requires
            old(self).wf(),
        ensures
            stepped(*old(self), *final(self), false),
            match program_g(old(self).stream(), old(self).pos(), Seq::empty()) {
                Ok((stmts, _)) => r matches Ok(p) && svs(p.statements@) == stmts,
                Err(x) => r matches Err(y) && y@ == x,
            },
            old(self).pos() == 0 ==> match parse_program(old(self).stream()) {
                Ok(stmts) => r matches Ok(p) && svs(p.statements@) == stmts,
                Err(x) => r matches Err(y) && y@ == x,
            },
    {
        let mut statements: Vec<Statement> = Vec::new();
        let ghost start = old(self).pos();
        while !self.is_at_end()
            invariant
                self.wf(),
                self.stream() == old(self).stream(),
                start == old(self).pos(),
                old(self).pos() <= self.pos(),
                program_g(self.stream(), start, Seq::empty()) == program_g(self.stream(), self.pos(), svs(statements@)),
            decreases self.stream().len() - self.pos(),
        {
            let s = match self.declaration() {
                Ok(s) => s,
                Err(x) => return Err(x),
            };
            proof { lemma_svs_push(statements@, s); }
            statements.push(s);
        }
        Ok(Program { statements })
    }

    fn declaration(&mut self) -> (r: Result<Statement, ParseError>)
        requires
            old(self).wf(),
        ensures
            stepped(*old(self), *final(self), r is Ok),
            gives_stmt(r, *final(self), declaration_g(old(self).stream(), old(self).pos())),
        decreases self.stream().len() - self.pos(), 50nat,
    {
        if self.match_token(TokenType::Var) {
            self.var_declaration()
        } else if self.match_token(TokenType::Fun) {
            self.function()
        } else {
            self.statement()
        }
    }

    fn function(&mut self) -> (r: Result<Statement, ParseError>)
        requires
            old(self).wf(),
        ensures
            stepped(*old(self), *final(self), r is Ok),
            gives_stmt(r, *final(self), function_g(old(self).stream(), old(self).pos())),
        decreases self.stream().len() - self.pos(), 30nat,
    {
        proof {
            reveal_strlit("Expect function name.");
            reveal_strlit("Expect '(' after function name.");
            reveal_strlit("Cannot have more than 8 parameters.");
            reveal_strlit("Expect parameter name.");
            reveal_strlit("Expect ')' after parameters.");
            reveal_strlit("Expect '{' before function body.");
        }
        let ghost first_pos = old(self).pos();
        let name = match self.consume(TokenType::Identifier, "Expect function name.") {
            Ok(t) => t,
            Err(x) => return Err(x),
        };
        match self.consume(TokenType::LeftParen, "Expect '(' after function name.") {
            Ok(_) => {},
            Err(x) => return Err(x),
        }
        let mut parameters: Vec<Token> = Vec::new();
        if !self.check(TokenType::RightParen) {
            loop
                invariant_except_break
                    function_g(self.stream(), first_pos) == parameters_g(self.stream(), self.pos(), name, parameters@),
                invariant
                    self.wf(),
                    self.stream() == old(self).stream(),
                    first_pos == old(self).pos(),
                    old(self).pos() < self.pos(),
                ensures
                    function_g(self.stream(), first_pos) == function_body_g(self.stream(), self.pos(), name, parameters@),
                decreases self.stream().len() - self.pos(),
            {
                if parameters.len() >= MAX_ARGS {
                    return Err(self.error_here("Cannot have more than 8 parameters."));
                }
                let p = match self.consume(TokenType::Identifier, "Expect parameter name.") {
                    Ok(t) => t,
                    Err(x) => return Err(x),
                };
                parameters.push(p);
                if !self.match_token(TokenType::Comma) {
                    break;
                }
            }
        }
        match self.consume(TokenType::RightParen, "Expect ')' after parameters.") {
            Ok(_) => {},
            Err(x) => return Err(x),
        }
        match self.consume(TokenType::LeftBrace, "Expect '{' before function body.") {
            Ok(_) => {},
            Err(x) => return Err(x),
        }
        let body = match self.block() {
            Ok(b) => b,
            Err(x) => return Err(x),
        };
        Ok(Statement::Function(FunctionDeclaration { name, parameters, body }))
    }

    fn var_declaration(&mut self) -> (r: Result<Statement, ParseError>)
        requires
            old(self).wf(),
        ensures
            stepped(*old(self), *final(self), r is Ok),
            gives_stmt(r, *final(self), var_g(old(self).stream(), old(self).pos())),
        decreases self.stream().len() - self.pos(), 30nat,
    {
        proof {
            reveal_strlit("Expect variable name.");
            reveal_strlit("Expect ';' after variable declaration.");
        }
        let name = match self.consume(TokenType::Identifier, "Expect variable name.") {
            Ok(t) => t,
            Err(x) => return Err(x),
        };
        let initializer = if self.match_token(TokenType::Equal) {
            match self.expression() {
                Ok(e) => Some(Box::new(e)),
                Err(x) => return Err(x),
            }
        } else {
            None
        };
        match self.consume(TokenType::Semicolon, "Expect ';' after variable declaration.") {
            Ok(_) => {},
            Err(x) => return Err(x),
        }
        Ok(Statement::Var { name, initializer })
    }

    fn statement(&mut self) -> (r: Result<Statement, ParseError>)
        requires
            old(self).wf(),
        ensures
            stepped(*old(self), *final(self), r is Ok),
            gives_stmt(r, *final(self), statement_g(old(self).stream(), old(self).pos())),
        decreases self.stream().len() - self.pos(), 40nat,
    {
        if self.match_token(TokenType::Print) {
            return self.print_statement();
        }
        if self.match_token(TokenType::Return) {
            return self.return_statement();
        }
        if self.match_token(TokenType::LeftBrace) {
            let statements = match self.block() {
                Ok(b) => b,
                Err(x) => return Err(x),
            };
            return Ok(Statement::Block { statements });
        }
        if self.match_token(TokenType::If) {
            return self.if_statement();
        }
        if self.match_token(TokenType::While) {
            return self.while_statement();
        }
        if self.match_token(TokenType::For) {
            return self.for_statement();
        }
        self.expression_statement()
    }

    #[verifier::rlimit(80)]
    /// Desugars `for (init; cond; incr) body` into
    /// `{ init; while (cond) { body; incr; } }`, as `desugar_for` states.
    fn for_statement(&mut self) -> (r: Result<Statement, ParseError>)
        requires
            old(self).wf(),
            old(self).pos() > 0,
        ensures
            stepped(*old(self), *final(self), r is Ok),
            gives_stmt(r, *final(self), for_g(old(self).stream(), old(self).pos())),
        decreases self.stream().len() - self.pos(), 30nat,
    {
        proof {
            reveal_strlit("Expect '(' after 'for'.");
            reveal_strlit("Expect ';' after loop condition.");
            reveal_strlit("Expect ')' after 'for' clauses.");
        }
        let keyword = self.previous().duplicate();
        match self.consume(TokenType::LeftParen, "Expect '(' after 'for'.") {
            Ok(_) => {},
            Err(x) => return Err(x),
        }
        let initializer = if self.match_token(TokenType::Semicolon) {
            None
        } else if self.match_token(TokenType::Var) {
            match self.var_declaration() {
                Ok(s) => Some(s),
                Err(x) => return Err(x),
            }
        } else {
            match self.expression_statement() {
                Ok(s) => Some(s),
                Err(x) => return Err(x),
            }
        };
        let condition = if !self.check(TokenType::Semicolon) {
            match self.expression() {
                Ok(e) => Some(e),
                Err(x) => return Err(x),
            }
        } else {
            None
        };
        match self.consume(TokenType::Semicolon, "Expect ';' after loop condition.") {
            Ok(_) => {},
            Err(x) => return Err(x),
        }
        let increment = if !self.check(TokenType::RightParen) {
            match self.expression() {
                Ok(e) => Some(e),
                Err(x) => return Err(x),
            }
        } else {
            None
        };
        match self.consume(TokenType::RightParen, "Expect ')' after 'for' clauses.") {
            Ok(_) => {},
            Err(x) => return Err(x),
        }
        let body = match self.statement() {
            Ok(s) => s,
            Err(x) => return Err(x),
        };
        let ghost init_v = opt_sv(initializer);
        let ghost cond_v = opt_ev(condition);
        let ghost incr_v = opt_ev(increment);
        let ghost body_v = sv(body);
        let inner = match increment {
            Some(inc) => {
                let step = Statement::Expression { expression: Box::new(inc) };
                proof { lemma_svs_pair(body, step); }
                Statement::Block { statements: pair(body, step) }
            },
            None => body,
        };
        let cond = match condition {
            Some(c) => c,
            None => Expr::Literal { value: LoxValue::Bool(true), token: keyword },
        };
        let looped = Statement::While { condition: Box::new(cond), body: Box::new(inner) };
        let result = match initializer {
            Some(init) => {
                proof { lemma_svs_pair(init, looped); }
                Statement::Block { statements: pair(init, looped) }
            },
            None => looped,
        };
        proof {
            let inner_v = match incr_v {
                Some(i) => StmtV::Block { statements: seq![body_v, StmtV::Expression { expression: i }] },
                None => body_v,
            };
            let c_v = match cond_v {
                Some(c) => c,
                None => ExprV::Literal { value: LoxValue::Bool(true), token: keyword },
            };
            assert(sv(inner) == inner_v);
            assert(ev(cond) == c_v);
            let looped_v = StmtV::While { condition: c_v, body: Box::new(inner_v) };
            assert(sv(looped) == looped_v);
            assert(sv(result) == match init_v {
                Some(s) => StmtV::Block { statements: seq![s, looped_v] },
                None => looped_v,
            });
        }
        Ok(result)
    }

    fn while_statement(&mut self) -> (r: Result<Statement, ParseError>)
        requires
            old(self).wf(),
        ensures
            stepped(*old(self), *final(self), r is Ok),
            gives_stmt(r, *final(self), while_g(old(self).stream(), old(self).pos())),
        decreases self.stream().len() - self.pos(), 30nat,
    {
        proof {
            reveal_strlit("Expect '(' after 'while'.");
            reveal_strlit("Expect ')' after 'while'.");
        }
        match self.consume(TokenType::LeftParen, "Expect '(' after 'while'.") {
            Ok(_) => {},
            Err(x) => return Err(x),
        }
        let condition = match self.expression() {
            Ok(e) => e,
            Err(x) => return Err(x),
        };
        match self.consume(TokenType::RightParen, "Expect ')' after 'while'.") {
            Ok(_) => {},
            Err(x) => return Err(x),
        }
        let body = match self.statement() {
            Ok(s) => s,
            Err(x) => return Err(x),
        };
        Ok(Statement::While { condition: Box::new(condition), body: Box::new(body) })
    }

    fn block(&mut self) -> (r: Result<Vec<Statement>, ParseError>)
        requires
            old(self).wf(),
            old(self).pos() > 0,
        ensures
            stepped(*old(self), *final(self), r is Ok),
            gives_list(r, *final(self), block_g(old(self).stream(), old(self).pos())),
        decreases self.stream().len() - self.pos(), 60nat,
    {
        proof { reveal_strlit("Expect '}' after block."); }
        let ghost start = old(self).pos();
        let mut statements: Vec<Statement> = Vec::new();
        while !self.check(TokenType::RightBrace) && !self.is_at_end()
            invariant
                self.wf(),
                self.stream() == old(self).stream(),
                start == old(self).pos(),
                old(self).pos() <= self.pos(),
                block_g(self.stream(), start) == block_rest_g(self.stream(), self.pos(), svs(statements@)),
            decreases self.stream().len() - self.pos(),
        {
            let s = match self.declaration() {
                Ok(s) => s,
                Err(x) => return Err(x),
            };
            proof { lemma_svs_push(statements@, s); }
            statements.push(s);
        }
        match self.consume(TokenType::RightBrace, "Expect '}' after block.") {
            Ok(_) => {},
            Err(x) => return Err(x),
        }
        Ok(statements)
    }

    fn print_statement(&mut self) -> (r: Result<Statement, ParseError>)
        requires
            old(self).wf(),
        ensures
            stepped(*old(self), *final(self), r is Ok),
            gives_stmt(r, *final(self), print_g(old(self).stream(), old(self).pos())),
        decreases self.stream().len() - self.pos(), 30nat,
    {
        proof { reveal_strlit("Expect ';' after statement."); }
        let expression = match self.expression() {
            Ok(e) => e,
            Err(x) => return Err(x),
        };
        match self.consume(TokenType::Semicolon, "Expect ';' after statement.") {
            Ok(_) => {},
            Err(x) => return Err(x),
        }
        Ok(Statement::Print { expression: Box::new(expression) })
    }

    fn return_statement(&mut self) -> (r: Result<Statement, ParseError>)
        requires
            old(self).wf(),
            old(self).pos() > 0,
        ensures
            stepped(*old(self), *final(self), r is Ok),
            gives_stmt(r, *final(self), return_g(old(self).stream(), old(self).pos())),
        decreases self.stream().len() - self.pos(), 30nat,
    {
        proof { reveal_strlit("Expect ';' after return value."); }
        let keyword = self.previous().duplicate();
        let value = if !self.check(TokenType::Semicolon) {
            match self.expression() {
                Ok(e) => Some(Box::new(e)),
                Err(x) => return Err(x),
            }
        } else {
            None
        };
        match self.consume(TokenType::Semicolon, "Expect ';' after return value.") {
            Ok(_) => {},
            Err(x) => return Err(x),
        }
        Ok(Statement::Return { keyword, value })
    }

    fn if_statement(&mut self) -> (r: Result<Statement, ParseError>)
        requires
            old(self).wf(),
        ensures
            stepped(*old(self), *final(self), r is Ok),
            gives_stmt(r, *final(self), if_g(old(self).stream(), old(self).pos())),
        decreases self.stream().len() - self.pos(), 30nat,
    {
        proof {
            reveal_strlit("Expect '(' before 'if'.");
            reveal_strlit("Expect ')' after 'if'.");
        }
        match self.consume(TokenType::LeftParen, "Expect '(' before 'if'.") {
            Ok(_) => {},
            Err(x) => return Err(x),
        }
        let condition = match self.expression() {
            Ok(e) => e,
            Err(x) => return Err(x),
        };
        match self.consume(TokenType::RightParen, "Expect ')' after 'if'.") {
            Ok(_) => {},
            Err(x) => return Err(x),
        }
        let then_branch = match self.statement() {
            Ok(s) => Box::new(s),
            Err(x) => return Err(x),
        };
        let else_branch = if self.match_token(TokenType::Else) {
            match self.statement() {
                Ok(s) => Some(Box::new(s)),
                Err(x) => return Err(x),
            }
        } else {
            None
        };
        Ok(Statement::If { condition: Box::new(condition), then_branch, else_branch })
    }

    fn expression_statement(&mut self) -> (r: Result<Statement, ParseError>)
        requires
            old(self).wf(),
        ensures
            stepped(*old(self), *final(self), r is Ok),
            gives_stmt(r, *final(self), expression_statement_g(old(self).stream(), old(self).pos())),
        decreases self.stream().len() - self.pos(), 20nat,
    {
        proof { reveal_strlit("Expect ';' after statement."); }
        let expression = match self.expression() {
            Ok(e) => e,
            Err(x) => return Err(x),
        };
        match self.consume(TokenType::Semicolon, "Expect ';' after statement.") {
            Ok(_) => {},
            Err(x) => return Err(x),
        }
        Ok(Statement::Expression { expression: Box::new(expression) })
    }
}

} // verus!
