use vstd::prelude::*;
use crate::ast::{Expr, Statement};
use crate::host::{Answer, NumberOp, Query};
use crate::environment::EnvState;
use crate::interpreter::{bind, call, eval, exec, exec_list, with_env, ErrorV, IState};
use crate::lox_value::{truthy, Callable, Val};
use crate::operators::{binary_spec, numeric_only, operands_message, OutcomeV};
use crate::resolver::{duplicate_message, res_list, self_read_message, ErrorV as ResolveError, ScopeV};
use crate::token::{Token, TokenType};
use crate::grammar::{call_g, call_rest_g, chain_g, chain_rest_g, expression_g, primary_g, unary_g, ExprV};

verus! {

/// `-`, `/`, `*`, `>`, `>=`, `<` and `<=` on operands that are not both
/// numbers give a type error.
pub proof fn lemma_numeric_operators_need_numbers(op: TokenType, l: Val, r: Val)
    requires
        numeric_only(op),
        !(l is Number && r is Number),
    ensures
        binary_spec(op, l, r) == OutcomeV::TypeError(operands_message("numbers"@, l, r)),
{
}

/// Evaluating such an operator on operands that are not both numbers fails
/// with a runtime error at the operator.
pub proof fn lemma_binary_type_mismatch(st: IState, e: Expr, ans: spec_fn(Query) -> Answer, fuel: nat)
    requires
        e is Binary,
        fuel > 0,
        numeric_only(e->Binary_operator.token_type),
        eval(st, *e->Binary_left, ans, (fuel - 1) as nat).1 is Ok,
        eval(eval(st, *e->Binary_left, ans, (fuel - 1) as nat).0, *e->Binary_right, ans, (fuel - 1) as nat).1 is Ok,
        !(eval(st, *e->Binary_left, ans, (fuel - 1) as nat).1->Ok_0 is Number
            && eval(eval(st, *e->Binary_left, ans, (fuel - 1) as nat).0, *e->Binary_right, ans, (fuel - 1) as nat).1->Ok_0 is Number),
    ensures
        eval(st, e, ans, fuel).1 matches Err(ErrorV::Runtime { token, .. }) && token == e->Binary_operator,
{
    let f = (fuel - 1) as nat;
    let (s1, r1) = eval(st, *e->Binary_left, ans, f);
    let (s2, r2) = eval(s1, *e->Binary_right, ans, f);
    lemma_numeric_operators_need_numbers(e->Binary_operator.token_type, r1->Ok_0, r2->Ok_0);
}

/// Nil and `false` are the only falsy values: every number (zero too) and
/// every string (the empty one too) is truthy.
pub proof fn lemma_truthiness(v: Val)
    ensures
        !truthy(v) <==> (v == Val::Nil || v == Val::Bool(false)),
        v is Number ==> truthy(v),
        v is Str ==> truthy(v),
{
}

/// `or` and `and` give back the operand that decides them: the left one,
/// unevaluated right side, when it decides; else whatever the right one
/// evaluates to.
pub proof fn lemma_logical_returns_operand(st: IState, e: Expr, ans: spec_fn(Query) -> Answer, fuel: nat)
    requires
        e is Logical,
        fuel > 0,
        e->Logical_operator.token_type == TokenType::Or || e->Logical_operator.token_type == TokenType::And,
        eval(st, *e->Logical_left, ans, (fuel - 1) as nat).1 is Ok,
    ensures
        ({
            let (s1, r1) = eval(st, *e->Logical_left, ans, (fuel - 1) as nat);
            let l = r1->Ok_0;
            let is_or = e->Logical_operator.token_type == TokenType::Or;
            &&& (is_or && truthy(l)) || (!is_or && !truthy(l)) ==> eval(st, e, ans, fuel) == (s1, Ok::<Val, ErrorV>(l))
            &&& (is_or && !truthy(l)) || (!is_or && truthy(l)) ==> eval(st, e, ans, fuel) == eval(s1, *e->Logical_right, ans, (fuel - 1) as nat)
        }),
{
}

/// `+` joins two strings, asks the host to add two numbers, and fails on a
/// string and a number.
pub proof fn lemma_plus(a: Seq<char>, b: Seq<char>, x: u64, y: u64)
    ensures
        binary_spec(TokenType::Plus, Val::Str(a), Val::Str(b)) == OutcomeV::Value(Val::Str(a + b)),
        binary_spec(TokenType::Plus, Val::Number(x), Val::Number(y)) == (OutcomeV::Ask {
            query: Query::Binary { op: NumberOp::Add, left: x, right: y },
            negate: false,
        }),
        binary_spec(TokenType::Plus, Val::Str(a), Val::Number(x)) is TypeError,
        binary_spec(TokenType::Plus, Val::Number(x), Val::Str(a)) is TypeError,
{
}

/// Declaring one name twice in the same local scope is an error at the
/// second declaration.
pub proof fn lemma_redeclaration_rejected(sc: Seq<ScopeV>, in_fn: bool, a: Token, b: Token)
    requires
        a.lexeme@ == b.lexeme@,
    ensures
        res_list(
            sc.push(Seq::empty()),
            in_fn,
            seq![Statement::Var { name: a, initializer: None }, Statement::Var { name: b, initializer: None }],
            0,
        ) == Err::<Seq<ScopeV>, ResolveError>(ResolveError { token: b, message: duplicate_message() }),
{
    let s0 = sc.push(Seq::empty());
    let stmts = seq![Statement::Var { name: a, initializer: None }, Statement::Var { name: b, initializer: None }];
    reveal_with_fuel(res_list, 3);
    reveal_with_fuel(crate::resolver::find_entry, 2);
    let s1 = s0.update(s0.len() - 1, s0.last().push((a.lexeme@, false)));
    let s2 = s1.update(s1.len() - 1, s1.last().update(0, (a.lexeme@, true)));
    assert(s1.last() == seq![(a.lexeme@, false)]);
    assert(s2.last() == seq![(a.lexeme@, true)]);
    assert(s2.last().drop_last().len() == 0);
}

/// The same name declared again in a nested scope shadows the outer one
/// without error.
pub proof fn lemma_shadowing_allowed(sc: Seq<ScopeV>, in_fn: bool, a: Token, b: Token, inner: Vec<Statement>)
    requires
        a.lexeme@ == b.lexeme@,
        inner@ == seq![Statement::Var { name: b, initializer: None }],
    ensures
        res_list(
            sc.push(Seq::empty()),
            in_fn,
            seq![Statement::Var { name: a, initializer: None }, Statement::Block { statements: inner }],
            0,
        ) is Ok,
{
    reveal_with_fuel(res_list, 3);
    reveal_with_fuel(crate::resolver::find_entry, 2);
    let s0 = sc.push(Seq::empty());
    let s1 = s0.update(s0.len() - 1, s0.last().push((a.lexeme@, false)));
    let s2 = s1.update(s1.len() - 1, s1.last().update(0, (a.lexeme@, true)));
    assert(s1.last() == seq![(a.lexeme@, false)]);
    let s3 = s2.push(Seq::empty());
    assert(s3.last().len() == 0);
    let s4 = s3.update(s3.len() - 1, s3.last().push((b.lexeme@, false)));
    assert(s4.last() == seq![(b.lexeme@, false)]);
    let s5 = s4.update(s4.len() - 1, s4.last().update(0, (b.lexeme@, true)));
    let vb = Statement::Var { name: b, initializer: None };
    assert(crate::resolver::declare(s3, b) == Ok::<Seq<ScopeV>, ResolveError>(s4));
    assert(crate::resolver::res_stmt(s3, in_fn, vb) == Ok::<Seq<ScopeV>, ResolveError>(s5));
    assert(res_list(s5, in_fn, inner@, 1) == Ok::<Seq<ScopeV>, ResolveError>(s5));
    assert(res_list(s3, in_fn, inner@, 0) == Ok::<Seq<ScopeV>, ResolveError>(s5));
    assert(crate::resolver::res_stmt(s2, in_fn, Statement::Block { statements: inner }) is Ok);
}

/// A local variable read in its own initializer is an error at the read.
pub proof fn lemma_self_initializer_rejected(sc: Seq<ScopeV>, in_fn: bool, a: Token, init: Box<Expr>)
    requires
        *init matches Expr::Variable { name } && name.lexeme@ == a.lexeme@,
    ensures
        res_list(sc.push(Seq::empty()), in_fn, seq![Statement::Var { name: a, initializer: Some(init) }], 0)
            == Err::<Seq<ScopeV>, ResolveError>(ResolveError { token: init->Variable_name, message: self_read_message() }),
{
    reveal_with_fuel(res_list, 2);
    reveal_with_fuel(crate::resolver::find_entry, 2);
    let s0 = sc.push(Seq::empty());
    let s1 = s0.update(s0.len() - 1, s0.last().push((a.lexeme@, false)));
    assert(s1.last() == seq![(a.lexeme@, false)]);
}

/// Binding parameters defines names in the innermost frame only: the stack
/// and every other frame stay as they were.
pub proof fn lemma_bind_touches_top_only(env: EnvState, params: Seq<Token>, args: Seq<Val>, i: int)
    requires
        env.stack.len() > 0,
        env.stack.last() < env.frames.len(),
    ensures
        bind(env, params, args, i).stack == env.stack,
        bind(env, params, args, i).frames.len() == env.frames.len(),
        forall|j: int| 0 <= j < env.frames.len() && j != env.stack.last() ==> #[trigger] bind(env, params, args, i).frames[j]
            == env.frames[j],
    decreases params.len() - i,
{
    if !(i < 0 || i >= params.len() || i >= args.len()) {
        let next = env.defined(params[i].lexeme@, args[i]);
        lemma_bind_touches_top_only(next, params, args, i + 1);
    }
}

/// Declaring a function records the active frames themselves (not a copy
/// of their values) as its closure, and binds its name in the innermost
/// scope to the new function.
pub proof fn lemma_function_captures_scope(st: IState, s: Statement, ans: spec_fn(Query) -> Answer, fuel: nat)
    requires
        s is Function,
        fuel > 0,
        st.functions.len() < usize::MAX,
        st.env.stack.len() > 0,
        st.env.stack.last() < st.env.frames.len(),
    ensures
        ({
            let (s1, r) = exec(st, s, ans, fuel);
            &&& r is Ok
            &&& s1.functions.len() == st.functions.len() + 1
            &&& s1.functions.last().closure == st.env.stack
            &&& s1.env.stack == st.env.stack
            &&& s1.env.lookup(s->Function_0.name.lexeme@) == Some(Val::Fn(Callable::Function(st.functions.len() as usize)))
        }),
{
    let name = s->Function_0.name.lexeme@;
    let v = Val::Fn(Callable::Function(st.functions.len() as usize));
    let e1 = st.env.defined(name, v);
    let top = st.env.stack.last() as int;
    assert(e1.frames[top].last().name == name);
    assert(crate::environment::slot_in(e1.frames[top], name) == Some(e1.frames[top].len() - 1));
}

/// A call runs the body on top of the function's closure: the active frames
/// are the captured ones plus one fresh frame for the parameters, and every
/// frame that existed before the call is the caller's own, shared.
pub proof fn lemma_call_shares_frames(st: IState, i: usize, args: Seq<Val>, paren: Token, ans: spec_fn(Query) -> Answer, fuel: nat)
    requires
        i < st.functions.len(),
        args.len() == st.functions[i as int].declaration.parameters@.len(),
        fuel > 0,
        st.env.frames.len() < usize::MAX,
    ensures
        ({
            let fe = st.functions[i as int];
            let env1 = bind(st.env.with_stack(fe.closure).pushed(), fe.declaration.parameters@, args, 0);
            &&& env1.stack == fe.closure.push(st.env.frames.len() as usize)
            &&& env1.frames.len() == st.env.frames.len() + 1
            &&& forall|j: int| 0 <= j < st.env.frames.len() ==> #[trigger] env1.frames[j] == st.env.frames[j]
            &&& call(st, Val::Fn(Callable::Function(i)), args, paren, ans, fuel) == ({
                let (s2, r) = exec_list(with_env(st, env1), fe.declaration.body@, 0, ans, (fuel - 1) as nat);
                let s3 = with_env(s2, s2.env.with_stack(st.env.stack));
                match r {
                    Ok(_) => (s3, Ok(Val::Nil)),
                    Err(ErrorV::Return { value, .. }) => (s3, Ok(value)),
                    Err(x) => (s3, Err(x)),
                }
            })
        }),
{
    let fe = st.functions[i as int];
    let e0 = st.env.with_stack(fe.closure).pushed();
    assert(e0.stack.last() == st.env.frames.len());
    lemma_bind_touches_top_only(e0, fe.declaration.parameters@, args, 0);
}

/// A block runs in a scope of its own: whatever it declares, the active
/// scopes after it are those before it.
pub proof fn lemma_block_restores_scope(st: IState, s: Statement, ans: spec_fn(Query) -> Answer, fuel: nat)
    requires
        s is Block,
        fuel > 0,
    ensures
        exec(st, s, ans, fuel).0.env.stack == st.env.stack,
{
}

/// A number token followed by an operator token is a unary operand of its
/// own.
proof fn lemma_number_operand(toks: Seq<Token>, i: int)
    requires
        0 <= i,
        i + 1 < toks.len(),
        toks[i].token_type == TokenType::Number,
        toks[i + 1].token_type != TokenType::LeftParen,
    ensures
        unary_g(toks, i) == Ok::<(ExprV, int), crate::grammar::PErr>((ExprV::Literal { value: toks[i].literal, token: toks[i] }, i + 1)),
{
    let lit = ExprV::Literal { value: toks[i].literal, token: toks[i] };
    assert(primary_g(toks, i) == Ok::<(ExprV, int), crate::grammar::PErr>((lit, i + 1)));
    assert(call_rest_g(toks, i + 1, lit) == Ok::<(ExprV, int), crate::grammar::PErr>((lit, i + 1)));
    assert(call_g(toks, i) == Ok::<(ExprV, int), crate::grammar::PErr>((lit, i + 1)));
}

/// In `a + b * c` the product binds tighter: the expression is
/// `a + (b * c)`, whatever the three number tokens.
#[verifier::rlimit(100)]
pub proof fn lemma_product_binds_tighter(toks: Seq<Token>)
    requires
        toks.len() == 7,
        toks[0].token_type == TokenType::Number,
        toks[1].token_type == TokenType::Plus,
        toks[2].token_type == TokenType::Number,
        toks[3].token_type == TokenType::Star,
        toks[4].token_type == TokenType::Number,
        toks[5].token_type == TokenType::Semicolon,
        toks[6].token_type == TokenType::Eof,
    ensures
        expression_g(toks, 0) == Ok::<(ExprV, int), crate::grammar::PErr>((
            ExprV::Binary {
                left: Box::new(ExprV::Literal { value: toks[0].literal, token: toks[0] }),
                operator: toks[1],
                right: Box::new(ExprV::Binary {
                    left: Box::new(ExprV::Literal { value: toks[2].literal, token: toks[2] }),
                    operator: toks[3],
                    right: Box::new(ExprV::Literal { value: toks[4].literal, token: toks[4] }),
                }),
            },
            5,
        )),
{
    let lit0 = ExprV::Literal { value: toks[0].literal, token: toks[0] };
    let lit2 = ExprV::Literal { value: toks[2].literal, token: toks[2] };
    let lit4 = ExprV::Literal { value: toks[4].literal, token: toks[4] };
    lemma_number_operand(toks, 0);
    lemma_number_operand(toks, 2);
    lemma_number_operand(toks, 4);
    let prod = ExprV::Binary { left: Box::new(lit2), operator: toks[3], right: Box::new(lit4) };
    assert(chain_rest_g(toks, 5, prod, 5) == Ok::<(ExprV, int), crate::grammar::PErr>((prod, 5)));
    assert(chain_rest_g(toks, 3, lit2, 5) == Ok::<(ExprV, int), crate::grammar::PErr>((prod, 5)));
    assert(chain_g(toks, 2, 5) == Ok::<(ExprV, int), crate::grammar::PErr>((prod, 5)));
    assert(chain_rest_g(toks, 1, lit0, 5) == Ok::<(ExprV, int), crate::grammar::PErr>((lit0, 1)));
    assert(chain_g(toks, 0, 5) == Ok::<(ExprV, int), crate::grammar::PErr>((lit0, 1)));
    let sum = ExprV::Binary { left: Box::new(lit0), operator: toks[1], right: Box::new(prod) };
    assert(chain_rest_g(toks, 5, sum, 6) == Ok::<(ExprV, int), crate::grammar::PErr>((sum, 5)));
    assert(chain_rest_g(toks, 1, lit0, 6) == Ok::<(ExprV, int), crate::grammar::PErr>((sum, 5)));
    assert(chain_g(toks, 0, 6) == Ok::<(ExprV, int), crate::grammar::PErr>((sum, 5)));
    assert(chain_rest_g(toks, 5, sum, 7) == Ok::<(ExprV, int), crate::grammar::PErr>((sum, 5)));
    assert(chain_g(toks, 0, 7) == Ok::<(ExprV, int), crate::grammar::PErr>((sum, 5)));
    assert(chain_rest_g(toks, 5, sum, 8) == Ok::<(ExprV, int), crate::grammar::PErr>((sum, 5)));
    assert(chain_g(toks, 0, 8) == Ok::<(ExprV, int), crate::grammar::PErr>((sum, 5)));
    assert(chain_rest_g(toks, 5, sum, 9) == Ok::<(ExprV, int), crate::grammar::PErr>((sum, 5)));
    assert(chain_g(toks, 0, 9) == Ok::<(ExprV, int), crate::grammar::PErr>((sum, 5)));
    assert(chain_rest_g(toks, 5, sum, 10) == Ok::<(ExprV, int), crate::grammar::PErr>((sum, 5)));
    assert(chain_g(toks, 0, 10) == Ok::<(ExprV, int), crate::grammar::PErr>((sum, 5)));
}

} // verus!
