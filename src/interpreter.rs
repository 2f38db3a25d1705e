use vstd::prelude::*;
use crate::ast::{Expr, FunctionDeclaration, Program, Statement};
use crate::environment::{valid_stack, BindingV, EnvState, Environment};
use crate::host::{answers_as, answer_of, ask, host_ready, lemma_host_answers, Answer, Query};
use crate::lox_function::{FnEntry, LoxFunction};
use crate::lox_value::{truthy, Callable, LoxValue, Val};
use crate::operators::{binary_outcome, binary_spec, numeric_only, operands_message, Outcome, OutcomeV};
use crate::std_fns::Clock;
use crate::laws::lemma_numeric_operators_need_numbers;
use crate::token::{Token, TokenType};

verus! {

/// Why execution stopped early.  `Return` is the signal that a `return`
/// statement sends to the nearest function call.
#[derive(Debug)]
pub enum Error {
    Return { keyword: Token, value: LoxValue },
    RuntimeError { token: Token, message: String },
    /// The fuel given to `interpret` ran out.
    LimitReached,
}

/// The model of an `Error`.
pub enum ErrorV {
    Return { keyword: Token, value: Val },
    Runtime { token: Token, message: Seq<char> },
    LimitReached,
}

impl View for Error {
    type V = ErrorV;

    open spec fn view(&self) -> ErrorV {
        match self {
            Error::Return { keyword, value } => ErrorV::Return { keyword: *keyword, value: value@ },
            Error::RuntimeError { token, message } => ErrorV::Runtime { token: *token, message: message@ },
            Error::LimitReached => ErrorV::LimitReached,
        }
    }
}

/// A printed line: text, or a number for the host to render.
#[derive(Debug)]
pub enum Printed {
    Text(String),
    Number(u64),
}

/// The model of a printed line.
pub enum PrintedV {
    Text(Seq<char>),
    Number(u64),
}

impl View for Printed {
    type V = PrintedV;

    open spec fn view(&self) -> PrintedV {
        match self {
            Printed::Text(s) => PrintedV::Text(s@),
            Printed::Number(n) => PrintedV::Number(*n),
        }
    }
}

/// The state of an interpreter: its scopes, the functions created so far,
/// what it printed, and how often it read the clock.
pub struct IState {
    pub env: EnvState,
    pub functions: Seq<FnEntry>,
    pub output: Seq<PrintedV>,
    pub clock_reads: usize,
}

impl IState {
    /// Every active frame and every frame a function captured exists.
    pub open spec fn inv(self) -> bool {
        &&& self.env.wf()
        &&& forall|k: int| 0 <= k < self.functions.len()
            ==> valid_stack(self.env.frames.len() as int, #[trigger] self.functions[k].closure)
    }
}

/// `b` keeps the invariant, and its arena holds every frame of `a`'s.
pub open spec fn kept(a: IState, b: IState) -> bool {
    b.inv() && a.env.frames.len() <= b.env.frames.len()
}

pub open spec fn with_env(st: IState, env: EnvState) -> IState {
    IState { env, ..st }
}

pub open spec fn value_result(r: Result<LoxValue, Error>) -> Result<Val, ErrorV> {
    match r {
        Ok(v) => Ok(v@),
        Err(e) => Err(e@),
    }
}

pub open spec fn unit_result(r: Result<(), Error>) -> Result<(), ErrorV> {
    match r {
        Ok(_) => Ok(()),
        Err(e) => Err(e@),
    }
}

pub open spec fn undefined_message(name: Seq<char>) -> Seq<char> {
    "Undefined variable "@ + name + "."@
}

/// What a host answer means, negated when the operator was `!=`.
pub open spec fn asked(a: Answer, negate: bool) -> Val {
    match a {
        Answer::Bool(b) => Val::Bool(b != negate),
        Answer::Number(n) => Val::Number(n),
    }
}

/// How a value is printed.
pub open spec fn display(st: IState, v: Val) -> PrintedV {
    match v {
        Val::Str(s) => PrintedV::Text(s),
        Val::Number(n) => PrintedV::Number(n),
        Val::Bool(b) => PrintedV::Text(if b { "true"@ } else { "false"@ }),
        Val::Nil => PrintedV::Text("nil"@),
        Val::Fn(Callable::Clock) => PrintedV::Text("<fn clock>"@),
        Val::Fn(Callable::Function(i)) => if i < st.functions.len() {
            PrintedV::Text("<fn "@ + st.functions[i as int].declaration.name.lexeme@ + ">"@)
        } else {
            PrintedV::Text("<fn>"@)
        },
    }
}

/// The parameters bound, from the `i`-th on, to the arguments.
pub open spec fn bind(env: EnvState, params: Seq<Token>, args: Seq<Val>, i: int) -> EnvState
    decreases params.len() - i,
{
    if i < 0 || i >= params.len() || i >= args.len() {
        env
    } else {
        bind(env.defined(params[i].lexeme@, args[i]), params, args, i + 1)
    }
}

/// The value of `e` in state `st`, and the state after it; `ans` answers
/// the questions on numbers, `fuel` bounds the nesting of evaluation.
pub open spec fn eval(st: IState, e: Expr, ans: spec_fn(Query) -> Answer, fuel: nat) -> (IState, Result<Val, ErrorV>)
    decreases fuel, 0nat,
{
    if fuel == 0 {
        (st, Err(ErrorV::LimitReached))
    } else {
        let f = (fuel - 1) as nat;
        match e {
            Expr::Literal { value, .. } => (st, Ok(value@)),
            Expr::Grouping { expression, .. } => eval(st, *expression, ans, f),
            Expr::Variable { name } => match st.env.lookup(name.lexeme@) {
                Some(v) => (st, Ok(v)),
                None => (st, Err(ErrorV::Runtime { token: name, message: undefined_message(name.lexeme@) })),
            },
            Expr::Assign { name, value } => {
                let (s1, r) = eval(st, *value, ans, f);
                match r {
                    Err(x) => (s1, Err(x)),
                    Ok(v) => if s1.env.locate(name.lexeme@) is Some {
                        (with_env(s1, s1.env.assigned(name.lexeme@, v)), Ok(v))
                    } else {
                        (s1, Err(ErrorV::Runtime { token: name, message: undefined_message(name.lexeme@) }))
                    },
                }
            },
            Expr::Unary { right, operator } => {
                let (s1, r) = eval(st, *right, ans, f);
                match r {
                    Err(x) => (s1, Err(x)),
                    Ok(v) => if operator.token_type == TokenType::Bang {
                        (s1, Ok(Val::Bool(!truthy(v))))
                    } else {
                        match v {
                            Val::Number(n) => (s1, Ok(asked(ans(Query::Negate(n)), false))),
                            _ => (s1, Err(ErrorV::Runtime { token: operator, message: "Operand must be a number."@ })),
                        }
                    },
                }
            },
            Expr::Binary { left, right, operator } => {
                let (s1, r1) = eval(st, *left, ans, f);
                match r1 {
                    Err(x) => (s1, Err(x)),
                    Ok(l) => {
                        let (s2, r2) = eval(s1, *right, ans, f);
                        match r2 {
                            Err(x) => (s2, Err(x)),
                            Ok(r) => match binary_spec(operator.token_type, l, r) {
                                OutcomeV::Value(v) => (s2, Ok(v)),
                                OutcomeV::Ask { query, negate } => (s2, Ok(asked(ans(query), negate))),
                                OutcomeV::TypeError(m) => (s2, Err(ErrorV::Runtime { token: operator, message: m })),
                            },
                        }
                    },
                }
            },
            Expr::Logical { left, right, operator } => {
                let (s1, r1) = eval(st, *left, ans, f);
                match r1 {
                    Err(x) => (s1, Err(x)),
                    Ok(l) => if (operator.token_type == TokenType::Or) == truthy(l) {
                        (s1, Ok(l))
                    } else {
                        eval(s1, *right, ans, f)
                    },
                }
            },
            Expr::Call { callee, paren, arguments } => {
                let (s1, r1) = eval(st, *callee, ans, f);
                match r1 {
                    Err(x) => (s1, Err(x)),
                    Ok(c) => {
                        let (s2, r2) = eval_args(s1, arguments@, 0, Seq::empty(), ans, f);
                        match r2 {
                            Err(x) => (s2, Err(x)),
                            Ok(args) => call(s2, c, args, paren, ans, f),
                        }
                    },
                }
            },
        }
    }
}

/// The values of the arguments from the `i`-th on, appended to `acc`.
pub open spec fn eval_args(st: IState, args: Seq<Expr>, i: int, acc: Seq<Val>, ans: spec_fn(Query) -> Answer, fuel: nat) -> (IState, Result<Seq<Val>, ErrorV>)
    decreases fuel, args.len() - i,
{
    if i < 0 || i >= args.len() {
        (st, Ok(acc))
    } else if fuel == 0 {
        (st, Err(ErrorV::LimitReached))
    } else {
        let (s1, r) = eval(st, args[i], ans, (fuel - 1) as nat);
        match r {
            Err(x) => (s1, Err(x)),
            Ok(v) => eval_args(s1, args, i + 1, acc.push(v), ans, fuel),
        }
    }
}

/// The result of calling `c` with `args`.
pub open spec fn call(st: IState, c: Val, args: Seq<Val>, paren: Token, ans: spec_fn(Query) -> Answer, fuel: nat) -> (IState, Result<Val, ErrorV>)
    decreases fuel, 0nat,
{
    match c {
        Val::Fn(Callable::Clock) => if args.len() != 0 {
            (st, Err(ErrorV::Runtime { token: paren, message: "Wrong number of arguments."@ }))
        } else {
            let reads = if st.clock_reads < usize::MAX { (st.clock_reads + 1) as usize } else { st.clock_reads };
            (IState { clock_reads: reads, ..st }, Ok(asked(ans(Query::Clock(st.clock_reads)), false)))
        },
        Val::Fn(Callable::Function(i)) => if i >= st.functions.len() {
            (st, Err(ErrorV::Runtime { token: paren, message: "Expression is not callable"@ }))
        } else {
            let fe = st.functions[i as int];
            let params = fe.declaration.parameters@;
            if args.len() != params.len() {
                (st, Err(ErrorV::Runtime { token: paren, message: "Wrong number of arguments."@ }))
            } else if fuel == 0 {
                (st, Err(ErrorV::LimitReached))
            } else {
                let s1 = with_env(st, bind(st.env.with_stack(fe.closure).pushed(), params, args, 0));
                let (s2, r) = exec_list(s1, fe.declaration.body@, 0, ans, (fuel - 1) as nat);
                let s3 = with_env(s2, s2.env.with_stack(st.env.stack));
                match r {
                    Ok(_) => (s3, Ok(Val::Nil)),
                    Err(ErrorV::Return { value, .. }) => (s3, Ok(value)),
                    Err(x) => (s3, Err(x)),
                }
            }
        },
        _ => (st, Err(ErrorV::Runtime { token: paren, message: "Expression is not callable"@ })),
    }
}

/// Runs the statements from the `i`-th on, in order, stopping at the first
/// that does not complete normally.
pub open spec fn exec_list(st: IState, stmts: Seq<Statement>, i: int, ans: spec_fn(Query) -> Answer, fuel: nat) -> (IState, Result<(), ErrorV>)
    decreases fuel, stmts.len() - i,
{
    if i < 0 || i >= stmts.len() {
        (st, Ok(()))
    } else if fuel == 0 {
        (st, Err(ErrorV::LimitReached))
    } else {
        let (s1, r) = exec(st, stmts[i], ans, (fuel - 1) as nat);
        match r {
            Err(x) => (s1, Err(x)),
            Ok(_) => exec_list(s1, stmts, i + 1, ans, fuel),
        }
    }
}

/// Runs a `while` loop.
pub open spec fn exec_while(st: IState, cond: Expr, body: Statement, ans: spec_fn(Query) -> Answer, fuel: nat) -> (IState, Result<(), ErrorV>)
    decreases fuel, 0nat,
{
    if fuel == 0 {
        (st, Err(ErrorV::LimitReached))
    } else {
        let f = (fuel - 1) as nat;
        let (s1, r) = eval(st, cond, ans, f);
        match r {
            Err(x) => (s1, Err(x)),
            Ok(c) => if !truthy(c) {
                (s1, Ok(()))
            } else {
                let (s2, r2) = exec(s1, body, ans, f);
                match r2 {
                    Err(x) => (s2, Err(x)),
                    Ok(_) => exec_while(s2, cond, body, ans, f),
                }
            },
        }
    }
}

/// Runs one statement.
pub open spec fn exec(st: IState, s: Statement, ans: spec_fn(Query) -> Answer, fuel: nat) -> (IState, Result<(), ErrorV>)
    decreases fuel, 0nat,
{
    if fuel == 0 {
        (st, Err(ErrorV::LimitReached))
    } else {
        let f = (fuel - 1) as nat;
        match s {
            Statement::Block { statements } => {
                let (s1, r) = exec_list(with_env(st, st.env.pushed()), statements@, 0, ans, f);
                (with_env(s1, s1.env.with_stack(st.env.stack)), r)
            },
            Statement::Expression { expression } => {
                let (s1, r) = eval(st, *expression, ans, f);
                match r {
                    Err(x) => (s1, Err(x)),
                    Ok(_) => (s1, Ok(())),
                }
            },
            Statement::Function(decl) => {
                let id = st.functions.len();
                let s1 = IState {
                    functions: st.functions.push(FnEntry { declaration: decl, closure: st.env.stack }),
                    ..st
                };
                if id < usize::MAX {
                    (with_env(s1, s1.env.defined(decl.name.lexeme@, Val::Fn(Callable::Function(id as usize)))), Ok(()))
                } else {
                    (st, Err(ErrorV::LimitReached))
                }
            },
            Statement::If { condition, then_branch, else_branch } => {
                let (s1, r) = eval(st, *condition, ans, f);
                match r {
                    Err(x) => (s1, Err(x)),
                    Ok(c) => if truthy(c) {
                        exec(s1, *then_branch, ans, f)
                    } else {
                        match else_branch {
                            Some(b) => exec(s1, *b, ans, f),
                            None => (s1, Ok(())),
                        }
                    },
                }
            },
            Statement::Print { expression } => {
                let (s1, r) = eval(st, *expression, ans, f);
                match r {
                    Err(x) => (s1, Err(x)),
                    Ok(v) => (IState { output: s1.output.push(display(s1, v)), ..s1 }, Ok(())),
                }
            },
            Statement::Return { keyword, value } => match value {
                None => (st, Err(ErrorV::Return { keyword, value: Val::Nil })),
                Some(e) => {
                    let (s1, r) = eval(st, *e, ans, f);
                    match r {
                        Err(x) => (s1, Err(x)),
                        Ok(v) => (s1, Err(ErrorV::Return { keyword, value: v })),
                    }
                },
            },
            Statement::Var { name, initializer } => match initializer {
                None => (with_env(st, st.env.defined(name.lexeme@, Val::Nil)), Ok(())),
                Some(e) => {
                    let (s1, r) = eval(st, *e, ans, f);
                    match r {
                        Err(x) => (s1, Err(x)),
                        Ok(v) => (with_env(s1, s1.env.defined(name.lexeme@, v)), Ok(())),
                    }
                },
            },
            Statement::While { condition, body } => exec_while(st, *condition, *body, ans, f),
        }
    }
}

/// What running a program does: its statements in order at top level.  A
/// `return` that reaches the top level is a runtime error.
pub open spec fn run(st: IState, stmts: Seq<Statement>, ans: spec_fn(Query) -> Answer, fuel: nat) -> (IState, Result<(), ErrorV>) {
    let (s1, r) = exec_list(st, stmts, 0, ans, fuel);
    match r {
        Err(ErrorV::Return { keyword, .. }) => (s1, Err(ErrorV::Runtime { token: keyword, message: "Cannot return from top-level code."@ })),
        _ => (s1, r),
    }
}

/// The answers of a host that answers each query as a function of it.
pub open spec fn answers<F: Fn(Query) -> Answer>(host: F) -> spec_fn(Query) -> Answer {
    |q: Query| answer_of(host, q)
}

pub open spec fn values_view(v: Vec<LoxValue>) -> Seq<Val> {
    v@.map_values(|x: LoxValue| x@)
}

pub open spec fn values_result(r: Result<Vec<LoxValue>, Error>) -> Result<Seq<Val>, ErrorV> {
    match r {
        Ok(v) => Ok(values_view(v)),
        Err(e) => Err(e@),
    }
}

pub open spec fn output_view(v: Vec<Printed>) -> Seq<PrintedV> {
    v@.map_values(|p: Printed| p@)
}

fn answer_to_value(a: Answer, negate: bool) -> (r: LoxValue)
    ensures
        r@ == asked(a, negate),
{
    match a {
        Answer::Bool(b) => LoxValue::Bool(b != negate),
        Answer::Number(n) => LoxValue::Number(n),
    }
}

fn text(s: &str) -> (r: String)
    ensures
        r@ == s@,
{
    String::from_str(s)
}

fn undefined(name: &Token) -> (e: Error)
    ensures
        e@ == (ErrorV::Runtime { token: *name, message: undefined_message(name.lexeme@) }),
{
    proof {
        reveal_strlit("Undefined variable ");
        reveal_strlit(".");
    }
    let mut m = String::from_str("Undefined variable ");
    m.append(name.lexeme.as_str());
    m.append(".");
    Error::RuntimeError { token: name.duplicate(), message: m }
}

fn runtime_error(token: &Token, message: &str) -> (e: Error)
    ensures
        e@ == (ErrorV::Runtime { token: *token, message: message@ }),
{
    Error::RuntimeError { token: token.duplicate(), message: text(message) }
}

fn copy_indices(v: &Vec<usize>) -> (r: Vec<usize>)
    ensures
        r@ == v@,
{
    let mut r: Vec<usize> = Vec::new();
    let mut i: usize = 0;
    while i < v.len()
        invariant
            i <= v@.len(),
            r@ =~= v@.subrange(0, i as int),
        decreases v@.len() - i,
    {
        r.push(v[i]);
        i = i + 1;
    }
    assert(r@ =~= v@);
    r
}

/// An interpreter: the scopes, the user functions created so far (a
/// function value names its entry here), the lines printed, and the number
/// of clock readings.
pub struct Interpreter<'a> {
    pub environment: Environment,
    functions: Vec<LoxFunction<'a>>,
    output: Vec<Printed>,
    clock_reads: usize,
}

impl<'a> Interpreter<'a> {
    /// The abstract state.
    pub closed spec fn state(&self) -> IState {
        IState {
            env: self.environment.state(),
            functions: self.functions@.map_values(|f: LoxFunction<'a>| f.model()),
            output: output_view(self.output),
            clock_reads: self.clock_reads,
        }
    }

    /// A fresh interpreter whose global scope binds `clock`.
    pub fn new() -> (r: Interpreter<'a>)
        ensures
            r.state().env.frames == seq![seq![BindingV { name: "clock"@, value: Val::Fn(Callable::Clock) }]],
            r.state().env.stack == seq![0usize],
            r.state().env.lookup("clock"@) == Some(Val::Fn(Callable::Clock)),
            r.state().functions.len() == 0,
            r.state().output.len() == 0,
            r.state().clock_reads == 0,
            r.state().inv(),
    {
        let mut env = Environment::new();
        env.define(Clock.name(), LoxValue::Fn(Callable::Clock));
        let r = Interpreter { environment: env, functions: Vec::new(), output: Vec::new(), clock_reads: 0 };
        proof {
            reveal_strlit("clock");
            let e = r.state().env;
            assert(e.stack[0] == 0);
            assert(e.stack.drop_last().len() == 0);
            assert(e.frames[0].len() == 1);
            assert(e.frames[0].drop_last().len() == 0);
            assert(e.frames[0] =~= seq![BindingV { name: "clock"@, value: Val::Fn(Callable::Clock) }]);
            assert(e.frames =~= seq![seq![BindingV { name: "clock"@, value: Val::Fn(Callable::Clock) }]]);
        }
        assert(output_view(r.output) =~= Seq::<PrintedV>::empty());
        r
    }

    /// The lines printed so far.
    pub fn output(&self) -> (r: &Vec<Printed>)
        ensures
            output_view(*r) == self.state().output,
    {
        &self.output
    }

    /// Hands out the lines printed so far and forgets them.
    pub fn take_output(&mut self) -> (r: Vec<Printed>)
        ensures
            output_view(r) == old(self).state().output,
            final(self).state() == (IState { output: Seq::empty(), ..old(self).state() }),
    {
        let mut r: Vec<Printed> = Vec::new();
        std::mem::swap(&mut r, &mut self.output);
        assert(output_view(self.output) =~= Seq::<PrintedV>::empty());
        r
    }

    fn display(&self, v: &LoxValue) -> (p: Printed)
        ensures
            p@ == display(self.state(), v@),
    {
        proof {
            reveal_strlit("true");
            reveal_strlit("false");
            reveal_strlit("nil");
            reveal_strlit("<fn clock>");
            reveal_strlit("<fn ");
            reveal_strlit(">");
            reveal_strlit("<fn>");
        }
        match v {
            LoxValue::String(s) => Printed::Text(s.clone()),
            LoxValue::Number(n) => Printed::Number(*n),
            LoxValue::Bool(b) => Printed::Text(if *b { text("true") } else { text("false") }),
            LoxValue::Nil => Printed::Text(text("nil")),
            LoxValue::Fn(Callable::Clock) => Printed::Text(text("<fn clock>")),
            LoxValue::Fn(Callable::Function(i)) => {
                if *i < self.functions.len() {
                    let mut m = text("<fn ");
                    m.append(self.functions[*i].declaration.name.lexeme.as_str());
                    m.append(">");
                    Printed::Text(m)
                } else {
                    Printed::Text(text("<fn>"))
                }
            },
        }
    }

    fn evaluate<F: Fn(Query) -> Answer>(&mut self, e: &'a Expr, host: &F, Ghost(ans): Ghost<spec_fn(Query) -> Answer>, fuel: usize) -> (r: Result<LoxValue, Error>)
        requires
            answers_as(*host, ans),
            old(self).state().inv(),
        ensures
            kept(old(self).state(), final(self).state()),
            (final(self).state(), value_result(r)) == eval(old(self).state(), *e, ans, fuel as nat),
        decreases fuel, 0nat,
    {
        if fuel == 0 {
            return Err(Error::LimitReached);
        }
        let f = fuel - 1;
        match e {
            Expr::Literal { value, .. } => Ok(value.duplicate()),
            Expr::Grouping { expression, .. } => self.evaluate(expression, host, Ghost(ans), f),
            Expr::Variable { name } => match self.environment.get(&name.lexeme) {
                Some(v) => Ok(v),
                None => Err(undefined(name)),
            },
            Expr::Assign { name, value } => {
                let v = match self.evaluate(value, host, Ghost(ans), f) {
                    Ok(v) => v,
                    Err(x) => return Err(x),
                };
                let copy = v.duplicate();
                if self.environment.assign(name.lexeme.clone(), v) {
                    Ok(copy)
                } else {
                    Err(undefined(name))
                }
            },
            Expr::Unary { right, operator } => {
                let v = match self.evaluate(right, host, Ghost(ans), f) {
                    Ok(v) => v,
                    Err(x) => return Err(x),
                };
                if operator.token_type == TokenType::Bang {
                    Ok(LoxValue::Bool(!v.is_truthy()))
                } else {
                    proof { reveal_strlit("Operand must be a number."); }
                    match v {
                        LoxValue::Number(n) => Ok(answer_to_value(ask(host, Query::Negate(n), Ghost(ans)), false)),
                        _ => Err(runtime_error(operator, "Operand must be a number.")),
                    }
                }
            },
            Expr::Binary { left, right, operator } => {
                let l = match self.evaluate(left, host, Ghost(ans), f) {
                    Ok(v) => v,
                    Err(x) => return Err(x),
                };
                let r = match self.evaluate(right, host, Ghost(ans), f) {
                    Ok(v) => v,
                    Err(x) => return Err(x),
                };
                match binary_outcome(operator.token_type, &l, &r) {
                    Outcome::Value(v) => Ok(v),
                    Outcome::Ask { query, negate } => Ok(answer_to_value(ask(host, query, Ghost(ans)), negate)),
                    Outcome::TypeError(m) => Err(Error::RuntimeError { token: operator.duplicate(), message: m }),
                }
            },
            Expr::Logical { left, right, operator } => {
                let l = match self.evaluate(left, host, Ghost(ans), f) {
                    Ok(v) => v,
                    Err(x) => return Err(x),
                };
                if (operator.token_type == TokenType::Or) == l.is_truthy() {
                    Ok(l)
                } else {
                    self.evaluate(right, host, Ghost(ans), f)
                }
            },
            Expr::Call { callee, paren, arguments } => {
                let c = match self.evaluate(callee, host, Ghost(ans), f) {
                    Ok(v) => v,
                    Err(x) => return Err(x),
                };
                let args = match self.evaluate_arguments(arguments, host, Ghost(ans), f) {
                    Ok(a) => a,
                    Err(x) => return Err(x),
                };
                self.call_value(c, args, paren, host, Ghost(ans), f)
            },
        }
    }

    fn evaluate_arguments<F: Fn(Query) -> Answer>(&mut self, args: &'a Vec<Expr>, host: &F, Ghost(ans): Ghost<spec_fn(Query) -> Answer>, fuel: usize) -> (r: Result<Vec<LoxValue>, Error>)
        requires
            answers_as(*host, ans),
            old(self).state().inv(),
        ensures
            kept(old(self).state(), final(self).state()),
            (final(self).state(), values_result(r)) == eval_args(old(self).state(), args@, 0, Seq::empty(), ans, fuel as nat),
        decreases fuel, 0nat,
    {
        let ghost st0 = self.state();
        let mut vals: Vec<LoxValue> = Vec::new();
        let mut i: usize = 0;
        assert(values_view(vals) =~= Seq::<Val>::empty());
        while i < args.len()
            invariant
                answers_as(*host, ans),
                st0 == old(self).state(),
                i <= args@.len(),
                kept(st0, self.state()),
                eval_args(st0, args@, 0, Seq::empty(), ans, fuel as nat)
                    == eval_args(self.state(), args@, i as int, values_view(vals), ans, fuel as nat),
            decreases args@.len() - i,
        {
            if fuel == 0 {
                return Err(Error::LimitReached);
            }
            match self.evaluate(&args[i], host, Ghost(ans), fuel - 1) {
                Ok(v) => {
                    let ghost old_vals = values_view(vals);
                    let ghost vv = v@;
                    vals.push(v);
                    assert(values_view(vals) =~= old_vals.push(vv));
                },
                Err(x) => return Err(x),
            }
            i = i + 1;
        }
        Ok(vals)
    }

    fn bind_parameters(&mut self, params: &Vec<crate::token::Token>, args: &Vec<LoxValue>)
        requires
            params@.len() == args@.len(),
        ensures
            final(self).state().env.frames.len() == old(self).state().env.frames.len(),
            final(self).state().env.stack == old(self).state().env.stack,
            final(self).state() == with_env(old(self).state(), bind(old(self).state().env, params@, values_view(*args), 0)),
    {
        let ghost st0 = self.state();
        let mut j: usize = 0;
        while j < params.len()
            invariant
                params@.len() == args@.len(),
                j <= params@.len(),
                bind(st0.env, params@, values_view(*args), 0) == bind(self.state().env, params@, values_view(*args), j as int),
                self.state() == with_env(st0, self.state().env),
                self.state().env.frames.len() == st0.env.frames.len(),
                self.state().env.stack == st0.env.stack,
            decreases params@.len() - j,
        {
            self.environment.define(params[j].lexeme.clone(), args[j].duplicate());
            j = j + 1;
        }
    }

    fn call_value<F: Fn(Query) -> Answer>(&mut self, c: LoxValue, args: Vec<LoxValue>, paren: &Token, host: &F, Ghost(ans): Ghost<spec_fn(Query) -> Answer>, fuel: usize) -> (r: Result<LoxValue, Error>)
        requires
            answers_as(*host, ans),
            old(self).state().inv(),
        ensures
            kept(old(self).state(), final(self).state()),
            (final(self).state(), value_result(r)) == call(old(self).state(), c@, values_view(args), *paren, ans, fuel as nat),
        decreases fuel, 0nat,
    {
        proof {
            reveal_strlit("Wrong number of arguments.");
            reveal_strlit("Expression is not callable");
        }
        match c {
            LoxValue::Fn(Callable::Clock) => {
                if args.len() != 0 {
                    return Err(runtime_error(paren, "Wrong number of arguments."));
                }
                let a = ask(host, Query::Clock(self.clock_reads), Ghost(ans));
                if self.clock_reads < usize::MAX {
                    self.clock_reads = self.clock_reads + 1;
                }
                Ok(answer_to_value(a, false))
            },
            LoxValue::Fn(Callable::Function(i)) => {
                if i >= self.functions.len() {
                    return Err(runtime_error(paren, "Expression is not callable"));
                }
                let decl: &'a FunctionDeclaration = self.functions[i].declaration;
                if args.len() != decl.parameters.len() {
                    return Err(runtime_error(paren, "Wrong number of arguments."));
                }
                if fuel == 0 {
                    return Err(Error::LimitReached);
                }
                let saved = self.environment.active();
                let closure = copy_indices(&self.functions[i].closure);
                self.environment.set_active(closure);
                self.environment.push();
                self.bind_parameters(&decl.parameters, &args);
                let r = self.run_list(&decl.body, host, Ghost(ans), fuel - 1);
                self.environment.set_active(saved);
                match r {
                    Ok(_) => Ok(LoxValue::Nil),
                    Err(Error::Return { value, .. }) => Ok(value),
                    Err(x) => Err(x),
                }
            },
            _ => Err(runtime_error(paren, "Expression is not callable")),
        }
    }

    fn run_list<F: Fn(Query) -> Answer>(&mut self, stmts: &'a Vec<Statement>, host: &F, Ghost(ans): Ghost<spec_fn(Query) -> Answer>, fuel: usize) -> (r: Result<(), Error>)
        requires
            answers_as(*host, ans),
            old(self).state().inv(),
        ensures
            kept(old(self).state(), final(self).state()),
            (final(self).state(), unit_result(r)) == exec_list(old(self).state(), stmts@, 0, ans, fuel as nat),
        decreases fuel, 0nat,
    {
        let ghost st0 = self.state();
        let mut i: usize = 0;
        while i < stmts.len()
            invariant
                answers_as(*host, ans),
                st0 == old(self).state(),
                i <= stmts@.len(),
                kept(st0, self.state()),
                exec_list(st0, stmts@, 0, ans, fuel as nat) == exec_list(self.state(), stmts@, i as int, ans, fuel as nat),
            decreases stmts@.len() - i,
        {
            if fuel == 0 {
                return Err(Error::LimitReached);
            }
            match self.execute(&stmts[i], host, Ghost(ans), fuel - 1) {
                Ok(_) => {},
                Err(x) => return Err(x),
            }
            i = i + 1;
        }
        Ok(())
    }

    fn execute_while<F: Fn(Query) -> Answer>(&mut self, cond: &'a Expr, body: &'a Statement, host: &F, Ghost(ans): Ghost<spec_fn(Query) -> Answer>, fuel: usize) -> (r: Result<(), Error>)
        requires
            answers_as(*host, ans),
            old(self).state().inv(),
        ensures
            kept(old(self).state(), final(self).state()),
            (final(self).state(), unit_result(r)) == exec_while(old(self).state(), *cond, *body, ans, fuel as nat),
        decreases fuel, 0nat,
    {
        let ghost st0 = self.state();
        let mut fl = fuel;
        loop
            invariant
                answers_as(*host, ans),
                st0 == old(self).state(),
                fl <= fuel,
                kept(st0, self.state()),
                exec_while(st0, *cond, *body, ans, fuel as nat) == exec_while(self.state(), *cond, *body, ans, fl as nat),
            decreases fl,
        {
            if fl == 0 {
                return Err(Error::LimitReached);
            }
            let c = match self.evaluate(cond, host, Ghost(ans), fl - 1) {
                Ok(v) => v,
                Err(x) => return Err(x),
            };
            if !c.is_truthy() {
                return Ok(());
            }
            match self.execute(body, host, Ghost(ans), fl - 1) {
                Ok(_) => {},
                Err(x) => return Err(x),
            }
            fl = fl - 1;
        }
    }

    fn execute<F: Fn(Query) -> Answer>(&mut self, s: &'a Statement, host: &F, Ghost(ans): Ghost<spec_fn(Query) -> Answer>, fuel: usize) -> (r: Result<(), Error>)
        requires
            answers_as(*host, ans),
            old(self).state().inv(),
        ensures
            kept(old(self).state(), final(self).state()),
            (final(self).state(), unit_result(r)) == exec(old(self).state(), *s, ans, fuel as nat),
        decreases fuel, 0nat,
    {
        if fuel == 0 {
            return Err(Error::LimitReached);
        }
        let f = fuel - 1;
        match s {
            Statement::Block { statements } => {
                let saved = self.environment.active();
                self.environment.push();
                let r = self.run_list(statements, host, Ghost(ans), f);
                self.environment.set_active(saved);
                r
            },
            Statement::Expression { expression } => match self.evaluate(expression, host, Ghost(ans), f) {
                Ok(_) => Ok(()),
                Err(x) => Err(x),
            },
            Statement::Function(decl) => {
                let id = self.functions.len();
                if id == usize::MAX {
                    return Err(Error::LimitReached);
                }
                let closure = self.environment.active();
                let ghost old_fns = self.state().functions;
                let lf = LoxFunction::new(decl, closure);
                self.functions.push(lf);
                assert(self.state().functions =~= old_fns.push(lf.model()));
                self.environment.define(decl.name.lexeme.clone(), LoxValue::Fn(Callable::Function(id)));
                Ok(())
            },
            Statement::If { condition, then_branch, else_branch } => {
                let c = match self.evaluate(condition, host, Ghost(ans), f) {
                    Ok(v) => v,
                    Err(x) => return Err(x),
                };
                if c.is_truthy() {
                    self.execute(then_branch, host, Ghost(ans), f)
                } else {
                    match else_branch {
                        Some(b) => self.execute(b, host, Ghost(ans), f),
                        None => Ok(()),
                    }
                }
            },
            Statement::Print { expression } => {
                let v = match self.evaluate(expression, host, Ghost(ans), f) {
                    Ok(v) => v,
                    Err(x) => return Err(x),
                };
                let p = self.display(&v);
                let ghost old_out = output_view(self.output);
                let ghost pv = p@;
                self.output.push(p);
                assert(output_view(self.output) =~= old_out.push(pv));
                Ok(())
            },
            Statement::Return { keyword, value } => match value {
                None => Err(Error::Return { keyword: keyword.duplicate(), value: LoxValue::Nil }),
                Some(e) => match self.evaluate(e, host, Ghost(ans), f) {
                    Ok(v) => Err(Error::Return { keyword: keyword.duplicate(), value: v }),
                    Err(x) => Err(x),
                },
            },
            Statement::Var { name, initializer } => {
                let v = match initializer {
                    None => LoxValue::Nil,
                    Some(e) => match self.evaluate(e, host, Ghost(ans), f) {
                        Ok(v) => v,
                        Err(x) => return Err(x),
                    },
                };
                self.environment.define(name.lexeme.clone(), v);
                Ok(())
            },
            Statement::While { condition, body } => self.execute_while(condition, body, host, Ghost(ans), f),
        }
    }

    /// Runs `statements` in order in the current scope, stopping at the
    /// first that does not complete normally.
    pub fn execute_block<F: Fn(Query) -> Answer>(&mut self, statements: &'a Vec<Statement>, host: &F, fuel: usize) -> (r: Result<(), Error>)
        requires
            host_ready(*host),
            old(self).state().inv(),
        ensures
            kept(old(self).state(), final(self).state()),
            (final(self).state(), unit_result(r)) == exec_list(old(self).state(), statements@, 0, answers(*host), fuel as nat),
    {
        proof { lemma_host_answers(*host); }
        self.run_list(statements, host, Ghost(answers(*host)), fuel)
    }

    /// Evaluates one expression in the current scopes.  Besides equalling
    /// the model `eval`: an arithmetic or comparison operator other than
    /// `+` on operands that are not both numbers fails at the operator with
    /// a message naming both operands' types; `or` and `and` give back the
    /// left operand itself, without evaluating the right one, when it
    /// decides, and otherwise whatever the right one gives.
    pub fn evaluate_expression<F: Fn(Query) -> Answer>(&mut self, e: &'a Expr, host: &F, fuel: usize) -> (r: Result<LoxValue, Error>)
        requires
            host_ready(*host),
            old(self).state().inv(),
        ensures
            kept(old(self).state(), final(self).state()),
            (final(self).state(), value_result(r)) == eval(old(self).state(), *e, answers(*host), fuel as nat),
            ({
                let st = old(self).state();
                let f = (fuel - 1) as nat;
                let ans = answers(*host);
                (e is Binary && fuel > 0 && numeric_only(e->Binary_operator.token_type)
                    && eval(st, *e->Binary_left, ans, f).1 is Ok
                    && eval(eval(st, *e->Binary_left, ans, f).0, *e->Binary_right, ans, f).1 is Ok
                    && !(eval(st, *e->Binary_left, ans, f).1->Ok_0 is Number
                        && eval(eval(st, *e->Binary_left, ans, f).0, *e->Binary_right, ans, f).1->Ok_0 is Number))
                ==> (r matches Err(Error::RuntimeError { token, message }) && token == e->Binary_operator
                    && message@ == operands_message(
                        "numbers"@,
                        eval(st, *e->Binary_left, ans, f).1->Ok_0,
                        eval(eval(st, *e->Binary_left, ans, f).0, *e->Binary_right, ans, f).1->Ok_0,
                    ))
            }),
            ({
                let st = old(self).state();
                let f = (fuel - 1) as nat;
                let ans = answers(*host);
                let (s1, r1) = eval(st, *e->Logical_left, ans, f);
                let is_or = e->Logical_operator.token_type == TokenType::Or;
                (e is Logical && fuel > 0 && (is_or || e->Logical_operator.token_type == TokenType::And) && r1 is Ok)
                ==> ((is_or == truthy(r1->Ok_0) ==> final(self).state() == s1 && value_result(r) == Ok::<Val, ErrorV>(r1->Ok_0))
                    && (is_or != truthy(r1->Ok_0) ==> (final(self).state(), value_result(r)) == eval(s1, *e->Logical_right, ans, f)))
            }),
    {
        proof {
            lemma_host_answers(*host);
            reveal_strlit("numbers");
        }
        let r = self.evaluate(e, host, Ghost(answers(*host)), fuel);
        proof {
            let st = old(self).state();
            let ans = answers(*host);
            if e is Binary && fuel > 0 && numeric_only(e->Binary_operator.token_type) {
                let f = (fuel - 1) as nat;
                let (s1, r1) = eval(st, *e->Binary_left, ans, f);
                let (s2, r2) = eval(s1, *e->Binary_right, ans, f);
                if r1 is Ok && r2 is Ok && !(r1->Ok_0 is Number && r2->Ok_0 is Number) {
                    lemma_numeric_operators_need_numbers(e->Binary_operator.token_type, r1->Ok_0, r2->Ok_0);
                }
            }
        }
        r
    }

    /// Runs a program.  `host` answers the questions on numbers and reads
    /// the clock; `fuel` bounds how deeply evaluation nests and how often
    /// loops turn.
    pub fn interpret<F: Fn(Query) -> Answer>(&mut self, program: &'a Program, host: &F, fuel: usize) -> (r: Result<(), Error>)
        requires
            host_ready(*host),
            old(self).state().inv(),
        ensures
            kept(old(self).state(), final(self).state()),
            (final(self).state(), unit_result(r)) == run(old(self).state(), program.statements@, answers(*host), fuel as nat),
    {
        proof {
            lemma_host_answers(*host);
            reveal_strlit("Cannot return from top-level code.");
        }
        match self.run_list(&program.statements, host, Ghost(answers(*host)), fuel) {
            Err(Error::Return { keyword, .. }) => Err(runtime_error(&keyword, "Cannot return from top-level code.")),
            other => other,
        }
    }
}

} // verus!
