use vstd::prelude::*;
use crate::ast::{Expr, FunctionDeclaration, Program, Statement};
use crate::token::Token;

verus! {

/// A name in a resolver scope, and whether its initializer has been resolved.
#[derive(Debug)]
pub struct ScopeEntry {
    pub name: String,
    pub initialized: bool,
}

impl View for ScopeEntry {
    type V = (Seq<char>, bool);

    open spec fn view(&self) -> (Seq<char>, bool) {
        (self.name@, self.initialized)
    }
}

/// A resolver scope: its names in declaration order.
pub type ScopeV = Seq<(Seq<char>, bool)>;

/// A scoping error: the offending token and a message.
#[derive(Debug)]
pub struct Error {
    pub token: Token,
    pub message: String,
}

/// The model of an `Error`.
pub struct ErrorV {
    pub token: Token,
    pub message: Seq<char>,
}

impl View for Error {
    type V = ErrorV;

    open spec fn view(&self) -> ErrorV {
        ErrorV { token: self.token, message: self.message@ }
    }
}

pub open spec fn duplicate_message() -> Seq<char> {
    "Variable with this name already defined in scope."@
}

pub open spec fn self_read_message() -> Seq<char> {
    "Cannot read local variable in its own initializer."@
}

pub open spec fn top_return_message() -> Seq<char> {
    "Cannot return from top-level code."@
}

/// The entry for `name` in a scope.
pub open spec fn find_entry(scope: ScopeV, name: Seq<char>) -> Option<int>
    decreases scope.len(),
{
    if scope.len() == 0 {
        None
    } else if scope.last().0 == name {
        Some(scope.len() - 1)
    } else {
        find_entry(scope.drop_last(), name)
    }
}

/// `name` declared, not yet initialized, in the innermost scope; an error if
/// that scope already has it.
pub open spec fn declare(sc: Seq<ScopeV>, name: Token) -> Result<Seq<ScopeV>, ErrorV> {
    if sc.len() == 0 {
        Ok(sc)
    } else if find_entry(sc.last(), name.lexeme@) is Some {
        Err(ErrorV { token: name, message: duplicate_message() })
    } else {
        Ok(sc.update(sc.len() - 1, sc.last().push((name.lexeme@, false))))
    }
}

/// `name` marked initialized in the innermost scope.
pub open spec fn define(sc: Seq<ScopeV>, name: Seq<char>) -> Seq<ScopeV> {
    if sc.len() == 0 {
        sc
    } else {
        match find_entry(sc.last(), name) {
            Some(i) => sc.update(sc.len() - 1, sc.last().update(i, (name, true))),
            None => sc.update(sc.len() - 1, sc.last().push((name, true))),
        }
    }
}

/// The innermost scope closed.
pub open spec fn popped(sc: Seq<ScopeV>) -> Seq<ScopeV> {
    if sc.len() > 0 {
        sc.drop_last()
    } else {
        sc
    }
}

/// Whether reading `name` is a read of a local variable inside its own
/// initializer.
pub open spec fn reads_uninitialized(sc: Seq<ScopeV>, name: Seq<char>) -> bool {
    sc.len() > 0 && match find_entry(sc.last(), name) {
        Some(i) => !sc.last()[i].1,
        None => false,
    }
}

/// Checks an expression against the scopes; expressions change no scope.
pub open spec fn res_expr(sc: Seq<ScopeV>, e: Expr) -> Result<(), ErrorV>
    decreases e, 0nat,
{
    match e {
        Expr::Variable { name } => if reads_uninitialized(sc, name.lexeme@) {
            Err(ErrorV { token: name, message: self_read_message() })
        } else {
            Ok(())
        },
        Expr::Assign { value, .. } => res_expr(sc, *value),
        Expr::Binary { left, right, .. } => match res_expr(sc, *left) {
            Err(x) => Err(x),
            Ok(_) => res_expr(sc, *right),
        },
        Expr::Logical { left, right, .. } => match res_expr(sc, *left) {
            Err(x) => Err(x),
            Ok(_) => res_expr(sc, *right),
        },
        Expr::Call { callee, arguments, .. } => match res_expr(sc, *callee) {
            Err(x) => Err(x),
            Ok(_) => res_args(sc, arguments@, 0),
        },
        Expr::Grouping { expression, .. } => res_expr(sc, *expression),
        Expr::Literal { .. } => Ok(()),
        Expr::Unary { right, .. } => res_expr(sc, *right),
    }
}

/// Checks the arguments from the `i`-th on.
pub open spec fn res_args(sc: Seq<ScopeV>, args: Seq<Expr>, i: int) -> Result<(), ErrorV>
    decreases args, args.len() - i,
{
    if i < 0 || i >= args.len() {
        Ok(())
    } else {
        match res_expr(sc, args[i]) {
            Err(x) => Err(x),
            Ok(_) => res_args(sc, args, i + 1),
        }
    }
}

/// Declares and defines the parameters from the `i`-th on.
pub open spec fn res_params(sc: Seq<ScopeV>, params: Seq<Token>, i: int) -> Result<Seq<ScopeV>, ErrorV>
    decreases params.len() - i,
{
    if i < 0 || i >= params.len() {
        Ok(sc)
    } else {
        match declare(sc, params[i]) {
            Err(x) => Err(x),
            Ok(s1) => res_params(define(s1, params[i].lexeme@), params, i + 1),
        }
    }
}

/// Checks a statement; the scopes after it, or the first error.  `in_fn`
/// tells whether the statement is inside a function body.
pub open spec fn res_stmt(sc: Seq<ScopeV>, in_fn: bool, s: Statement) -> Result<Seq<ScopeV>, ErrorV>
    decreases s, 0nat,
{
    match s {
        Statement::Block { statements } => match res_list(sc.push(Seq::empty()), in_fn, statements@, 0) {
            Err(x) => Err(x),
            Ok(s1) => Ok(popped(s1)),
        },
        Statement::Var { name, initializer } => match declare(sc, name) {
            Err(x) => Err(x),
            Ok(s1) => match initializer {
                Some(e) => match res_expr(s1, *e) {
                    Err(x) => Err(x),
                    Ok(_) => Ok(define(s1, name.lexeme@)),
                },
                None => Ok(define(s1, name.lexeme@)),
            },
        },
        Statement::Function(decl) => match declare(sc, decl.name) {
            Err(x) => Err(x),
            Ok(s1) => {
                let s2 = define(s1, decl.name.lexeme@);
                match res_params(s2.push(Seq::empty()), decl.parameters@, 0) {
                    Err(x) => Err(x),
                    Ok(s3) => match res_list(s3, true, decl.body@, 0) {
                        Err(x) => Err(x),
                        Ok(s4) => Ok(popped(s4)),
                    },
                }
            },
        },
        Statement::Expression { expression } => match res_expr(sc, *expression) {
            Err(x) => Err(x),
            Ok(_) => Ok(sc),
        },
        Statement::Print { expression } => match res_expr(sc, *expression) {
            Err(x) => Err(x),
            Ok(_) => Ok(sc),
        },
        Statement::If { condition, then_branch, else_branch } => match res_expr(sc, *condition) {
            Err(x) => Err(x),
            Ok(_) => match res_stmt(sc, in_fn, *then_branch) {
                Err(x) => Err(x),
                Ok(s1) => match else_branch {
                    Some(b) => res_stmt(s1, in_fn, *b),
                    None => Ok(s1),
                },
            },
        },
        Statement::Return { keyword, value } => if !in_fn {
            Err(ErrorV { token: keyword, message: top_return_message() })
        } else {
            match value {
                Some(e) => match res_expr(sc, *e) {
                    Err(x) => Err(x),
                    Ok(_) => Ok(sc),
                },
                None => Ok(sc),
            }
        },
        Statement::While { condition, body } => match res_expr(sc, *condition) {
            Err(x) => Err(x),
            Ok(_) => res_stmt(sc, in_fn, *body),
        },
    }
}

/// Checks the statements from the `i`-th on, in order.
pub open spec fn res_list(sc: Seq<ScopeV>, in_fn: bool, stmts: Seq<Statement>, i: int) -> Result<Seq<ScopeV>, ErrorV>
    decreases stmts, stmts.len() - i,
{
    if i < 0 || i >= stmts.len() {
        Ok(sc)
    } else {
        match res_stmt(sc, in_fn, stmts[i]) {
            Err(x) => Err(x),
            Ok(s1) => res_list(s1, in_fn, stmts, i + 1),
        }
    }
}

/// Checks a whole program, in an outermost scope of its own.
pub open spec fn resolve_program(stmts: Seq<Statement>) -> Result<(), ErrorV> {
    match res_list(seq![Seq::empty()], false, stmts, 0) {
        Err(x) => Err(x),
        Ok(_) => Ok(()),
    }
}

/// `b` has the scopes of `a`, all but the innermost unchanged.
pub open spec fn same_outer(a: Seq<ScopeV>, b: Seq<ScopeV>) -> bool {
    &&& a.len() == b.len()
    &&& forall|i: int| 0 <= i < a.len() - 1 ==> #[trigger] b[i] == a[i]
}

/// `r` and the scopes `sc` after a step agree with the step's model `m`.
pub open spec fn agrees(r: Result<(), Error>, sc: Seq<ScopeV>, m: Result<Seq<ScopeV>, ErrorV>) -> bool {
    match m {
        Ok(s) => r is Ok && sc == s,
        Err(x) => r matches Err(e) && e@ == x,
    }
}

pub open spec fn check_result(r: Result<(), Error>) -> Result<(), ErrorV> {
    match r {
        Ok(_) => Ok(()),
        Err(e) => Err(e@),
    }
}

pub open spec fn scope_view(s: Vec<ScopeEntry>) -> ScopeV {
    s@.map_values(|e: ScopeEntry| e@)
}

fn error_at(token: &Token, message: &str) -> (e: Error)
    ensures
        e@ == (ErrorV { token: *token, message: message@ }),
{
    Error { token: token.duplicate(), message: String::from_str(message) }
}

fn find_in(scope: &Vec<ScopeEntry>, name: &String) -> (r: Option<usize>)
    ensures
        r matches Some(i) ==> find_entry(scope_view(*scope), name@) == Some(i as int) && i < scope@.len(),
        r is None ==> find_entry(scope_view(*scope), name@) is None,
{
    let ghost sv = scope_view(*scope);
    let mut i = scope.len();
    assert(sv.subrange(0, i as int) =~= sv);
    while i > 0
        invariant
            i <= scope@.len(),
            sv == scope_view(*scope),
            find_entry(sv, name@) == find_entry(sv.subrange(0, i as int), name@),
        decreases i,
    {
        let ghost sub = sv.subrange(0, i as int);
        assert(sub.last() == sv[i - 1]);
        if scope[i - 1].name.eq(name) {
            return Some(i - 1);
        }
        assert(sub.drop_last() =~= sv.subrange(0, i - 1));
        i = i - 1;
    }
    assert(sv.subrange(0, 0) =~= Seq::<(Seq<char>, bool)>::empty());
    None
}

#[derive(Debug, Clone, Copy, PartialEq, Eq, Structural)]
enum FunctionType {
    TopLevel,
    Function,
}

/// The static scope checker.  It keeps a stack of scopes, each mapping a
/// name to whether its initializer has been resolved, and the kind of code
/// it is in.
pub struct Resolver {
    scopes: Vec<Vec<ScopeEntry>>,
    current_function: FunctionType,
}

impl Resolver {
    /// The scopes, innermost last.
    pub closed spec fn scopes(&self) -> Seq<ScopeV> {
        self.scopes@.map_values(|s: Vec<ScopeEntry>| scope_view(s))
    }

    /// Whether the resolver is inside a function body.
    pub closed spec fn in_function(&self) -> bool {
        self.current_function == FunctionType::Function
    }

    /// A resolver with no scope, at top level.
    pub fn new() -> (r: Resolver)
        ensures
            r.scopes().len() == 0,
            !r.in_function(),
    {
        Resolver { scopes: Vec::new(), current_function: FunctionType::TopLevel }
    }

    fn begin_scope(&mut self)
        ensures
            final(self).scopes() == old(self).scopes().push(Seq::empty()),
            final(self).in_function() == old(self).in_function(),
    {
        let fresh: Vec<ScopeEntry> = Vec::new();
        assert(scope_view(fresh) =~= Seq::<(Seq<char>, bool)>::empty());
        self.scopes.push(fresh);
        assert(self.scopes() =~= old(self).scopes().push(Seq::empty()));
    }

    fn end_scope(&mut self)
        ensures
            final(self).scopes() == popped(old(self).scopes()),
            final(self).scopes().len() == if old(self).scopes().len() > 0 { old(self).scopes().len() - 1 } else { 0 },
            final(self).in_function() == old(self).in_function(),
    {
        if self.scopes.len() > 0 {
            self.scopes.pop();
            assert(self.scopes() =~= old(self).scopes().drop_last());
        }
    }

    fn declare(&mut self, name: &Token) -> (r: Result<(), Error>)
        ensures
            agrees(r, final(self).scopes(), declare(old(self).scopes(), *name)),
            r is Err ==> final(self).scopes() == old(self).scopes(),
            same_outer(old(self).scopes(), final(self).scopes()),
            final(self).in_function() == old(self).in_function(),
    {
        proof { reveal_strlit("Variable with this name already defined in scope."); }
        let n = self.scopes.len();
        if n == 0 {
            return Ok(());
        }
        if find_in(&self.scopes[n - 1], &name.lexeme).is_some() {
            return Err(error_at(name, "Variable with this name already defined in scope."));
        }
        let ghost old_scope = scope_view(self.scopes@[n - 1]);
        let entry = ScopeEntry { name: name.lexeme.clone(), initialized: false };
        self.scopes[n - 1].push(entry);
        assert(scope_view(self.scopes@[n - 1]) =~= old_scope.push((name.lexeme@, false)));
        assert(self.scopes() =~= old(self).scopes().update(n - 1, old_scope.push((name.lexeme@, false))));
        Ok(())
    }

    fn define(&mut self, name: &String)
        ensures
            final(self).scopes() == define(old(self).scopes(), name@),
            same_outer(old(self).scopes(), final(self).scopes()),
            final(self).in_function() == old(self).in_function(),
    {
        let n = self.scopes.len();
        if n == 0 {
            return;
        }
        let ghost old_scope = scope_view(self.scopes@[n - 1]);
        match find_in(&self.scopes[n - 1], name) {
            Some(i) => {
                self.scopes[n - 1].set(i, ScopeEntry { name: name.clone(), initialized: true });
                assert(scope_view(self.scopes@[n - 1]) =~= old_scope.update(i as int, (name@, true)));
            },
            None => {
                self.scopes[n - 1].push(ScopeEntry { name: name.clone(), initialized: true });
                assert(scope_view(self.scopes@[n - 1]) =~= old_scope.push((name@, true)));
            },
        }
        assert(self.scopes() =~= define(old(self).scopes(), name@));
    }

    /// Checks an expression: a local variable may not be read inside its own
    /// initializer.
    pub fn visit_expression(&self, e: &Expr) -> (r: Result<(), Error>)
        ensures
            check_result(r) == res_expr(self.scopes(), *e),
        decreases e, 0nat,
    {
        match e {
            Expr::Variable { name } => {
                let n = self.scopes.len();
                if n > 0 {
                    match find_in(&self.scopes[n - 1], &name.lexeme) {
                        Some(i) => {
                            assert(self.scopes()[n - 1][i as int] == self.scopes@[n - 1]@[i as int]@);
                            if !self.scopes[n - 1][i].initialized {
                                proof { reveal_strlit("Cannot read local variable in its own initializer."); }
                                return Err(error_at(name, "Cannot read local variable in its own initializer."));
                            }
                        },
                        None => {},
                    }
                }
                Ok(())
            },
            Expr::Assign { value, .. } => self.visit_expression(value),
            Expr::Binary { left, right, .. } => match self.visit_expression(left) {
                Err(x) => Err(x),
                Ok(_) => self.visit_expression(right),
            },
            Expr::Logical { left, right, .. } => match self.visit_expression(left) {
                Err(x) => Err(x),
                Ok(_) => self.visit_expression(right),
            },
            Expr::Call { callee, arguments, .. } => match self.visit_expression(callee) {
                Err(x) => Err(x),
                Ok(_) => self.visit_arguments(arguments),
            },
            Expr::Grouping { expression, .. } => self.visit_expression(expression),
            Expr::Literal { .. } => Ok(()),
            Expr::Unary { right, .. } => self.visit_expression(right),
        }
    }

    fn visit_arguments(&self, args: &Vec<Expr>) -> (r: Result<(), Error>)
        ensures
            check_result(r) == res_args(self.scopes(), args@, 0),
        decreases args@, args@.len() + 1,
    {
        let mut i: usize = 0;
        while i < args.len()
            invariant
                i <= args@.len(),
                res_args(self.scopes(), args@, 0) == res_args(self.scopes(), args@, i as int),
            decreases args@.len() - i,
        {
            match self.visit_expression(&args[i]) {
                Err(x) => return Err(x),
                Ok(_) => {},
            }
            i = i + 1;
        }
        Ok(())
    }

    fn visit_list(&mut self, stmts: &Vec<Statement>) -> (r: Result<(), Error>)
        ensures
            agrees(r, final(self).scopes(), res_list(old(self).scopes(), old(self).in_function(), stmts@, 0)),
            final(self).in_function() == old(self).in_function(),
            same_outer(old(self).scopes(), final(self).scopes()),
        decreases stmts@, stmts@.len() + 1,
    {
        let ghost sc0 = self.scopes();
        let ghost f0 = self.in_function();
        let mut i: usize = 0;
        while i < stmts.len()
            invariant
                i <= stmts@.len(),
                sc0 == old(self).scopes(),
                f0 == old(self).in_function(),
                self.in_function() == f0,
                same_outer(sc0, self.scopes()),
                res_list(sc0, f0, stmts@, 0) == res_list(self.scopes(), f0, stmts@, i as int),
            decreases stmts@.len() - i,
        {
            match self.visit_statement(&stmts[i]) {
                Err(x) => return Err(x),
                Ok(_) => {},
            }
            i = i + 1;
        }
        Ok(())
    }

    fn resolve_parameters(&mut self, params: &Vec<Token>) -> (r: Result<(), Error>)
        ensures
            agrees(r, final(self).scopes(), res_params(old(self).scopes(), params@, 0)),
            final(self).in_function() == old(self).in_function(),
            same_outer(old(self).scopes(), final(self).scopes()),
    {
        let ghost sc0 = self.scopes();
        let mut i: usize = 0;
        while i < params.len()
            invariant
                i <= params@.len(),
                sc0 == old(self).scopes(),
                self.in_function() == old(self).in_function(),
                same_outer(sc0, self.scopes()),
                res_params(sc0, params@, 0) == res_params(self.scopes(), params@, i as int),
            decreases params@.len() - i,
        {
            match self.declare(&params[i]) {
                Err(x) => return Err(x),
                Ok(_) => {},
            }
            self.define(&params[i].lexeme);
            i = i + 1;
        }
        Ok(())
    }

    fn resolve_function(&mut self, decl: &FunctionDeclaration) -> (r: Result<(), Error>)
        ensures
            match res_params(old(self).scopes().push(Seq::empty()), decl.parameters@, 0) {
                Err(x) => r matches Err(e) && e@ == x,
                Ok(s3) => match res_list(s3, true, decl.body@, 0) {
                    Err(x) => r matches Err(e) && e@ == x,
                    Ok(s4) => r is Ok && final(self).scopes() == popped(s4),
                },
            },
            final(self).in_function() == old(self).in_function(),
            final(self).scopes() == old(self).scopes(),
        decreases decl, 0nat,
    {
        let enclosing = self.current_function;
        self.current_function = FunctionType::Function;
        self.begin_scope();
        match self.resolve_parameters(&decl.parameters) {
            Err(x) => {
                self.end_scope();
                self.current_function = enclosing;
                return Err(x);
            },
            Ok(_) => {},
        }
        match self.visit_list(&decl.body) {
            Err(x) => {
                self.end_scope();
                self.current_function = enclosing;
                return Err(x);
            },
            Ok(_) => {},
        }
        self.end_scope();
        self.current_function = enclosing;
        Ok(())
    }

    /// Checks a statement and records its declarations in the scopes.
    pub fn visit_statement(&mut self, s: &Statement) -> (r: Result<(), Error>)
        ensures
            agrees(r, final(self).scopes(), res_stmt(old(self).scopes(), old(self).in_function(), *s)),
            final(self).in_function() == old(self).in_function(),
            same_outer(old(self).scopes(), final(self).scopes()),
        decreases s, 0nat,
    {
        match s {
            Statement::Block { statements } => {
                self.begin_scope();
                match self.visit_list(statements) {
                    Err(x) => {
                        self.end_scope();
                        return Err(x);
                    },
                    Ok(_) => {},
                }
                self.end_scope();
                Ok(())
            },
            Statement::Var { name, initializer } => {
                match self.declare(name) {
                    Err(x) => return Err(x),
                    Ok(_) => {},
                }
                match initializer {
                    Some(e) => match self.visit_expression(e) {
                        Err(x) => return Err(x),
                        Ok(_) => {},
                    },
                    None => {},
                }
                self.define(&name.lexeme);
                Ok(())
            },
            Statement::Function(decl) => {
                match self.declare(&decl.name) {
                    Err(x) => return Err(x),
                    Ok(_) => {},
                }
                self.define(&decl.name.lexeme);
                self.resolve_function(decl)
            },
            Statement::Expression { expression } => self.visit_expression(expression),
            Statement::Print { expression } => self.visit_expression(expression),
            Statement::If { condition, then_branch, else_branch } => {
                match self.visit_expression(condition) {
                    Err(x) => return Err(x),
                    Ok(_) => {},
                }
                match self.visit_statement(then_branch) {
                    Err(x) => return Err(x),
                    Ok(_) => {},
                }
                match else_branch {
                    Some(b) => self.visit_statement(b),
                    None => Ok(()),
                }
            },
            Statement::Return { keyword, value } => {
                if self.current_function == FunctionType::TopLevel {
                    proof { reveal_strlit("Cannot return from top-level code."); }
                    return Err(error_at(keyword, "Cannot return from top-level code."));
                }
                match value {
                    Some(e) => self.visit_expression(e),
                    None => Ok(()),
                }
            },
            Statement::While { condition, body } => {
                match self.visit_expression(condition) {
                    Err(x) => return Err(x),
                    Ok(_) => {},
                }
                self.visit_statement(body)
            },
        }
    }

    /// Checks a whole program in an outermost scope of its own: no name is
    /// declared twice in one scope, no local variable is read inside its own
    /// initializer, and no `return` stands outside a function.
    pub fn resolve(&mut self, p: &Program) -> (r: Result<(), Error>)
        requires
            old(self).scopes().len() == 0,
            !old(self).in_function(),
        ensures
            check_result(r) == resolve_program(p.statements@),
            final(self).scopes().len() == 0,
            !final(self).in_function(),
    {
        self.begin_scope();
        assert(self.scopes() =~= seq![Seq::<(Seq<char>, bool)>::empty()]);
        match self.visit_list(&p.statements) {
            Err(x) => {
                self.end_scope();
                return Err(x);
            },
            Ok(_) => {},
        }
        self.end_scope();
        Ok(())
    }
}

} // verus!
