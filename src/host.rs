use vstd::prelude::*;

verus! {

/// An operation on numbers that the host carries out.
#[derive(Debug, Clone, Copy, PartialEq, Eq, Structural)]
pub enum NumberOp {
    Add,
    Subtract,
    Multiply,
    Divide,
    Less,
    LessEqual,
    Greater,
    GreaterEqual,
    Equal,
}

/// A question the interpreter puts to its host.  Numbers travel as the bit
/// patterns of IEEE-754 doubles.
#[derive(Debug, Clone, Copy, PartialEq, Eq, Structural)]
pub enum Query {
    /// `left op right` on two numbers.
    Binary { op: NumberOp, left: u64, right: u64 },
    /// The negation of a number.
    Negate(u64),
    /// The reading of the clock; the index counts the earlier readings.
    Clock(usize),
}

/// The host's reply to a `Query`.
#[derive(Debug, Clone, Copy, PartialEq, Eq, Structural)]
pub enum Answer {
    Number(u64),
    Bool(bool),
}

/// The kind of answer a query calls for: a number for arithmetic,
/// negation and the clock, a boolean for comparisons and equality.
pub open spec fn answer_fits(q: Query, a: Answer) -> bool {
    match q {
        Query::Binary { op, .. } => match op {
            NumberOp::Add | NumberOp::Subtract | NumberOp::Multiply | NumberOp::Divide => a is Number,
            _ => a is Bool,
        },
        _ => a is Number,
    }
}

/// The host accepts every query and answers each one as a function of it.
/// Arithmetic on doubles is such a function; a clock read by wall time is
/// one as long as each reading index is asked once, which holds for the
/// queries of one interpreter.
pub open spec fn host_ready<F: Fn(Query) -> Answer>(host: F) -> bool {
    &&& forall|q: Query| #[trigger] host.requires((q,))
    &&& forall|q: Query, a: Answer, b: Answer|
        host.ensures((q,), a) && host.ensures((q,), b) ==> a == b
    &&& forall|q: Query, a: Answer| host.ensures((q,), a) ==> answer_fits(q, a)
}

/// The answer the host gives to a query.
pub open spec fn answer_of<F: Fn(Query) -> Answer>(host: F, q: Query) -> Answer {
    choose|a: Answer| host.ensures((q,), a)
}

/// `ans` gives every answer that `host` can give.
pub open spec fn answers_as<F: Fn(Query) -> Answer>(host: F, ans: spec_fn(Query) -> Answer) -> bool {
    &&& forall|q: Query| #[trigger] host.requires((q,))
    &&& forall|q: Query, a: Answer| host.ensures((q,), a) ==> a == ans(q)
    &&& forall|q: Query, a: Answer| host.ensures((q,), a) ==> answer_fits(q, a)
}

/// A host that answers as a function of the query answers as `answer_of`.
pub proof fn lemma_host_answers<F: Fn(Query) -> Answer>(host: F)
    requires
        host_ready(host),
    ensures
        answers_as(host, |q: Query| answer_of(host, q)),
{
    assert forall|q: Query, a: Answer| host.ensures((q,), a) implies a == answer_of(host, q) by {
        let b = answer_of(host, q);
        assert(host.ensures((q,), b));
    }
}

/// Puts a query to the host.
pub fn ask<F: Fn(Query) -> Answer>(host: &F, q: Query, Ghost(ans): Ghost<spec_fn(Query) -> Answer>) -> (r: Answer)
    requires
        answers_as(*host, ans),
    ensures
        r == ans(q),
        answer_fits(q, r),
{
    host(q)
}

} // verus!
