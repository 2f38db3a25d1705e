use vstd::prelude::*;

verus! {

/// A callable value: the built-in clock, or a user function, named by its
/// index in the interpreter's function table.  Two callables are equal when
/// they are the same function object.
#[derive(Debug, Clone, Copy, PartialEq, Eq, Structural)]
pub enum Callable {
    Clock,
    Function(usize),
}

/// A runtime value.  A number is held as the bit pattern of an IEEE-754
/// double; the arithmetic on it is done by the host (see `host`).
#[derive(Debug)]
pub enum LoxValue {
    String(String),
    Number(u64),
    Bool(bool),
    Nil,
    Fn(Callable),
}

/// The mathematical model of a value: a string is its characters.
pub enum Val {
    Str(Seq<char>),
    Number(u64),
    Bool(bool),
    Nil,
    Fn(Callable),
}

impl View for LoxValue {
    type V = Val;

    open spec fn view(&self) -> Val {
        match self {
            LoxValue::String(s) => Val::Str(s@),
            LoxValue::Number(n) => Val::Number(*n),
            LoxValue::Bool(b) => Val::Bool(*b),
            LoxValue::Nil => Val::Nil,
            LoxValue::Fn(c) => Val::Fn(*c),
        }
    }
}

/// Nil and `false` are falsy; every other value is truthy.
pub open spec fn truthy(v: Val) -> bool {
    match v {
        Val::Nil => false,
        Val::Bool(b) => b,
        _ => true,
    }
}

impl LoxValue {
    /// A copy of this value.
    pub fn duplicate(&self) -> (r: LoxValue)
        ensures
            r == *self,
    {
        match self {
            LoxValue::String(s) => LoxValue::String(s.clone()),
            LoxValue::Number(n) => LoxValue::Number(*n),
            LoxValue::Bool(b) => LoxValue::Bool(*b),
            LoxValue::Nil => LoxValue::Nil,
            LoxValue::Fn(c) => LoxValue::Fn(*c),
        }
    }

    /// Whether the value counts as true in a condition.
    pub fn is_truthy(&self) -> (r: bool)
        ensures
            r == truthy(self@),
    {
        match self {
            LoxValue::Nil => false,
            LoxValue::Bool(b) => *b,
            _ => true,
        }
    }
}

} // verus!
