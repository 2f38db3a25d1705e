use vstd::prelude::*;
use crate::ast::FunctionDeclaration;

verus! {

/// A user function: its declaration and the scope frames that were active
/// when the declaration ran, which the function shares with its definer.
#[derive(Debug)]
pub struct LoxFunction<'a> {
    pub declaration: &'a FunctionDeclaration,
    pub closure: Vec<usize>,
}

/// The model of a user function.
pub struct FnEntry {
    pub declaration: FunctionDeclaration,
    pub closure: Seq<usize>,
}

impl<'a> LoxFunction<'a> {
    pub open spec fn model(&self) -> FnEntry {
        FnEntry { declaration: *self.declaration, closure: self.closure@ }
    }

    /// A function for `declaration` that closes over the frames `closure`.
    pub fn new(declaration: &'a FunctionDeclaration, closure: Vec<usize>) -> (r: LoxFunction<'a>)
        ensures
            r.model() == (FnEntry { declaration: *declaration, closure: closure@ }),
    {
        LoxFunction { declaration, closure }
    }

    /// The number of parameters.
    pub fn arity(&self) -> (r: usize)
        ensures
            r == self.declaration.parameters@.len(),
    {
        self.declaration.parameters.len()
    }

    /// The function's name.
    pub fn name(&self) -> (r: &String)
        ensures
            *r == self.declaration.name.lexeme,
    {
        &self.declaration.name.lexeme
    }
}

} // verus!
