use vstd::prelude::*;

verus! {

/// The built-in `clock` function: it takes no argument, and calling it asks
/// the host for the time in seconds.
#[derive(Debug)]
pub struct Clock;

impl Clock {
    /// The number of parameters: none.
    pub fn arity(&self) -> (r: usize)
        ensures
            r == 0,
    {
        0
    }

    /// The name it is bound to in the global scope.
    pub fn name(&self) -> (r: String)
        ensures
            r@ == "clock"@,
    {
        String::from_str("clock")
    }
}

} // verus!
