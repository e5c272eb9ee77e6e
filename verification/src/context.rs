//! The immutable flag set passed down the printing recursion. Each node sets
//! only the flags relevant to its children before recursing; flags never flow
//! back up.

use vstd::prelude::*;

verus! {

/// Flags that change how a subtree prints: `forbid_in` bans a bare `in`
/// operator (it must be parenthesized), as in a `for`-statement head.
#[derive(Clone, Copy, PartialEq, Eq, Structural, Debug)]
pub struct Context {
    pub forbid_in: bool,
}

impl Context {
    /// The flag set at the root of a print pass: nothing forbidden.
    pub fn root() -> (r: Context)
        ensures
            r.forbid_in == false,
    {
        Context { forbid_in: false }
    }
}

impl core::default::Default for Context {
    fn default() -> (r: Context)
        ensures
            r.forbid_in == false,
    {
        Context { forbid_in: false }
    }
}

} // verus!
