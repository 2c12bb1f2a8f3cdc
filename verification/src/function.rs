//! Errors of the template-function layer: what invoking a registered
//! function can report, and what binding its arguments can report.

use vstd::prelude::*;

verus! {

/// Why invoking a registered function failed: its arguments could not be
/// bound, or the function itself reported an error.
#[derive(Debug, Clone, PartialEq, Eq)]
pub enum InvokeError<E> {
    Arg(ArgError),
    Execution(E),
}

/// Why binding a function's arguments failed.
#[derive(Debug, Clone, PartialEq, Eq)]
pub enum ArgError {
    /// A required argument was not given.
    MissingArgument(String),
    /// An argument was given with the wrong type.
    MismatchedTypes { arg: String, ty: String },
    /// Arguments were given that the function does not take.
    UnknownArguments(String),
}

} // verus!
