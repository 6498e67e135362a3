use vstd::prelude::*;

verus! {

/// Why a state transition was refused. Every error is detected before any
/// byte of the target account is written.
#[derive(Clone, Copy, Debug, PartialEq, Eq, Structural)]
pub enum ProcessError {
    /// The account list was empty.
    MissingAccount,
    /// The target account is not owned by the invoking program.
    IncorrectOwner,
    /// The instruction data held no byte.
    MissingInput,
    /// The account buffer is too short to hold a record.
    MalformedRecord,
}

} // verus!
