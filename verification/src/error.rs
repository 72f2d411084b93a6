//! The faults that the machine reports to its caller.

use vstd::prelude::*;

verus! {

/// Why an operation was refused. A refused operation leaves the component
/// that it was called on as it was.
#[derive(Clone, Copy, Debug, PartialEq, Eq, Structural)]
pub enum EmulatorError {
    /// A general register was named by an index outside 0..=15.
    InvalidRegisterIndex,
    /// A memory access, or the program counter, would leave the address space.
    AddressOutOfRange,
    /// A call was made with sixteen return addresses already on the stack.
    StackOverflow,
    /// A return was made with no return address on the stack.
    StackUnderflow,
    /// The opcode matches no instruction.
    UnsupportedOpcode,
    /// A key was named by an index outside 0..=15.
    InvalidKeyIndex,
}

/// An operation that `expected` describes ended with `result` and took the
/// state from `before` to `after`: on success the state is the one that
/// `expected` holds; on failure the error is the one that `expected` holds
/// and the state is as it was.
pub open spec fn follows<S>(
    before: S,
    expected: Result<S, EmulatorError>,
    result: Result<(), EmulatorError>,
    after: S,
) -> bool {
    match expected {
        Ok(next) => result == Ok::<(), EmulatorError>(()) && after == next,
        Err(error) => result == Err::<(), EmulatorError>(error) && after == before,
    }
}

} // verus!
