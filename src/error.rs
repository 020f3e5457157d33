//! Errors raised while running a program.
use vstd::prelude::*;

verus! {

/// Why an instruction, or the construction of a machine, failed.
#[derive(Clone, Copy, Debug, PartialEq, Eq, Structural)]
pub enum ExecutionError {
    StackOverflow,
    StackUnderflow,
    /// A memory access beyond the memory's capacity.
    OutOfBounds,
    /// A register index beyond the register file.
    InvalidRegister,
    /// A register write whose length differs from the register width.
    InvalidWidth,
    /// An operation applied to a size it is not defined for, or a `JmpIf`
    /// whose comparison is not the one last evaluated.
    InvalidOperation,
    /// A jump or call target, or a fetch, outside the program.
    InvalidTarget,
    /// Integer division or remainder by zero.
    DivisionByZero,
    /// A machine configured with a zero capacity, no registers or more than
    /// an 8-bit index reaches, or registers narrower than the widest operand.
    InvalidConfiguration,
}

} // verus!
