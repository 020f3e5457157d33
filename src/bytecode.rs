//! The instruction set and the value descriptors it is parameterised by.
use vstd::prelude::*;

verus! {

/// Width and numeric domain of an operand: unsigned little-endian integers
/// or IEEE floats.
#[derive(Clone, Copy, Debug, PartialEq, Eq, Structural)]
pub enum Size {
    U8,
    U16,
    U32,
    U64,
    F32,
    F64,
}

/// An ordering or equality predicate, evaluated by `Cmp` and checked by `JmpIf`.
#[derive(Clone, Copy, Debug, PartialEq, Eq, Structural)]
pub enum Comparison {
    Equal,
    NotEqual,
    LessThan,
    LessThanOrEqual,
    GreaterThan,
    GreaterThanOrEqual,
}

/// Number of bytes an operand of this size occupies.
pub open spec fn size_bytes(s: Size) -> nat {
    match s {
        Size::U8 => 1,
        Size::U16 => 2,
        Size::U32 | Size::F32 => 4,
        Size::U64 | Size::F64 => 8,
    }
}

/// Whether the size denotes an unsigned integer.
pub open spec fn is_integer(s: Size) -> bool {
    !(s is F32 || s is F64)
}

impl Size {
    /// Number of bytes an operand of this size occupies.
    pub fn bytes(&self) -> (r: usize)
        ensures
            r == size_bytes(*self),
            1 <= r <= 8,
    {
        match self {
            Size::U8 => 1,
            Size::U16 => 2,
            Size::U32 | Size::F32 => 4,
            Size::U64 | Size::F64 => 8,
        }
    }

    /// Whether the size denotes an unsigned integer.
    pub fn is_integer(&self) -> (r: bool)
        ensures
            r == is_integer(*self),
    {
        match self {
            Size::F32 | Size::F64 => false,
            _ => true,
        }
    }
}

/// Whether `cmp` holds between `a` and `b`.
pub open spec fn compare(cmp: Comparison, a: int, b: int) -> bool {
    match cmp {
        Comparison::Equal => a == b,
        Comparison::NotEqual => a != b,
        Comparison::LessThan => a < b,
        Comparison::LessThanOrEqual => a <= b,
        Comparison::GreaterThan => a > b,
        Comparison::GreaterThanOrEqual => a >= b,
    }
}

impl Comparison {
    /// Evaluates the predicate on two unsigned values.
    pub fn holds(&self, a: u64, b: u64) -> (r: bool)
        ensures
            r == compare(*self, a as int, b as int),
    {
        match self {
            Comparison::Equal => a == b,
            Comparison::NotEqual => a != b,
            Comparison::LessThan => a < b,
            Comparison::LessThanOrEqual => a <= b,
            Comparison::GreaterThan => a > b,
            Comparison::GreaterThanOrEqual => a >= b,
        }
    }
}

/// One instruction. Register operands are 8-bit indices; targets are
/// positions in the program.
#[derive(Clone, Copy, Debug, PartialEq, Eq, Structural)]
pub enum Bytecode {
    /// Stop the machine.
    Halt,
    /// Load an immediate into the low byte of a register.
    Load8(u8, u8),
    /// Load an immediate into the low two bytes of a register.
    Load16(u8, u16),
    /// Load an immediate into the low four bytes of a register.
    Load32(u8, u32),
    /// Load an immediate into the low eight bytes of a register.
    Load64(u8, u64),
    /// Copy a whole register: destination, source.
    LoadReg(u8, u8),
    /// Load from memory: register, address, size.
    LoadMem(u8, usize, Size),
    /// Load from the stack without popping: register, offset from the top, size.
    LoadStack(u8, usize, Size),
    Add(u8, u8, Size),
    Sub(u8, u8, Size),
    Mult(u8, u8, Size),
    Div(u8, u8, Size),
    Mod(u8, u8, Size),
    /// Logical shift left.
    LShift(u8, u8, Size),
    /// Logical shift right.
    RShift(u8, u8, Size),
    /// Arithmetic shift left.
    ALShift(u8, u8, Size),
    /// Arithmetic shift right.
    ARShift(u8, u8, Size),
    And(u8, u8, Size),
    Or(u8, u8, Size),
    Xor(u8, u8, Size),
    Not(u8, Size),
    /// Compare two registers and record the outcome.
    Cmp(u8, u8, Comparison, Size),
    /// Jump to a position.
    Jmp(usize),
    /// Jump to a position if the last comparison held.
    JmpIf(Comparison, usize),
    /// Push the return position and jump.
    Call(usize),
    /// Pop a return position and jump to it.
    Ret,
}

} // verus!
