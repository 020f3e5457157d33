//! A small bytecode virtual machine: instruction set, register file, bounded
//! byte stack, flat memory and an execution engine, each specified and
//! verified with Verus.
use vstd::prelude::*;

pub mod alu;
pub mod bytecode;
pub mod encoding;
pub mod error;
pub mod machine;
pub mod manifest;
pub mod memory;
pub mod register;
pub mod stack;

verus! {

} // verus!
