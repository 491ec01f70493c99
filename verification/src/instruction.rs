//! The instruction set: the fixed vocabulary the compiler emits and the
//! virtual machine executes.

use vstd::prelude::*;

verus! {

/// The index of one register: a slot in the machine's file of 256 values.
///
/// Always passed by value as a coordinate; the compiler guarantees that a
/// compiled program never names an index beyond the file's bounds (a `u8`
/// cannot exceed 255).
#[derive(Clone, Copy, Debug, PartialEq, Eq, Structural)]
pub struct Register(pub u8);

/// A variable name, compared to environment bindings by exact text equality.
#[derive(Clone, Debug, PartialEq, Eq)]
pub struct Identifier(pub String);

/// One atomic operation. Each instruction writes at most one register and
/// reads or writes at most one named binding; no instruction branches, so
/// instruction order is program order.
#[derive(Clone, Debug, PartialEq)]
pub enum Instruction {
    /// Read the binding `name` and store its current value in `target`.
    GetName { target: Register, name: Identifier },
    /// Write the value of `source` into the binding `name`, creating the
    /// binding if it is absent.
    SetName { name: Identifier, source: Register },
    /// Store the value-level sum of `left` and `right` into `target`.
    Add { target: Register, left: Register, right: Register },
    /// Store the 32-bit integer `value` into `target`.
    IntLiteral { target: Register, value: i32 },
}

} // verus!
