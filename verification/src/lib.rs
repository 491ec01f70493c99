//! A register-based compiler and virtual machine for a small expression
//! language: integer constants, variable reads and assignments, additive
//! binary operations, and sequential blocks.
//!
//! An already-parsed expression tree is translated by the compiler into a
//! flat sequence of instructions over a file of 256 registers; the virtual
//! machine then executes that sequence against a binding environment and
//! yields the value left in register 0.

pub mod compiler;
pub mod environment;
pub mod expr;
pub mod instruction;
pub mod semantics;
pub mod value;
pub mod vm;
