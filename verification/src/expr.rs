//! The expression tree the compiler consumes: the shapes an external parser
//! hands to this core, already built.

use vstd::prelude::*;

verus! {

/// A numeric constant that was not written as an integer, reduced to what
/// the compiler decides on: whether it is exactly representable as a 32-bit
/// signed integer, and if so by which integer.
///
/// The inspection of the source-level number (not a number at all, out of
/// the 32-bit range, or carrying a fractional part) happens outside this
/// core; only its outcome reaches the compiler.
#[derive(Clone, Copy, Debug, PartialEq, Eq, Structural)]
pub enum NumConst {
    /// Finite, within `[i32::MIN, i32::MAX]`, with zero fractional part:
    /// exactly the 32-bit integer carried here.
    Exact(i32),
    /// Not a number.
    NotANumber,
    /// Finite or infinite, but outside the 32-bit signed range.
    OutOfRange,
    /// Finite and in range, but with a nonzero fractional part.
    Fractional,
}

/// A literal constant node.
#[derive(Clone, Copy, Debug, PartialEq, Eq, Structural)]
pub enum ConstVal {
    /// An integer-typed constant.
    Int(i32),
    /// A numeric constant that was not integer-typed.
    Num(NumConst),
}

/// A binary operator. Only `Add` has a translation rule; the others are
/// recognized shapes without one, and compiling them fails.
#[derive(Clone, Copy, Debug, PartialEq, Eq, Structural)]
pub enum BinOpKind {
    Add,
    Sub,
    Mul,
    Div,
    Rem,
}

/// One node of the expression tree.
#[derive(Debug, PartialEq)]
pub enum Expr {
    /// A literal constant.
    Const(ConstVal),
    /// A read of the named variable.
    Local(String),
    /// An assignment: target node, then value node. Only a `Local` target
    /// has a translation rule.
    Assign(Box<Expr>, Box<Expr>),
    /// A binary operation on two sub-expressions.
    BinOp(BinOpKind, Box<Expr>, Box<Expr>),
    /// A sequential block of sub-expressions.
    Block(Vec<Expr>),
}

} // verus!
