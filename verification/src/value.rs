//! The dynamic values that registers and bindings hold, and the value-level
//! addition the `Add` instruction relies on.

use vstd::prelude::*;

verus! {

/// A value held in a register or in an environment binding.
///
/// Registers start out as `Undefined`; the only values the instruction set
/// can produce are 32-bit signed integers.
#[derive(Clone, Copy, Debug, PartialEq, Eq, Structural)]
pub enum Value {
    /// The sentinel every register is initialized to.
    Undefined,
    /// A 32-bit signed integer.
    Integer(i32),
}

/// What value-level addition yields: the integer sum when both operands are
/// integers and the sum fits in 32 bits, and no value otherwise.
pub open spec fn add_value_spec(a: Value, b: Value) -> Option<Value> {
    match (a, b) {
        (Value::Integer(x), Value::Integer(y)) => {
            if i32::MIN <= x + y <= i32::MAX {
                Some(Value::Integer((x + y) as i32))
            } else {
                None
            }
        },
        _ => None,
    }
}

/// Adds two values. `None` reports a failed value operation: an operand is
/// not an integer, or the sum does not fit in 32 bits.
pub fn add_value(a: Value, b: Value) -> (r: Option<Value>)
    ensures
        r == add_value_spec(a, b),
{
    match (a, b) {
        (Value::Integer(x), Value::Integer(y)) => {
            match x.checked_add(y) {
                Some(s) => Some(Value::Integer(s)),
                None => None,
            }
        },
        _ => None,
    }
}

} // verus!
