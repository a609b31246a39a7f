use vstd::prelude::*;

verus! {

/// Adds the operand to a vector, component by component.
pub struct Inc;

/// Replaces a vector by the operand.
pub struct Assign;

/// Subtracts the operand from a vector, component by component.
pub struct Dec;

/// Divides a vector by the operand, component by component.
pub struct Divide;

/// Multiplies a vector by the operand, component by component.
pub struct Mul;

} // verus!
