use vstd::prelude::*;

verus! {

/// Applies only the horizontal coordinate.
pub struct X;

/// Applies only the vertical coordinate.
pub struct Y;

/// Applies both coordinates.
pub struct XY;

} // verus!
