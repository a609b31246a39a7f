use vstd::prelude::*;

verus! {

/// Draws a container as a plain, possibly rounded, rectangle.
pub struct Plain;

/// Draws a container as a tinted image.
pub struct Image;

} // verus!
