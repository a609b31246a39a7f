use vstd::prelude::*;

verus! {

/// Centres a child in its parent.
pub struct Center;

/// Aligns a child with the far (right or bottom) edge of its parent.
pub struct End;

/// Aligns a child with the near (left or top) edge of its parent.
pub struct Start;

} // verus!
