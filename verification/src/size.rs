use vstd::prelude::*;

verus! {

/// A size source: the whole drawing surface.
pub struct Screen;

/// A size source: the size of the enclosing container.
pub struct Inherit;

} // verus!
