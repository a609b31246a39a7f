use vstd::prelude::*;

verus! {

/// Text content: none at all.
pub struct Empty;

/// Text content: a paragraph wrapped to the width of its box.
pub struct Wrap;

/// Text content: a single line.
pub struct Linear;

} // verus!
