use vstd::prelude::*;

verus! {

/// Reacts to the cursor being over a widget: the handler gets the cursor
/// position and the widget, and gives the widget back.
pub struct Hover;

/// Reacts to mouse buttons while the cursor is over a widget: the handler
/// sees each pending button event.
pub struct Mouses;

} // verus!
