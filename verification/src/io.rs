use vstd::prelude::*;

verus! {

/// Whether a mouse button went down or up.
#[derive(Debug, Clone, Copy, PartialEq, Eq, Structural)]
pub enum State {
    Pressed,
    Released,
}

/// The mouse buttons that widgets react to.
#[derive(Debug, Clone, Copy, PartialEq, Eq, Structural)]
pub enum Mouse {
    Left,
    Right,
    Middle,
    Unknown,
}

/// A key as widgets see it, classified by what it produces.
#[derive(Debug, Clone, Copy, PartialEq, Eq)]
pub enum Key {
    Num(&'static str),
    Char(&'static str),
    Named(&'static str),
    Symbol(&'static str),
    Unknown,
}

} // verus!
