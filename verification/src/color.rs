use vstd::prelude::*;
use vstd::std_specs::convert::FromSpecImpl;

verus! {

/// An RGBA colour with one byte per channel.
#[derive(Debug, PartialEq, Eq, Clone, Copy, Structural)]
pub struct Color {
    pub r: u8,
    pub g: u8,
    pub b: u8,
    pub a: u8,
}

/// The colour whose channels are the four bytes of the tuple, in the order
/// red, green, blue, alpha.
pub open spec fn color_of(value: (u8, u8, u8, u8)) -> Color {
    Color { r: value.0, g: value.1, b: value.2, a: value.3 }
}

/// The fully transparent black colour.
pub open spec fn transparent() -> Color {
    Color { r: 0, g: 0, b: 0, a: 0 }
}

impl From<(u8, u8, u8, u8)> for Color {
    fn from(value: (u8, u8, u8, u8)) -> (res: Self) {
        Color { r: value.0, g: value.1, b: value.2, a: value.3 }
    }
}

impl FromSpecImpl<(u8, u8, u8, u8)> for Color {
    open spec fn obeys_from_spec() -> bool {
        true
    }

    open spec fn from_spec(v: (u8, u8, u8, u8)) -> Color {
        color_of(v)
    }
}

impl From<()> for Color {
    fn from(_value: ()) -> (res: Self) {
        Color { r: 0, g: 0, b: 0, a: 0 }
    }
}

impl FromSpecImpl<()> for Color {
    open spec fn obeys_from_spec() -> bool {
        true
    }

    open spec fn from_spec(v: ()) -> Color {
        transparent()
    }
}

impl<'a> From<&'a Color> for Color {
    fn from(value: &'a Color) -> (res: Self) {
        Color { r: value.r, g: value.g, b: value.b, a: value.a }
    }
}

impl<'a> FromSpecImpl<&'a Color> for Color {
    open spec fn obeys_from_spec() -> bool {
        true
    }

    open spec fn from_spec(v: &'a Color) -> Color {
        *v
    }
}

impl<'a> From<&'a mut Color> for Color {
    fn from(value: &'a mut Color) -> (res: Self) {
        Color { r: value.r, g: value.g, b: value.b, a: value.a }
    }
}

impl<'a> FromSpecImpl<&'a mut Color> for Color {
    open spec fn obeys_from_spec() -> bool {
        true
    }

    open spec fn from_spec(v: &'a mut Color) -> Color {
        *v
    }
}

} // verus!
