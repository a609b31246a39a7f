use vstd::prelude::*;
use vstd::std_specs::convert::FromSpecImpl;

verus! {

/// A pair of coordinates (or extents) along the x and y axes.
#[derive(Debug, Clone, Copy, Default)]
pub struct Vec2<T> {
    pub x: T,
    pub y: T,
}

impl<T> Vec2<T> {
    /// Builds the vector `(x, y)`.
    pub fn new(x: T, y: T) -> (res: Self)
        ensures
            res.x == x,
            res.y == y,
    {
        Vec2 { x, y }
    }
}

impl<T> AsRef<Vec2<T>> for Vec2<T> {
    fn as_ref(&self) -> (res: &Vec2<T>)
        ensures
            res == self,
    {
        self
    }
}

impl<T> From<(T, T)> for Vec2<T> {
    fn from(value: (T, T)) -> (res: Self) {
        Vec2 { x: value.0, y: value.1 }
    }
}

impl<T> FromSpecImpl<(T, T)> for Vec2<T> {
    open spec fn obeys_from_spec() -> bool {
        true
    }

    open spec fn from_spec(v: (T, T)) -> Vec2<T> {
        Vec2 { x: v.0, y: v.1 }
    }
}

impl<'a, T: Copy> From<&'a Vec2<T>> for Vec2<T> {
    fn from(value: &'a Vec2<T>) -> (res: Self) {
        Vec2 { x: value.x, y: value.y }
    }
}

impl<'a, T: Copy> FromSpecImpl<&'a Vec2<T>> for Vec2<T> {
    open spec fn obeys_from_spec() -> bool {
        true
    }

    open spec fn from_spec(v: &'a Vec2<T>) -> Vec2<T> {
        *v
    }
}

/// `T::default` always gives the same value.
pub open spec fn default_is_deterministic<T: Default>() -> bool {
    forall|a: T, b: T| call_ensures(T::default, (), a) && call_ensures(T::default, (), b) ==> a == b
}

/// The value `T::default` gives, when it always gives the same one.
pub open spec fn default_value<T: Default>() -> T {
    choose|a: T| call_ensures(T::default, (), a)
}

impl<T: Default> From<()> for Vec2<T> {
    /// The vector whose coordinates are both `T::default()`.
    fn from(_value: ()) -> (res: Self)
        ensures
            call_ensures(T::default, (), res.x),
            call_ensures(T::default, (), res.y),
    {
        let x = T::default();
        let y = T::default();
        Vec2 { x, y }
    }
}

impl<T: Default> FromSpecImpl<()> for Vec2<T> {
    open spec fn obeys_from_spec() -> bool {
        default_is_deterministic::<T>()
    }

    open spec fn from_spec(v: ()) -> Vec2<T> {
        Vec2 { x: default_value::<T>(), y: default_value::<T>() }
    }
}

} // verus!
