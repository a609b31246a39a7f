use vstd::prelude::*;
use std::marker::PhantomData;

verus! {

/// An option decided by the type: `CSome` always holds a value, `CNone`
/// never does. Each method hands the value, if there is one, to `f`.
pub trait COption: Default {
    type Data;

    /// The value held, if any.
    spec fn data(&self) -> Option<Self::Data>;

    /// Lends the value to `f`, if there is one.
    fn as_ref<F: FnOnce(&Self::Data)>(&self, f: F)
        requires
            self.data() matches Some(d) ==> f.requires((&d,)),
    {
    }

    /// Lends the value mutably to `f`, if there is one.
    fn as_mut<F: FnOnce(&mut Self::Data)>(&mut self, f: F)
        requires
            old(self).data() matches Some(d) ==> forall|r: &mut Self::Data| *r == d ==> f.requires((r,)),
    {
    }

    /// Hands the value to `f`, if there is one.
    fn take<F: FnOnce(Self::Data)>(self, f: F)
        requires
            self.data() matches Some(d) ==> f.requires((d,)),
    ;

    /// Hands the value to `f` and keeps what `f` gives back, if there is a
    /// value; the option itself is consumed.
    fn take_back<F: FnOnce(Self::Data) -> Self::Data>(self, f: F)
        requires
            self.data() matches Some(d) ==> f.requires((d,)),
    ;
}

/// The option that holds a value.
#[derive(Default, Debug)]
pub struct CSome<T: Default>(pub T);

impl<T: Default> COption for CSome<T> {
    type Data = T;

    open spec fn data(&self) -> Option<T> {
        Some(self.0)
    }

    /// Lends the held value to `f`.
    fn as_ref<F: FnOnce(&T)>(&self, f: F)
        ensures
            f.ensures((&self.0,), ()),
    {
        f(&self.0)
    }

    /// Lends the held value mutably to `f`: afterwards it holds what `f` left
    /// behind the reference.
    fn as_mut<F: FnOnce(&mut T)>(&mut self, f: F)
        ensures
            exists|r: &mut T|
                *r == old(self).0 && *final(r) == final(self).0 && f.ensures((r,), ()),
    {
        f(&mut self.0)
    }

    /// Hands the held value to `f`.
    fn take<F: FnOnce(T)>(self, f: F)
        ensures
            f.ensures((self.0,), ()),
    {
        f(self.0)
    }

    /// Hands the held value to `f`; what `f` gives back replaces it in the
    /// consumed option.
    fn take_back<F: FnOnce(T) -> T>(self, f: F)
        ensures
            exists|r: T| f.ensures((self.0,), r),
    {
        let mut this = self;
        this.0 = f(this.0);
    }
}

/// The option that holds no value of type `T`.
pub struct CNone<T>(PhantomData<T>);

impl<T> CNone<T> {
    /// The empty option.
    pub fn new() -> Self {
        CNone(PhantomData)
    }
}

impl<T> Default for CNone<T> {
    fn default() -> Self {
        Self::new()
    }
}

impl<T> COption for CNone<T> {
    type Data = T;

    open spec fn data(&self) -> Option<T> {
        None
    }

    fn take<F: FnOnce(T)>(self, f: F) {
    }

    fn take_back<F: FnOnce(T) -> T>(self, f: F) {
    }
}

} // verus!
