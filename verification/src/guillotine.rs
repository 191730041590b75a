//! A slot that gives up its value at most once.
use vstd::prelude::*;

verus! {

/// A slot that either still holds a value or has given it up.
///
/// An owner that is torn down through a mutable reference cannot move its
/// contents out. It keeps them in a `Guillotine` and calls [`Guillotine::take`]:
/// the first call hands the value over and leaves `Dead` behind, so that no
/// later call can hand it over again.
pub enum Guillotine<T> {
    Alive(T),
    Dead,
}

impl<T> Guillotine<T> {
    /// Takes whatever the slot holds and leaves `Dead` in its place.
    pub fn take(&mut self) -> (r: Guillotine<T>)
        ensures
            r == *old(self),
            *final(self) == Guillotine::<T>::Dead,
    {
        let mut taken = Guillotine::Dead;
        std::mem::swap(self, &mut taken);
        taken
    }

    /// The value of a slot that is known to be alive.
    pub fn unwrap_unchecked(self) -> (obj: T)
        requires
            self is Alive,
        ensures
            self == Guillotine::Alive(obj),
    {
        match self {
            Guillotine::Alive(obj) => obj,
            Guillotine::Dead => vstd::pervasive::unreached(),
        }
    }

    /// A slot that borrows the value of this one, alive exactly when this
    /// one is.
    pub fn as_ref(&self) -> (r: Guillotine<&T>)
        ensures
            r == match *self {
                Guillotine::Alive(obj) => Guillotine::Alive(&obj),
                Guillotine::Dead => Guillotine::Dead,
            },
    {
        match self {
            Guillotine::Alive(obj) => Guillotine::Alive(obj),
            Guillotine::Dead => Guillotine::Dead,
        }
    }
}

} // verus!
