//! The shared resource pool and the two ways a unit counter gives to another.

use vstd::prelude::*;

verus! {

/// The three pools that all bots share.
#[derive(Clone, Copy, Debug, PartialEq, Eq, Structural)]
pub struct Resources {
    pub free_protein: u32,
    pub oxygen: u32,
    pub carbon: u32,
}

impl Resources {
    /// Oxygen and carbon together. The two only ever turn into one another.
    pub open spec fn gas(self) -> int {
        self.oxygen + self.carbon
    }
}

/// A counter of units that can take units from another counter.
pub trait Stole: Sized {
    /// How many units the counter holds.
    spec fn units(&self) -> nat;

    /// The most units a counter can hold.
    spec fn capacity() -> nat;

    /// Whether a unit can be taken from this counter.
    fn can_stole(self) -> (r: bool)
        ensures
            r == (self.units() > 0),
    ;

    /// Moves one unit from `other` to `self`.
    fn stole(&mut self, other: &mut Self)
        requires
            old(other).units() > 0,
            old(self).units() < Self::capacity(),
        ensures
            final(self).units() == old(self).units() + 1,
            final(other).units() == old(other).units() - 1,
    ;

    /// Moves all of `other` to `self`.
    fn stole_full(&mut self, other: &mut Self)
        requires
            old(self).units() + old(other).units() <= Self::capacity(),
        ensures
            final(self).units() == old(self).units() + old(other).units(),
            final(other).units() == 0,
    ;
}

impl Stole for u32 {
    open spec fn units(&self) -> nat {
        *self as nat
    }

    open spec fn capacity() -> nat {
        u32::MAX as nat
    }

    fn can_stole(self) -> (r: bool) {
        self > 0
    }

    fn stole(&mut self, other: &mut Self) {
        *other -= 1;
        *self += 1;
    }

    fn stole_full(&mut self, other: &mut Self) {
        *self += *other;
        *other = 0;
    }
}

} // verus!
