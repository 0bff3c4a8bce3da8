use vstd::prelude::*;

verus! {

/// A point in game time, counted in thousandths of a turn.
#[derive(Debug, Copy, Clone, Eq, PartialEq, Structural)]
pub struct Time {
    pub value: i64,
}

impl Time {
    /// The number of units in one turn.
    pub open spec fn units_per_turn() -> i64 {
        1000
    }

    pub fn zero() -> (t: Time)
        ensures
            t.value == 0,
    {
        Time { value: 0 }
    }

    /// One turn.
    pub fn one() -> (t: Time)
        ensures
            t.value == Self::units_per_turn(),
    {
        Time { value: 1000 }
    }

    /// One turn later; at the end of time, time stands still.
    pub open spec fn spec_after_turn(self) -> Time {
        if self.value <= i64::MAX - Self::units_per_turn() {
            Time { value: (self.value + Self::units_per_turn()) as i64 }
        } else {
            Time { value: i64::MAX }
        }
    }

    /// One turn later; at the end of time, time stands still.
    pub fn after_turn(self) -> (t: Time)
        ensures
            t == self.spec_after_turn(),
    {
        if self.value <= i64::MAX - 1000 {
            Time { value: self.value + 1000 }
        } else {
            Time { value: i64::MAX }
        }
    }

    /// The sum of two times.
    pub fn add(self, rhs: Time) -> (t: Time)
        requires
            i64::MIN <= self.value + rhs.value <= i64::MAX,
        ensures
            t.value == self.value + rhs.value,
    {
        Time { value: self.value + rhs.value }
    }
}

} // verus!
