use vstd::prelude::*;

verus! {

/// What a player asks of its box in one turn.
#[derive(Copy, Clone, Debug, PartialEq, Eq, Structural, Hash)]
pub enum Input {
    Left,
    Skip,
    Right,
}

impl Input {
    pub open spec fn spec_from_sign(x: int) -> Input {
        if x < 0 {
            Input::Left
        } else if x == 0 {
            Input::Skip
        } else {
            Input::Right
        }
    }

    pub open spec fn spec_delta(self) -> i32 {
        match self {
            Input::Left => -1i32,
            Input::Skip => 0i32,
            Input::Right => 1i32,
        }
    }

    /// `Left` for a negative number, `Skip` for zero, `Right` for a positive one.
    pub fn from_sign(x: i32) -> (r: Self)
        ensures
            r == Self::spec_from_sign(x as int),
    {
        if x < 0 {
            Input::Left
        } else if x == 0 {
            Input::Skip
        } else {
            Input::Right
        }
    }

    /// -1, 0 or 1.
    pub fn delta(&self) -> (r: i32)
        ensures
            r == self.spec_delta(),
    {
        match self {
            Input::Left => -1,
            Input::Skip => 0,
            Input::Right => 1,
        }
    }
}

/// The sign of an input's delta gives the input back.
pub proof fn lemma_from_sign_of_delta(input: Input)
    ensures
        Input::spec_from_sign(input.spec_delta() as int) == input,
{
}

} // verus!
