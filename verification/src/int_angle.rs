use vstd::prelude::*;
use crate::geometry::Vec2;
use crate::input::Input;

verus! {

/// An angle that is a whole number of right angles, counter-clockwise from
/// the positive x axis: 0 is right, 1 is up, 2 is left, 3 is down.
///
/// The number is kept as it is (it is not reduced modulo 4); arithmetic on it
/// wraps at the bounds of `i32`, which keeps its value modulo 4 intact.
#[derive(PartialEq, Eq, Structural, Hash, Copy, Clone, Debug)]
pub struct IntAngle(pub i32);

/// The direction that a normalized angle (0 to 3) points to.
pub open spec fn dir_vec(k: int) -> Vec2 {
    if k == 0 {
        Vec2 { x: 1, y: 0 }
    } else if k == 1 {
        Vec2 { x: 0, y: 1 }
    } else if k == 2 {
        Vec2 { x: -1i32, y: 0i32 }
    } else {
        Vec2 { x: 0i32, y: -1i32 }
    }
}

pub open spec fn sign(x: i32) -> int {
    if x < 0 {
        -1
    } else if x == 0 {
        0
    } else {
        1
    }
}

impl IntAngle {
    /// The angle reduced to 0, 1, 2 or 3.
    pub open spec fn norm(self) -> int {
        self.0 as int % 4
    }

    pub open spec fn spec_normalize(self) -> IntAngle {
        IntAngle((self.0 as int % 4) as i32)
    }

    pub open spec fn spec_add(self, rhs: IntAngle) -> IntAngle {
        IntAngle(self.0.wrapping_add(rhs.0))
    }

    pub open spec fn spec_sub(self, rhs: IntAngle) -> IntAngle {
        IntAngle(self.0.wrapping_sub(rhs.0))
    }

    pub open spec fn spec_add_input(self, input: Input) -> IntAngle {
        IntAngle(self.0.wrapping_sub(input.spec_delta()))
    }

    pub open spec fn spec_opposite(self) -> IntAngle {
        IntAngle(self.0.wrapping_add(2))
    }

    pub open spec fn spec_rotate_counter_clockwise(self) -> IntAngle {
        IntAngle(self.0.wrapping_add(1))
    }

    pub open spec fn spec_rotate_clockwise(self) -> IntAngle {
        IntAngle(self.0.wrapping_sub(1))
    }

    pub open spec fn spec_with_input(self, input: Input) -> IntAngle {
        match input {
            Input::Left => self.spec_rotate_counter_clockwise(),
            Input::Skip => self,
            Input::Right => self.spec_rotate_clockwise(),
        }
    }

    pub open spec fn spec_to_vec(self) -> Vec2 {
        dir_vec(self.norm())
    }

    pub open spec fn spec_rotate_vec(self, p: Vec2) -> Vec2 {
        let k = self.norm();
        if k == 0 {
            p
        } else if k == 1 {
            p.spec_rotate_90()
        } else if k == 2 {
            p.spec_negated()
        } else {
            p.spec_rotate_90().spec_negated()
        }
    }

    pub open spec fn spec_try_from_vec(v: Vec2) -> Option<IntAngle> {
        let sx = sign(v.x);
        let sy = sign(v.y);
        if sx == -1 && sy == 0 {
            Some(IntAngle(2))
        } else if sx == 1 && sy == 0 {
            Some(IntAngle(0))
        } else if sx == 0 && sy == 1 {
            Some(IntAngle(1))
        } else if sx == 0 && sy == -1 {
            Some(IntAngle(3))
        } else {
            None
        }
    }

    pub fn right() -> (r: IntAngle)
        ensures
            r == IntAngle(0),
    {
        IntAngle(0)
    }

    pub fn up() -> (r: IntAngle)
        ensures
            r == IntAngle(1),
    {
        IntAngle(1)
    }

    pub fn left() -> (r: IntAngle)
        ensures
            r == IntAngle(2),
    {
        IntAngle(2)
    }

    pub fn down() -> (r: IntAngle)
        ensures
            r == IntAngle(3),
    {
        IntAngle(3)
    }


    /// Sum of two angles.
    pub fn add_angle(self, rhs: IntAngle) -> (r: IntAngle)
        ensures
            r == self.spec_add(rhs),
    {
        IntAngle(self.0.wrapping_add(rhs.0))
    }

    /// Difference of two angles.
    pub fn sub_angle(self, rhs: IntAngle) -> (r: IntAngle)
        ensures
            r == self.spec_sub(rhs),
    {
        IntAngle(self.0.wrapping_sub(rhs.0))
    }

    /// The angle turned by an input: one step counter-clockwise for `Left`,
    /// clockwise for `Right`.
    pub fn add_input(self, input: Input) -> (r: IntAngle)
        ensures
            r == self.spec_add_input(input),
    {
        IntAngle(self.0.wrapping_sub(input.delta()))
    }

    /// The angle negated.
    pub fn neg(self) -> (r: IntAngle)
        ensures
            r == IntAngle(0i32.wrapping_sub(self.0)),
    {
        IntAngle(0i32.wrapping_sub(self.0))
    }

    /// The same angle as 0, 1, 2 or 3.
    pub fn normalize(&self) -> (r: IntAngle)
        ensures
            r == self.spec_normalize(),
            0 <= r.0 < 4,
            r.0 == self.norm(),
    {
        let r = self.0.checked_rem_euclid(4);
        match r {
            Some(v) => IntAngle(v),
            None => IntAngle(0),
        }
    }

    pub fn to_i32(&self) -> (r: i32)
        ensures
            r == self.0,
    {
        self.0
    }

    pub fn from_i32(value: i32) -> (r: IntAngle)
        ensures
            r == IntAngle(value),
    {
        IntAngle(value)
    }

    /// Half a turn away.
    pub fn opposite(&self) -> (r: IntAngle)
        ensures
            r == self.spec_opposite(),
    {
        IntAngle(self.0.wrapping_add(2))
    }

    pub fn is_right(&self) -> (r: bool)
        ensures
            r == (self.norm() == 0),
    {
        self.normalize().0 == 0
    }

    pub fn is_up(&self) -> (r: bool)
        ensures
            r == (self.norm() == 1),
    {
        self.normalize().0 == 1
    }

    pub fn is_left(&self) -> (r: bool)
        ensures
            r == (self.norm() == 2),
    {
        self.normalize().0 == 2
    }

    pub fn is_down(&self) -> (r: bool)
        ensures
            r == (self.norm() == 3),
    {
        self.normalize().0 == 3
    }

    /// The angle turned by an input (`Left` turns counter-clockwise).
    pub fn with_input(self, input: Input) -> (r: IntAngle)
        ensures
            r == self.spec_with_input(input),
    {
        match input {
            Input::Left => self.rotate_counter_clockwise(),
            Input::Skip => self,
            Input::Right => self.rotate_clockwise(),
        }
    }

    pub fn rotate_counter_clockwise(self) -> (r: IntAngle)
        ensures
            r == self.spec_rotate_counter_clockwise(),
    {
        IntAngle(self.0.wrapping_add(1))
    }

    pub fn rotate_clockwise(self) -> (r: IntAngle)
        ensures
            r == self.spec_rotate_clockwise(),
    {
        IntAngle(self.0.wrapping_sub(1))
    }

    /// A vector rotated by this angle.
    pub fn rotate_vec(&self, p: Vec2) -> (r: Vec2)
        ensures
            r == self.spec_rotate_vec(p),
    {
        let k = self.normalize().0;
        if k == 0 {
            p
        } else if k == 1 {
            p.rotate_90()
        } else if k == 2 {
            p.negated()
        } else {
            p.rotate_90().negated()
        }
    }

    /// The unit vector that the angle points to.
    pub fn to_vec(&self) -> (r: Vec2)
        ensures
            r == self.spec_to_vec(),
    {
        let k = self.normalize().0;
        if k == 0 {
            Vec2 { x: 1, y: 0 }
        } else if k == 1 {
            Vec2 { x: 0, y: 1 }
        } else if k == 2 {
            Vec2 { x: -1, y: 0 }
        } else {
            Vec2 { x: 0, y: -1 }
        }
    }

    /// The angle of a vector that points along an axis, by the signs of its
    /// coordinates; `None` for the zero vector and for diagonal vectors.
    pub fn try_from_vec(v: Vec2) -> (r: Option<IntAngle>)
        ensures
            r == Self::spec_try_from_vec(v),
    {
        let sx: i32 = if v.x < 0 {
            -1
        } else if v.x == 0 {
            0
        } else {
            1
        };
        let sy: i32 = if v.y < 0 {
            -1
        } else if v.y == 0 {
            0
        } else {
            1
        };
        if sx == -1 && sy == 0 {
            Some(IntAngle::left())
        } else if sx == 1 && sy == 0 {
            Some(IntAngle::right())
        } else if sx == 0 && sy == 1 {
            Some(IntAngle::up())
        } else if sx == 0 && sy == -1 {
            Some(IntAngle::down())
        } else {
            None
        }
    }

    /// The angle of a vector that points along an axis.
    pub fn from_vec(v: Vec2) -> (r: IntAngle)
        requires
            Self::spec_try_from_vec(v) is Some,
        ensures
            Self::spec_try_from_vec(v) == Some(r),
    {
        match Self::try_from_vec(v) {
            Some(a) => a,
            None => IntAngle::right(),
        }
    }
}

/// Wrapping addition of angles adds their values modulo 4.
pub proof fn lemma_norm_add(a: IntAngle, b: IntAngle)
    ensures
        a.spec_add(b).norm() == (a.norm() + b.norm()) % 4,
        a.spec_sub(b).norm() == (a.norm() - b.norm()) % 4,
{
    let x = a.0 as int;
    let y = b.0 as int;
    vstd::arithmetic::div_mod::lemma_mod_multiples_vanish(0x4000_0000, x + y, 4);
    vstd::arithmetic::div_mod::lemma_mod_multiples_vanish(-0x4000_0000, x + y, 4);
    vstd::arithmetic::div_mod::lemma_mod_multiples_vanish(0x4000_0000, x - y, 4);
    vstd::arithmetic::div_mod::lemma_mod_multiples_vanish(-0x4000_0000, x - y, 4);
    vstd::arithmetic::div_mod::lemma_add_mod_noop(x, y, 4);
    vstd::arithmetic::div_mod::lemma_sub_mod_noop(x, y, 4);
}

/// Normalizing is idempotent and lands in 0 to 3.
pub proof fn lemma_normalize(a: IntAngle)
    ensures
        0 <= a.norm() < 4,
        a.spec_normalize().norm() == a.norm(),
        a.spec_normalize().spec_normalize() == a.spec_normalize(),
{
}

/// Turning counter-clockwise and then clockwise gives the angle back, and
/// turning by `Left` and then by `Right` too.
pub proof fn lemma_rotations_cancel(a: IntAngle)
    ensures
        a.spec_rotate_counter_clockwise().spec_rotate_clockwise() == a,
        a.spec_rotate_clockwise().spec_rotate_counter_clockwise() == a,
        a.spec_with_input(Input::Left).spec_with_input(Input::Right) == a,
{
}

/// The opposite of the opposite is the same direction, and opposite
/// directions point to opposite unit vectors.
pub proof fn lemma_opposite(a: IntAngle)
    ensures
        a.spec_opposite().spec_opposite().norm() == a.norm(),
        a.spec_opposite().norm() == (a.norm() + 2) % 4,
        a.spec_opposite().spec_to_vec() == a.spec_to_vec().spec_negated(),
{
    lemma_norm_add(a, IntAngle(2));
    lemma_norm_add(a.spec_opposite(), IntAngle(2));
}

/// Exactly one of `is_right`, `is_up`, `is_left`, `is_down` holds.
pub proof fn lemma_one_direction(a: IntAngle)
    ensures
        (a.norm() == 0) || (a.norm() == 1) || (a.norm() == 2) || (a.norm() == 3),
{
}

/// The angle of the unit vector of an angle is that angle, normalized.
pub proof fn lemma_vec_roundtrip(a: IntAngle)
    ensures
        IntAngle::spec_try_from_vec(a.spec_to_vec()) == Some(a.spec_normalize()),
{
}

/// Rotating a vector by an angle rotates its direction by that angle.
pub proof fn lemma_rotate_unit(a: IntAngle, b: IntAngle)
    ensures
        a.spec_rotate_vec(b.spec_to_vec()) == a.spec_add(b).spec_to_vec(),
{
    lemma_norm_add(a, b);
}

} // verus!
