use vstd::prelude::*;

verus! {

/// A cell of the grid or a step between two cells.
///
/// Coordinates are machine integers: adding two vectors wraps around at the
/// bounds of `i32`, as arithmetic on `i32` does in a release build.
#[derive(Copy, Clone, Debug, PartialEq, Eq, Structural, Hash)]
pub struct Vec2 {
    pub x: i32,
    pub y: i32,
}

impl Vec2 {
    pub open spec fn spec_plus(self, rhs: Vec2) -> Vec2 {
        Vec2 { x: self.x.wrapping_add(rhs.x), y: self.y.wrapping_add(rhs.y) }
    }

    pub open spec fn spec_minus(self, rhs: Vec2) -> Vec2 {
        Vec2 { x: self.x.wrapping_sub(rhs.x), y: self.y.wrapping_sub(rhs.y) }
    }

    pub open spec fn spec_negated(self) -> Vec2 {
        Vec2 { x: 0i32.wrapping_sub(self.x), y: 0i32.wrapping_sub(self.y) }
    }

    pub open spec fn spec_rotate_90(self) -> Vec2 {
        Vec2 { x: 0i32.wrapping_sub(self.y), y: self.x }
    }

    pub fn new(x: i32, y: i32) -> (r: Vec2)
        ensures
            r == (Vec2 { x, y }),
    {
        Vec2 { x, y }
    }

    pub fn zero() -> (r: Vec2)
        ensures
            r == (Vec2 { x: 0, y: 0 }),
    {
        Vec2 { x: 0, y: 0 }
    }

    /// Component-wise sum, wrapping at the bounds of `i32`.
    pub fn plus(self, rhs: Vec2) -> (r: Vec2)
        ensures
            r == self.spec_plus(rhs),
    {
        Vec2 { x: self.x.wrapping_add(rhs.x), y: self.y.wrapping_add(rhs.y) }
    }

    /// Component-wise difference, wrapping at the bounds of `i32`.
    pub fn minus(self, rhs: Vec2) -> (r: Vec2)
        ensures
            r == self.spec_minus(rhs),
    {
        Vec2 { x: self.x.wrapping_sub(rhs.x), y: self.y.wrapping_sub(rhs.y) }
    }

    /// Component-wise negation, wrapping at the bounds of `i32`.
    pub fn negated(self) -> (r: Vec2)
        ensures
            r == self.spec_negated(),
    {
        Vec2 { x: 0i32.wrapping_sub(self.x), y: 0i32.wrapping_sub(self.y) }
    }

    /// Rotation by 90 degrees counter-clockwise: `(x, y)` becomes `(-y, x)`.
    pub fn rotate_90(self) -> (r: Vec2)
        ensures
            r == self.spec_rotate_90(),
    {
        Vec2 { x: 0i32.wrapping_sub(self.y), y: self.x }
    }
}

/// The rotation, in quarter turns, that a direction stands for: 0 for a
/// direction with a negative `y` or, on the x axis, a negative `x`; 1 for a
/// positive `x` on the x axis; 2 for a positive `y`.
pub open spec fn spec_vec_to_rot(v: Vec2) -> i32 {
    if v.y < 0 {
        0
    } else if v.y > 0 {
        2
    } else if v.x > 0 {
        1
    } else {
        0
    }
}

/// The rotation, in quarter turns, that a non-zero direction stands for.
pub fn vec_to_rot(v: Vec2) -> (r: i32)
    requires
        v.x != 0 || v.y != 0,
    ensures
        r == spec_vec_to_rot(v),
{
    if v.y < 0 {
        return 0;
    }
    if v.y > 0 {
        return 2;
    }
    if v.x > 0 {
        return 1;
    }
    0
}

} // verus!

verus! {

/// An axis-aligned box of cells, from `min` to `max`.
#[derive(Copy, Clone, Debug, PartialEq, Eq, Structural)]
pub struct Aabb {
    pub min: Vec2,
    pub max: Vec2,
}

pub open spec fn min_i32(a: i32, b: i32) -> i32 {
    if a <= b { a } else { b }
}

pub open spec fn max_i32(a: i32, b: i32) -> i32 {
    if a >= b { a } else { b }
}

/// The smallest box that holds every point, or `None` for no points.
pub open spec fn spec_points_bounding_box(points: Seq<Vec2>) -> Option<Aabb>
    decreases points.len(),
{
    if points.len() == 0 {
        None
    } else {
        let p = points.last();
        match spec_points_bounding_box(points.drop_last()) {
            None => Some(Aabb { min: p, max: p }),
            Some(b) => Some(Aabb {
                min: Vec2 { x: min_i32(b.min.x, p.x), y: min_i32(b.min.y, p.y) },
                max: Vec2 { x: max_i32(b.max.x, p.x), y: max_i32(b.max.y, p.y) },
            }),
        }
    }
}

/// The box of the cells of some points, grown by one cell up and right, as
/// a box of cells covers them: the zero box grown so when there are none.
pub open spec fn spec_cells_bounding_box(points: Seq<Vec2>) -> Aabb {
    let b = match spec_points_bounding_box(points) {
        Some(b) => b,
        None => Aabb { min: Vec2 { x: 0, y: 0 }, max: Vec2 { x: 0, y: 0 } },
    };
    Aabb { min: b.min, max: b.max.spec_plus(Vec2 { x: 1, y: 1 }) }
}

/// The smallest box that holds every point, or `None` for no points.
pub fn points_bounding_box(points: &Vec<Vec2>) -> (r: Option<Aabb>)
    ensures
        r == spec_points_bounding_box(points@),
{
    let mut r: Option<Aabb> = None;
    let mut i: usize = 0;
    while i < points.len()
        invariant
            i <= points.len(),
            r == spec_points_bounding_box(points@.take(i as int)),
        decreases points.len() - i,
    {
        let p = points[i];
        proof {
            assert(points@.take(i + 1).drop_last() =~= points@.take(i as int));
        }
        r = match r {
            None => Some(Aabb { min: p, max: p }),
            Some(b) => Some(
                Aabb {
                    min: Vec2 {
                        x: if b.min.x <= p.x { b.min.x } else { p.x },
                        y: if b.min.y <= p.y { b.min.y } else { p.y },
                    },
                    max: Vec2 {
                        x: if b.max.x >= p.x { b.max.x } else { p.x },
                        y: if b.max.y >= p.y { b.max.y } else { p.y },
                    },
                },
            ),
        };
        i = i + 1;
    }
    proof {
        assert(points@.take(points@.len() as int) =~= points@);
    }
    r
}

/// The box of the cells at some points.
pub fn cells_bounding_box(points: &Vec<Vec2>) -> (r: Aabb)
    ensures
        r == spec_cells_bounding_box(points@),
{
    let b = match points_bounding_box(points) {
        Some(b) => b,
        None => Aabb { min: Vec2::zero(), max: Vec2::zero() },
    };
    Aabb { min: b.min, max: b.max.plus(Vec2::new(1, 1)) }
}

/// Every point lies in the box of the points.
pub proof fn lemma_bounding_box_contains(points: Seq<Vec2>, i: int)
    requires
        0 <= i < points.len(),
    ensures
        spec_points_bounding_box(points) matches Some(b) && b.min.x <= points[i].x <= b.max.x && b.min.y
            <= points[i].y <= b.max.y,
    decreases points.len(),
{
    if i < points.len() - 1 {
        lemma_bounding_box_contains(points.drop_last(), i);
    }
}

} // verus!
