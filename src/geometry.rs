//! Integer geometry of the map. All lengths are in half pixels, so that the
//! centre of any whole-pixel tile lies on the grid.
use vstd::prelude::*;

verus! {

/// A point or offset in the plane, in half pixels.
#[derive(Clone, Copy, Debug, PartialEq, Eq, Structural)]
pub struct Vec2 {
    pub x: i64,
    pub y: i64,
}

/// A point or extent in space: `x` and `y` in half pixels, `z` the drawing
/// order (larger is drawn later).
#[derive(Clone, Copy, Debug, PartialEq, Eq, Structural)]
pub struct Vec3 {
    pub x: i64,
    pub y: i64,
    pub z: i64,
}

/// An axis-aligned box given by its closed-open extent `[min, max)` on each axis.
#[derive(Clone, Copy, Debug, PartialEq, Eq, Structural)]
pub struct Aabb {
    pub min: Vec2,
    pub max: Vec2,
}

impl Aabb {
    /// The box moved by `d`.
    pub open spec fn spec_shifted(self, d: Vec2) -> Aabb {
        Aabb {
            min: Vec2 { x: (self.min.x + d.x) as i64, y: (self.min.y + d.y) as i64 },
            max: Vec2 { x: (self.max.x + d.x) as i64, y: (self.max.y + d.y) as i64 },
        }
    }

    /// The two boxes share some area.
    pub open spec fn spec_overlaps(self, o: Aabb) -> bool {
        &&& self.min.x < o.max.x
        &&& o.min.x < self.max.x
        &&& self.min.y < o.max.y
        &&& o.min.y < self.max.y
    }

    pub fn overlaps(&self, o: &Aabb) -> (r: bool)
        ensures
            r == self.spec_overlaps(*o),
    {
        self.min.x < o.max.x && o.min.x < self.max.x && self.min.y < o.max.y && o.min.y
            < self.max.y
    }
}

/// Coordinates stay well inside `i64`, so that sums of a few of them cannot overflow.
pub open spec fn coord_ok(v: int) -> bool {
    -0x1_0000_0000_0000 <= v <= 0x1_0000_0000_0000
}

pub open spec fn vec2_ok(v: Vec2) -> bool {
    coord_ok(v.x as int) && coord_ok(v.y as int)
}

pub open spec fn aabb_ok(b: Aabb) -> bool {
    vec2_ok(b.min) && vec2_ok(b.max)
}

/// A copy of a list of points.
pub fn copy_points(v: &Vec<Vec2>) -> (r: Vec<Vec2>)
    ensures
        r@ == v@,
{
    let mut r: Vec<Vec2> = Vec::new();
    let mut i: usize = 0;
    while i < v.len()
        invariant
            0 <= i <= v@.len(),
            r@ == v@.subrange(0, i as int),
        decreases v@.len() - i,
    {
        r.push(v[i]);
        i = i + 1;
        proof {
            assert(r@ =~= v@.subrange(0, i as int));
        }
    }
    proof {
        assert(r@ =~= v@);
    }
    r
}

} // verus!
