//! The ray/box slab test and the choice of the nearest box hit.
//!
//! Positions and ray parameters enter as order keys: signed integers that
//! order as the numbers they stand for, with `0` standing for zero. The test
//! only compares them, so it is exact on any such encoding.

use vstd::prelude::*;

verus! {

/// Where a ray meets a box.
#[derive(Clone, Copy, Debug, PartialEq, Eq, Structural)]
pub enum Intersection {
    /// The ray starts inside the box.
    Inside,
    /// The ray starts outside and enters the box at this (positive) parameter.
    Outside(i32),
    /// The ray does not meet the box ahead of its origin.
    Miss,
}

/// The parameters at which a ray crosses the near and the far plane of a
/// box along one axis.
#[derive(Clone, Copy, Debug, PartialEq, Eq, Structural)]
pub struct Slab {
    pub near: i32,
    pub far: i32,
}

/// `p` lies strictly between `lo` and `hi` on all three axes.
pub open spec fn strictly_inside(p: [i32; 3], lo: [i32; 3], hi: [i32; 3]) -> bool {
    &&& lo[0] < p[0] < hi[0]
    &&& lo[1] < p[1] < hi[1]
    &&& lo[2] < p[2] < hi[2]
}

pub open spec fn max2(a: int, b: int) -> int {
    if a >= b {
        a
    } else {
        b
    }
}

pub open spec fn min2(a: int, b: int) -> int {
    if a <= b {
        a
    } else {
        b
    }
}

/// Entry parameter: the latest near crossing over the three axes.
pub open spec fn entry(x: Slab, y: Slab, z: Slab) -> int {
    max2(max2(x.near as int, y.near as int), z.near as int)
}

/// The slab intervals overlap: x's and y's intervals meet, and z's meets
/// their common part. The z interval's far end bounds nothing beyond this
/// test.
pub open spec fn slabs_overlap(x: Slab, y: Slab, z: Slab) -> bool {
    &&& x.near <= y.far
    &&& y.near <= x.far
    &&& max2(x.near as int, y.near as int) <= z.far
    &&& z.near <= min2(x.far as int, y.far as int)
}

/// What the slab test reports for a ray from `origin` against the box
/// `lo .. hi`, with the per-axis crossings `x`, `y`, `z`.
pub open spec fn intersection_of(origin: [i32; 3], lo: [i32; 3], hi: [i32; 3], x: Slab, y: Slab, z: Slab) -> Intersection {
    if strictly_inside(origin, lo, hi) {
        Intersection::Inside
    } else if slabs_overlap(x, y, z) && entry(x, y, z) > 0 {
        Intersection::Outside(entry(x, y, z) as i32)
    } else {
        Intersection::Miss
    }
}

/// The slab test of a ray from `origin` against the box `lo .. hi`, given
/// where the ray crosses each axis's near and far planes.
pub fn get_intersection(origin: [i32; 3], lo: [i32; 3], hi: [i32; 3], x: Slab, y: Slab, z: Slab) -> (r: Intersection)
    ensures
        r == intersection_of(origin, lo, hi, x, y, z),
{
    if lo[0] < origin[0] && lo[1] < origin[1] && lo[2] < origin[2] && origin[0] < hi[0]
        && origin[1] < hi[1] && origin[2] < hi[2] {
        return Intersection::Inside;
    }
    let mut tmin = x.near;
    let mut tmax = x.far;
    if tmin > y.far || y.near > tmax {
        return Intersection::Miss;
    }
    if y.near > tmin {
        tmin = y.near;
    }
    if y.far < tmax {
        tmax = y.far;
    }
    if tmin > z.far || z.near > tmax {
        return Intersection::Miss;
    }
    if z.near > tmin {
        tmin = z.near;
    }
    if tmin <= 0 {
        return Intersection::Miss;
    }
    Intersection::Outside(tmin)
}

/// A ray whose origin lies strictly inside the box is reported inside,
/// whatever its direction.
pub proof fn lemma_inside_any_direction(origin: [i32; 3], lo: [i32; 3], hi: [i32; 3], x: Slab, y: Slab, z: Slab)
    requires
        strictly_inside(origin, lo, hi),
    ensures
        intersection_of(origin, lo, hi, x, y, z) == Intersection::Inside,
{
}

/// An `Outside` report carries a positive parameter, no earlier than any
/// of the three near crossings.
pub proof fn lemma_outside_entry(origin: [i32; 3], lo: [i32; 3], hi: [i32; 3], x: Slab, y: Slab, z: Slab)
    requires
        intersection_of(origin, lo, hi, x, y, z) is Outside,
    ensures
        ({
            let t = intersection_of(origin, lo, hi, x, y, z)->Outside_0;
            &&& t > 0
            &&& t >= x.near && t >= y.near && t >= z.near
        }),
{
}

/// A ray that starts between the x planes and between the y planes, and
/// meets the z near plane ahead of it before it leaves either of the others,
/// enters the box at the z near plane.
pub proof fn lemma_face_entry(origin: [i32; 3], lo: [i32; 3], hi: [i32; 3], x: Slab, y: Slab, z: Slab)
    requires
        !strictly_inside(origin, lo, hi),
        x.near <= 0 && y.near <= 0,
        0 < z.near <= z.far,
        z.near <= x.far && z.near <= y.far,
    ensures
        intersection_of(origin, lo, hi, x, y, z) == Intersection::Outside(z.near),
{
}

/// Which of `hits` a ray meets first: the first one that holds the ray's
/// origin, at parameter `0`; or else the one with the smallest entry
/// parameter below `limit`, the earliest on a tie; or none.
pub open spec fn nearest_of(hits: Seq<Intersection>, limit: i32, r: Option<(usize, i32)>) -> bool {
    if exists|j: int| 0 <= j < hits.len() && #[trigger] hits[j] is Inside {
        &&& r is Some
        &&& r->Some_0.1 == 0
        &&& hits[r->Some_0.0 as int] is Inside
        &&& r->Some_0.0 < hits.len()
        &&& forall|j: int| 0 <= j < r->Some_0.0 ==> !(#[trigger] hits[j] is Inside)
    } else {
        match r {
            Some((i, t)) => {
                &&& i < hits.len()
                &&& hits[i as int] == Intersection::Outside(t)
                &&& t < limit
                &&& forall|j: int|
                    0 <= j < hits.len() && #[trigger] hits[j] is Outside ==> {
                        &&& j < i ==> hits[j]->Outside_0 > t
                        &&& hits[j]->Outside_0 >= t
                    }
            },
            None => forall|j: int|
                0 <= j < hits.len() && #[trigger] hits[j] is Outside ==> hits[j]->Outside_0 >= limit,
        }
    }
}

/// Picks the hit a ray meets first, as `nearest_of` says, scanning `hits`
/// in order and stopping at the first `Inside`.
pub fn nearest(hits: &Vec<Intersection>, limit: i32) -> (r: Option<(usize, i32)>)
    ensures
        nearest_of(hits@, limit, r),
{
    let mut best: Option<(usize, i32)> = None;
    let mut i: usize = 0;
    while i < hits.len()
        invariant
            i <= hits@.len(),
            forall|j: int| 0 <= j < i ==> !(#[trigger] hits@[j] is Inside),
            match best {
                Some((b, t)) => {
                    &&& b < i
                    &&& hits@[b as int] == Intersection::Outside(t)
                    &&& t < limit
                    &&& forall|j: int|
                        0 <= j < i && #[trigger] hits@[j] is Outside ==> {
                            &&& j < b ==> hits@[j]->Outside_0 > t
                            &&& hits@[j]->Outside_0 >= t
                        }
                },
                None => forall|j: int|
                    0 <= j < i && #[trigger] hits@[j] is Outside ==> hits@[j]->Outside_0 >= limit,
            },
        decreases hits@.len() - i,
    {
        match hits[i] {
            Intersection::Inside => {
                return Some((i, 0));
            },
            Intersection::Outside(t) => {
                let better = match best {
                    Some((_, u)) => t < u,
                    None => t < limit,
                };
                if better {
                    best = Some((i, t));
                }
            },
            Intersection::Miss => {},
        }
        i += 1;
    }
    best
}

} // verus!
