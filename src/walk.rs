//! The cell-by-cell walk of a ray through a voxel grid.
//!
//! Ray parameters are unsigned fixed-point numbers: only their order matters
//! to the walk, so any scale serves as long as it is the same on every axis.

use vstd::prelude::*;
use crate::color::Color;
use crate::voxel::Voxel;

verus! {

/// The state of a walk along one axis.
#[derive(Clone, Copy, Debug, PartialEq, Eq, Structural)]
pub struct AxisWalk {
    /// Coordinate of the current cell on this axis.
    pub cell: i64,
    /// Direction of travel: its sign only counts, and zero means that the ray
    /// runs parallel to this axis and never crosses one of its cell boundaries.
    pub step: i64,
    /// Ray parameter at which the next cell boundary on this axis is crossed.
    pub next: u64,
    /// Ray parameter between two successive boundaries on this axis.
    pub delta: u64,
}

impl AxisWalk {
    /// The ray crosses boundaries on this axis.
    pub open spec fn moving(&self) -> bool {
        self.step != 0
    }

    /// The state after crossing the next boundary on this axis; the parameter
    /// saturates at `u64::MAX`.
    pub open spec fn advanced(&self) -> AxisWalk {
        AxisWalk {
            cell: (if self.step > 0 {
                self.cell + 1
            } else {
                self.cell - 1
            }) as i64,
            step: self.step,
            next: self.next.saturating_add(self.delta),
            delta: self.delta,
        }
    }

    /// Cells left before the walk leaves `0 .. size` on this axis.
    pub open spec fn remaining(&self, size: int) -> nat {
        let r = if self.step > 0 {
            size - self.cell
        } else if self.step < 0 {
            self.cell + 1
        } else {
            0
        };
        if r > 0 {
            r as nat
        } else {
            0
        }
    }
}

/// The axis whose next boundary comes first, among those the ray crosses at
/// all: `0`, `1` or `2` for x, y or z, the lower axis on a tie, and `3` when
/// the ray crosses none.
pub open spec fn next_axis(x: AxisWalk, y: AxisWalk, z: AxisWalk) -> int {
    if x.moving() && (!y.moving() || x.next <= y.next) && (!z.moving() || x.next <= z.next) {
        0
    } else if y.moving() && (!z.moving() || y.next <= z.next) {
        1
    } else if z.moving() {
        2
    } else {
        3
    }
}

/// Picks the axis to advance on, as `next_axis` says.
pub fn pick_axis(x: &AxisWalk, y: &AxisWalk, z: &AxisWalk) -> (r: usize)
    ensures
        r == next_axis(*x, *y, *z),
{
    if x.step != 0 && (y.step == 0 || x.next <= y.next) && (z.step == 0 || x.next <= z.next) {
        0
    } else if y.step != 0 && (z.step == 0 || y.next <= z.next) {
        1
    } else if z.step != 0 {
        2
    } else {
        3
    }
}

fn advance(a: &mut AxisWalk)
    requires
        i64::MIN < old(a).cell < i64::MAX,
    ensures
        *final(a) == old(a).advanced(),
{
    if a.step > 0 {
        a.cell = a.cell + 1;
    } else {
        a.cell = a.cell - 1;
    }
    a.next = a.next.saturating_add(a.delta);
}

impl Voxel {
    /// The walk from cells `(x.cell, y.cell, z.cell)` meets an occupied cell
    /// before it leaves the grid: it tests the current cell and, while that
    /// is empty, crosses the boundary of `next_axis`.
    pub open spec fn first_hit(&self, x: AxisWalk, y: AxisWalk, z: AxisWalk) -> bool
        decreases x.remaining(self.sx()) + y.remaining(self.sy()) + z.remaining(self.sz()),
    {
        if !self.contains(x.cell as int, y.cell as int, z.cell as int) {
            false
        } else if self.occupied(x.cell as int, y.cell as int, z.cell as int) {
            true
        } else {
            let k = next_axis(x, y, z);
            if k == 0 {
                self.first_hit(x.advanced(), y, z)
            } else if k == 1 {
                self.first_hit(x, y.advanced(), z)
            } else if k == 2 {
                self.first_hit(x, y, z.advanced())
            } else {
                false
            }
        }
    }

    /// Walks the grid from the given cell, one boundary crossing at a time,
    /// and returns the volume's colour at the first occupied cell, or `None`
    /// when the walk leaves the grid (or starts outside it) first.
    pub fn walk_cells(&self, x: AxisWalk, y: AxisWalk, z: AxisWalk) -> (r: Option<Color>)
        requires
            self.wf(),
        ensures
            r == if self.first_hit(x, y, z) {
                Some(self.color)
            } else {
                None::<Color>
            },
    {
        let mut cx = x;
        let mut cy = y;
        let mut cz = z;
        loop
            invariant
                self.wf(),
                self.first_hit(cx, cy, cz) == self.first_hit(x, y, z),
            decreases cx.remaining(self.sx()) + cy.remaining(self.sy()) + cz.remaining(self.sz()),
        {
            if !self.holds_cell(&cx, &cy, &cz) {
                assert(!self.first_hit(cx, cy, cz));
                return None;
            }
            if self.is_occupied(cx.cell, cy.cell, cz.cell) {
                return Some(self.color);
            }
            let k = pick_axis(&cx, &cy, &cz);
            if k == 0 {
                advance(&mut cx);
            } else if k == 1 {
                advance(&mut cy);
            } else if k == 2 {
                advance(&mut cz);
            } else {
                assert(!self.first_hit(cx, cy, cz));
                return None;
            }
        }
    }

    fn holds_cell(&self, x: &AxisWalk, y: &AxisWalk, z: &AxisWalk) -> (r: bool)
        requires
            self.wf(),
        ensures
            r == self.contains(x.cell as int, y.cell as int, z.cell as int),
    {
        0 <= x.cell && x.cell < self.size[0] as i64 && 0 <= y.cell && y.cell < self.size[1] as i64
            && 0 <= z.cell && z.cell < self.size[2] as i64
    }

    /// The cell coordinate on one axis for a position whose floor is `v`,
    /// kept in `0 .. size`: a position on the far face of the grid belongs to
    /// the last cell, and one a little outside to the nearest cell.
    pub fn clamp_cell(v: i64, size: i16) -> (r: i64)
        requires
            size > 0,
        ensures
            0 <= r < size,
            0 <= v < size ==> r == v,
            v < 0 ==> r == 0,
            v >= size ==> r == size - 1,
    {
        if v < 0 {
            0
        } else if v >= size as i64 {
            size as i64 - 1
        } else {
            v
        }
    }
}

/// A walk whose ray crosses no cell boundary reports exactly whether its
/// start cell is occupied.
pub proof fn lemma_still_walk(v: Voxel, x: AxisWalk, y: AxisWalk, z: AxisWalk)
    requires
        !x.moving() && !y.moving() && !z.moving(),
    ensures
        v.first_hit(x, y, z) == v.occupied(x.cell as int, y.cell as int, z.cell as int),
{
}

/// A walk through a grid with no occupied cell reports no hit.
pub proof fn lemma_empty_grid_no_hit(v: Voxel, x: AxisWalk, y: AxisWalk, z: AxisWalk)
    requires
        forall|a: int, b: int, c: int| !#[trigger] v.occupied(a, b, c),
    ensures
        !v.first_hit(x, y, z),
    decreases x.remaining(v.sx()) + y.remaining(v.sy()) + z.remaining(v.sz()),
{
    if v.contains(x.cell as int, y.cell as int, z.cell as int) {
        let k = next_axis(x, y, z);
        if k == 0 {
            lemma_empty_grid_no_hit(v, x.advanced(), y, z);
        } else if k == 1 {
            lemma_empty_grid_no_hit(v, x, y.advanced(), z);
        } else if k == 2 {
            lemma_empty_grid_no_hit(v, x, y, z.advanced());
        }
    }
}

} // verus!
