//! A voxel volume: a dense grid of occupancy bits with one fill colour.

use vstd::prelude::*;
use vstd::arithmetic::div_mod::lemma_fundamental_div_mod_converse;
use crate::bits::{Bits, bits_of, bits_repeat, bits_get, bits_set};
use crate::color::Color;

verus! {

/// Linear index of cell `(x, y, z)` in a grid `sx` cells wide and `sy` cells deep.
pub open spec fn grid_index(sx: int, sy: int, x: int, y: int, z: int) -> int {
    x + y * sx + z * (sx * sy)
}

/// `(x, y, z)` lies in a grid of `sx * sy * sz` cells.
pub open spec fn in_grid(sx: int, sy: int, sz: int, x: int, y: int, z: int) -> bool {
    0 <= x < sx && 0 <= y < sy && 0 <= z < sz
}

/// `(x, y, z)` lies in the half-open box `from .. to`.
pub open spec fn in_rect(from: [usize; 3], to: [usize; 3], x: int, y: int, z: int) -> bool {
    from[0] <= x < to[0] && from[1] <= y < to[1] && from[2] <= z < to[2]
}

/// `(a, b, c)` is among the cells of the box `from .. to` that a fill visiting
/// `x`, then `y`, then `z` in increasing order has written before reaching `(x, y, z)`.
spec fn fill_prefix(from: [usize; 3], to: [usize; 3], x: int, y: int, z: int, a: int, b: int, c: int) -> bool {
    ||| (from[0] <= a < x && from[1] <= b < to[1] && from[2] <= c < to[2])
    ||| (a == x && from[1] <= b < y && from[2] <= c < to[2])
    ||| (a == x && b == y && from[2] <= c < z)
}

/// Number of `true` entries in `s`.
pub open spec fn count_true(s: Seq<bool>) -> nat
    decreases s.len(),
{
    if s.len() == 0 {
        0
    } else {
        count_true(s.drop_last()) + if s.last() {
            1nat
        } else {
            0
        }
    }
}

proof fn lemma_count_all_true(s: Seq<bool>)
    requires
        forall|i: int| 0 <= i < s.len() ==> #[trigger] s[i],
    ensures
        count_true(s) == s.len(),
    decreases s.len(),
{
    if s.len() > 0 {
        lemma_count_all_true(s.drop_last());
    }
}

proof fn lemma_index_bounds(sx: int, sy: int, sz: int, x: int, y: int, z: int)
    requires
        in_grid(sx, sy, sz, x, y, z),
    ensures
        0 <= grid_index(sx, sy, x, y, z) < sx * sy * sz,
{
    assert(0 <= y + sy * z <= sy * sz - 1) by (nonlinear_arith)
        requires
            0 <= y < sy,
            0 <= z < sz,
    ;
    assert(0 <= x + sx * (y + sy * z) < sx * (sy * sz)) by (nonlinear_arith)
        requires
            0 <= x < sx,
            0 <= y + sy * z <= sy * sz - 1,
    ;
    assert(grid_index(sx, sy, x, y, z) == x + sx * (y + sy * z)) by (nonlinear_arith);
    assert(sx * (sy * sz) == sx * sy * sz) by (nonlinear_arith);
}

proof fn lemma_index_unique(sx: int, sy: int, sz: int, a: int, b: int, c: int, x: int, y: int, z: int)
    requires
        in_grid(sx, sy, sz, a, b, c),
        in_grid(sx, sy, sz, x, y, z),
        grid_index(sx, sy, a, b, c) == grid_index(sx, sy, x, y, z),
    ensures
        a == x && b == y && c == z,
{
    let i = grid_index(sx, sy, x, y, z);
    assert(i == (b + c * sy) * sx + a) by (nonlinear_arith)
        requires
            i == grid_index(sx, sy, a, b, c),
    ;
    assert(i == (y + z * sy) * sx + x) by (nonlinear_arith)
        requires
            i == grid_index(sx, sy, x, y, z),
    ;
    lemma_fundamental_div_mod_converse(i, sx, b + c * sy, a);
    lemma_fundamental_div_mod_converse(i, sx, y + z * sy, x);
    lemma_fundamental_div_mod_converse(b + c * sy, sy, c, b);
    lemma_fundamental_div_mod_converse(y + z * sy, sy, z, y);
}

proof fn lemma_index_onto(sx: int, sy: int, sz: int, i: int)
    requires
        0 < sx,
        0 < sy,
        0 < sz,
        0 <= i < sx * sy * sz,
    ensures
        in_grid(sx, sy, sz, i % sx, (i / sx) % sy, (i / sx) / sy),
        grid_index(sx, sy, i % sx, (i / sx) % sy, (i / sx) / sy) == i,
{
    let q = i / sx;
    let x = i % sx;
    let y = q % sy;
    let z = q / sy;
    assert(i == q * sx + x && 0 <= x < sx) by {
        vstd::arithmetic::div_mod::lemma_fundamental_div_mod(i, sx);
        vstd::arithmetic::div_mod::lemma_mod_bound(i, sx);
    }
    assert(q == z * sy + y && 0 <= y < sy) by {
        vstd::arithmetic::div_mod::lemma_fundamental_div_mod(q, sy);
        vstd::arithmetic::div_mod::lemma_mod_bound(q, sy);
    }
    assert(0 <= q < sy * sz) by (nonlinear_arith)
        requires
            i == q * sx + x,
            0 <= x < sx,
            0 <= i < sx * sy * sz,
    ;
    assert(0 <= z < sz) by (nonlinear_arith)
        requires
            q == z * sy + y,
            0 <= y < sy,
            0 <= q < sy * sz,
    ;
    assert(grid_index(sx, sy, x, y, z) == i) by (nonlinear_arith)
        requires
            i == q * sx + x,
            q == z * sy + y,
    ;
}

/// A box of `size[0] * size[1] * size[2]` cells, each occupied or empty,
/// all drawn in one colour.
pub struct Voxel {
    pub size: [i16; 3],
    pub data: Bits,
    pub color: Color,
}

impl Voxel {
    pub open spec fn sx(&self) -> int {
        self.size[0] as int
    }

    pub open spec fn sy(&self) -> int {
        self.size[1] as int
    }

    pub open spec fn sz(&self) -> int {
        self.size[2] as int
    }

    /// Number of cells in the grid.
    pub open spec fn cell_count(&self) -> int {
        self.sx() * self.sy() * self.sz()
    }

    /// The occupancy bits, in linear index order.
    pub open spec fn cells(&self) -> Seq<bool> {
        bits_of(self.data)
    }

    /// Every side is positive and there is one bit per cell.
    pub open spec fn wf(&self) -> bool {
        &&& 0 < self.sx()
        &&& 0 < self.sy()
        &&& 0 < self.sz()
        &&& self.cell_count() <= usize::MAX
        &&& self.cells().len() == self.cell_count()
    }

    /// Cell `(x, y, z)` is in the grid.
    pub open spec fn contains(&self, x: int, y: int, z: int) -> bool {
        in_grid(self.sx(), self.sy(), self.sz(), x, y, z)
    }

    /// Linear index of cell `(x, y, z)`.
    pub open spec fn index(&self, x: int, y: int, z: int) -> int {
        grid_index(self.sx(), self.sy(), x, y, z)
    }

    /// Cell `(x, y, z)` is in the grid and occupied.
    pub open spec fn occupied(&self, x: int, y: int, z: int) -> bool {
        self.contains(x, y, z) && self.cells()[self.index(x, y, z)]
    }

    /// An empty grid of `size` cells drawn in `color`. Every side must be
    /// positive, and the bit-vector must be able to hold one bit per cell.
    pub fn new(size: [i16; 3], color: Color) -> (v: Voxel)
        requires
            size[0] > 0 && size[1] > 0 && size[2] > 0,
            size[0] * size[1] * size[2] <= usize::MAX / 8,
        ensures
            v.wf(),
            v.size == size,
            v.color == color,
            forall|x: int, y: int, z: int| #[trigger] v.occupied(x, y, z) == false,
    {
        let sx = size[0] as usize;
        let sy = size[1] as usize;
        let sz = size[2] as usize;
        assert(sx * sy <= sx * sy * sz) by (nonlinear_arith)
            requires
                sz >= 1,
                sx * sy >= 0,
        ;
        let n = sx * sy * sz;
        let data = bits_repeat(false, n);
        let v = Voxel { size, data, color };
        assert forall|x: int, y: int, z: int| #[trigger] v.occupied(x, y, z) == false by {
            if v.contains(x, y, z) {
                lemma_index_bounds(v.sx(), v.sy(), v.sz(), x, y, z);
            }
        }
        v
    }

    /// Number of cells, as a `usize`.
    pub fn len(&self) -> (n: usize)
        requires
            self.wf(),
        ensures
            n == self.cell_count(),
    {
        let sx = self.size[0] as usize;
        let sy = self.size[1] as usize;
        let sz = self.size[2] as usize;
        assert(sx * sy <= sx * sy * sz) by (nonlinear_arith)
            requires
                sz >= 1,
                sx * sy >= 0,
        ;
        sx * sy * sz
    }

    /// Linear index of cell `(x, y, z)`, which must be in the grid.
    fn linear_index(&self, x: usize, y: usize, z: usize) -> (i: usize)
        requires
            self.wf(),
            self.contains(x as int, y as int, z as int),
        ensures
            i == self.index(x as int, y as int, z as int),
            i < self.cell_count(),
    {
        let sx = self.size[0] as usize;
        let sy = self.size[1] as usize;
        proof {
            lemma_index_bounds(self.sx(), self.sy(), self.sz(), x as int, y as int, z as int);
            assert(y * sx <= x + y * sx + z * (sx * sy)) by (nonlinear_arith)
                requires
                    z * (sx * sy) >= 0,
            ;
            assert(sx * sy <= self.cell_count()) by (nonlinear_arith)
                requires
                    self.sz() >= 1,
                    sx * sy >= 0,
                    self.cell_count() == sx * sy * self.sz(),
            ;
            assert(z * (sx * sy) <= x + y * sx + z * (sx * sy)) by (nonlinear_arith)
                requires
                    y * sx >= 0,
            ;
        }
        x + y * sx + z * (sx * sy)
    }

    /// Occupancy of cell `(x, y, z)`, which must be in the grid.
    pub fn get_bit(&self, x: i16, y: i16, z: i16) -> (r: bool)
        requires
            self.wf(),
            self.contains(x as int, y as int, z as int),
        ensures
            r == self.occupied(x as int, y as int, z as int),
    {
        let i = self.linear_index(x as usize, y as usize, z as usize);
        bits_get(&self.data, i)
    }

    /// Occupancy of cell `(x, y, z)`; a cell outside the grid is empty.
    pub fn is_occupied(&self, x: i64, y: i64, z: i64) -> (r: bool)
        requires
            self.wf(),
        ensures
            r == self.occupied(x as int, y as int, z as int),
    {
        if x < 0 || y < 0 || z < 0 || x >= self.size[0] as i64 || y >= self.size[1] as i64
            || z >= self.size[2] as i64 {
            false
        } else {
            let i = self.linear_index(x as usize, y as usize, z as usize);
            bits_get(&self.data, i)
        }
    }

    /// Sets every cell to `v`.
    pub fn fill_with(&mut self, v: bool)
        requires
            old(self).wf(),
        ensures
            final(self).wf(),
            final(self).size == old(self).size,
            final(self).color == old(self).color,
            final(self).cells() == Seq::new(old(self).cells().len(), |_i: int| v),
    {
        let n = self.len();
        let mut i: usize = 0;
        while i < n
            invariant
                self.wf(),
                self.size == old(self).size,
                self.color == old(self).color,
                n == self.cells().len(),
                i <= n,
                forall|j: int| 0 <= j < i ==> #[trigger] self.cells()[j] == v,
            decreases n - i,
        {
            bits_set(&mut self.data, i, v);
            i += 1;
        }
        assert(self.cells() =~= Seq::new(old(self).cells().len(), |_i: int| v));
    }

    /// Sets every cell of the box `from .. to` to `v` and leaves the others.
    /// The box must be non-empty on every axis and lie in the grid.
    pub fn fill_rect(&mut self, from: [usize; 3], to: [usize; 3], v: bool)
        requires
            old(self).wf(),
            from[0] < to[0] && from[1] < to[1] && from[2] < to[2],
            to[0] <= old(self).sx() && to[1] <= old(self).sy() && to[2] <= old(self).sz(),
        ensures
            final(self).wf(),
            final(self).size == old(self).size,
            final(self).color == old(self).color,
            forall|x: int, y: int, z: int| #[trigger]
                final(self).occupied(x, y, z) == if in_rect(from, to, x, y, z) {
                    v
                } else {
                    old(self).occupied(x, y, z)
                },
    {
        let mut x: usize = from[0];
        while x < to[0]
            invariant
                self.wf(),
                self.size == old(self).size,
                self.color == old(self).color,
                from[0] <= x <= to[0],
                from[1] < to[1] && from[2] < to[2],
                to[0] <= self.sx() && to[1] <= self.sy() && to[2] <= self.sz(),
                forall|a: int, b: int, c: int| #[trigger]
                    self.occupied(a, b, c) == if fill_prefix(from, to, x as int, from[1] as int, from[2] as int, a, b, c) {
                        v
                    } else {
                        old(self).occupied(a, b, c)
                    },
            decreases to[0] - x,
        {
            let mut y: usize = from[1];
            while y < to[1]
                invariant
                    self.wf(),
                    self.size == old(self).size,
                    self.color == old(self).color,
                    from[0] <= x < to[0],
                    from[1] <= y <= to[1],
                    from[2] < to[2],
                    to[0] <= self.sx() && to[1] <= self.sy() && to[2] <= self.sz(),
                    forall|a: int, b: int, c: int| #[trigger]
                        self.occupied(a, b, c) == if fill_prefix(from, to, x as int, y as int, from[2] as int, a, b, c) {
                            v
                        } else {
                            old(self).occupied(a, b, c)
                        },
                decreases to[1] - y,
            {
                let mut z: usize = from[2];
                while z < to[2]
                    invariant
                        self.wf(),
                        self.size == old(self).size,
                        self.color == old(self).color,
                        from[0] <= x < to[0],
                        from[1] <= y < to[1],
                        from[2] <= z <= to[2],
                        to[0] <= self.sx() && to[1] <= self.sy() && to[2] <= self.sz(),
                        forall|a: int, b: int, c: int| #[trigger]
                            self.occupied(a, b, c) == if fill_prefix(from, to, x as int, y as int, z as int, a, b, c) {
                                v
                            } else {
                                old(self).occupied(a, b, c)
                            },
                    decreases to[2] - z,
                {
                    let i = self.linear_index(x, y, z);
                    let ghost before = *self;
                    bits_set(&mut self.data, i, v);
                    assert forall|a: int, b: int, c: int| #[trigger]
                        self.occupied(a, b, c) == if fill_prefix(from, to, x as int, y as int, z + 1, a, b, c) {
                            v
                        } else {
                            old(self).occupied(a, b, c)
                        } by {
                        if self.contains(a, b, c) {
                            lemma_index_bounds(self.sx(), self.sy(), self.sz(), a, b, c);
                            if self.index(a, b, c) == i {
                                lemma_index_unique(self.sx(), self.sy(), self.sz(), a, b, c, x as int, y as int, z as int);
                            }
                            assert(before.occupied(a, b, c) == before.cells()[self.index(a, b, c)]);
                        }
                    }
                    z += 1;
                }
                y += 1;
            }
            x += 1;
        }
        assert forall|a: int, b: int, c: int| #[trigger]
            self.occupied(a, b, c) == if in_rect(from, to, a, b, c) {
                v
            } else {
                old(self).occupied(a, b, c)
            } by {
            assert(fill_prefix(from, to, to[0] as int, from[1] as int, from[2] as int, a, b, c) == in_rect(from, to, a, b, c));
        }
    }

    /// Number of occupied cells.
    pub fn count_occupied(&self) -> (n: usize)
        requires
            self.wf(),
        ensures
            n == count_true(self.cells()),
    {
        let len = self.len();
        let mut n: usize = 0;
        let mut i: usize = 0;
        while i < len
            invariant
                len == self.cells().len(),
                i <= len,
                n == count_true(self.cells().take(i as int)),
                n <= i,
            decreases len - i,
        {
            assert(self.cells().take(i + 1).drop_last() =~= self.cells().take(i as int));
            if bits_get(&self.data, i) {
                n += 1;
            }
            i += 1;
        }
        assert(self.cells().take(len as int) =~= self.cells());
        n
    }
}

/// Filling a grid with `v` and then reading any cell of it gives `v`.
pub proof fn lemma_fill_then_query(before: Voxel, after: Voxel, v: bool, x: int, y: int, z: int)
    requires
        before.wf(),
        after.size == before.size,
        after.cells() == Seq::new(before.cells().len(), |_i: int| v),
        before.contains(x, y, z),
    ensures
        after.occupied(x, y, z) == v,
{
    lemma_index_bounds(before.sx(), before.sy(), before.sz(), x, y, z);
}

/// Filling the box from `[0, 0, 0]` to the grid's size with `true` leaves
/// every one of its `size[0] * size[1] * size[2]` cells occupied, so a full
/// count finds them all.
pub proof fn lemma_full_fill_count(before: Voxel, after: Voxel)
    requires
        before.wf(),
        after.wf(),
        after.size == before.size,
        forall|x: int, y: int, z: int| #[trigger]
            after.occupied(x, y, z) == if in_rect(
                [0usize, 0usize, 0usize],
                [before.size[0] as usize, before.size[1] as usize, before.size[2] as usize],
                x,
                y,
                z,
            ) {
                true
            } else {
                before.occupied(x, y, z)
            },
    ensures
        count_true(after.cells()) == after.cell_count(),
{
    let s = after.cells();
    assert forall|i: int| 0 <= i < s.len() implies #[trigger] s[i] by {
        lemma_index_onto(after.sx(), after.sy(), after.sz(), i);
        let x = i % after.sx();
        let y = (i / after.sx()) % after.sy();
        let z = (i / after.sx()) / after.sy();
        assert(after.occupied(x, y, z));
    }
    lemma_count_all_true(s);
}

} // verus!
