use crate::grid::{Lattice, SdfGrid};
use vstd::prelude::*;

verus! {

/// A sample below the iso-level lies inside the surface; one at or above it
/// lies outside.
pub open spec fn is_inside(v: int, iso: int) -> bool {
    v < iso
}

/// One if `b` holds, zero otherwise.
pub open spec fn count_if(b: bool) -> int {
    if b {
        1
    } else {
        0
    }
}

/// The offset of corner `k` of a cell along `axis` (0 is `x`, 1 is `y`, 2 is
/// `z`): bit `axis` of `k`.
pub open spec fn corner_offset(k: int, axis: int) -> int {
    if axis == 0 {
        k % 2
    } else if axis == 1 {
        (k / 2) % 2
    } else {
        k / 4
    }
}

impl Lattice {
    /// `(x, y, z)` is the minimum corner of a cell.
    pub open spec fn has_cell(self, x: int, y: int, z: int) -> bool {
        &&& 0 <= x < self.n
        &&& 0 <= y < self.n
        &&& 0 <= z < self.n
    }

    /// The samples at the eight corners of cell `(x, y, z)`.
    pub open spec fn corners(self, x: int, y: int, z: int) -> Seq<i32> {
        Seq::new(
            8,
            |k: int|
                self.sample(
                    x + corner_offset(k, 0),
                    y + corner_offset(k, 1),
                    z + corner_offset(k, 2),
                ),
        )
    }
}

/// All eight corners lie inside.
pub open spec fn all_inside(c: Seq<i32>, iso: int) -> bool {
    &&& is_inside(c[0] as int, iso)
    &&& is_inside(c[1] as int, iso)
    &&& is_inside(c[2] as int, iso)
    &&& is_inside(c[3] as int, iso)
    &&& is_inside(c[4] as int, iso)
    &&& is_inside(c[5] as int, iso)
    &&& is_inside(c[6] as int, iso)
    &&& is_inside(c[7] as int, iso)
}

/// All eight corners lie outside.
pub open spec fn all_outside(c: Seq<i32>, iso: int) -> bool {
    &&& !is_inside(c[0] as int, iso)
    &&& !is_inside(c[1] as int, iso)
    &&& !is_inside(c[2] as int, iso)
    &&& !is_inside(c[3] as int, iso)
    &&& !is_inside(c[4] as int, iso)
    &&& !is_inside(c[5] as int, iso)
    &&& !is_inside(c[6] as int, iso)
    &&& !is_inside(c[7] as int, iso)
}

/// A cell is active when its corners do not all lie on one side.
pub open spec fn cell_active(c: Seq<i32>, iso: int) -> bool {
    !all_inside(c, iso) && !all_outside(c, iso)
}

/// The weight of corner `k` in the sign mask: `2^k` if it lies inside.
pub open spec fn mask_bit(c: Seq<i32>, iso: int, k: int, weight: int) -> int {
    if is_inside(c[k] as int, iso) {
        weight
    } else {
        0
    }
}

/// The sign mask of a cell: bit `k` is set when corner `k` lies inside.
pub open spec fn sign_mask(c: Seq<i32>, iso: int) -> int {
    mask_bit(c, iso, 0, 1) + mask_bit(c, iso, 1, 2) + mask_bit(c, iso, 2, 4) + mask_bit(
        c,
        iso,
        3,
        8,
    ) + mask_bit(c, iso, 4, 16) + mask_bit(c, iso, 5, 32) + mask_bit(c, iso, 6, 64) + mask_bit(
        c,
        iso,
        7,
        128,
    )
}

/// The mask is all zeros exactly when every corner lies outside, all ones
/// exactly when every corner lies inside.
pub proof fn lemma_mask_extremes(c: Seq<i32>, iso: int)
    ensures
        0 <= sign_mask(c, iso) <= 255,
        sign_mask(c, iso) == 0 <==> all_outside(c, iso),
        sign_mask(c, iso) == 255 <==> all_inside(c, iso),
        cell_active(c, iso) <==> 0 < sign_mask(c, iso) < 255,
{
}

/// Reads the eight corner samples of cell `(x, y, z)`.
pub fn read_corners(grid: &SdfGrid, x: usize, y: usize, z: usize) -> (c: [i32; 8])
    requires
        grid.wf(),
        grid@.has_cell(x as int, y as int, z as int),
    ensures
        c@ == grid@.corners(x as int, y as int, z as int),
{
    let c = [
        grid.at(x, y, z),
        grid.at(x + 1, y, z),
        grid.at(x, y + 1, z),
        grid.at(x + 1, y + 1, z),
        grid.at(x, y, z + 1),
        grid.at(x + 1, y, z + 1),
        grid.at(x, y + 1, z + 1),
        grid.at(x + 1, y + 1, z + 1),
    ];
    assert(c@ =~= grid@.corners(x as int, y as int, z as int));
    c
}

/// Computes the sign mask of a cell from its corner samples.
pub fn corner_mask(c: &[i32; 8], iso_level: i32) -> (mask: u8)
    ensures
        mask == sign_mask(c@, iso_level as int),
{
    let mut mask: u8 = 0;
    if c[0] < iso_level {
        mask = mask + 1;
    }
    if c[1] < iso_level {
        mask = mask + 2;
    }
    if c[2] < iso_level {
        mask = mask + 4;
    }
    if c[3] < iso_level {
        mask = mask + 8;
    }
    if c[4] < iso_level {
        mask = mask + 16;
    }
    if c[5] < iso_level {
        mask = mask + 32;
    }
    if c[6] < iso_level {
        mask = mask + 64;
    }
    if c[7] < iso_level {
        mask = mask + 128;
    }
    mask
}

/// Whether a cell with the given corner samples is active.
pub fn is_active(c: &[i32; 8], iso_level: i32) -> (active: bool)
    ensures
        active == cell_active(c@, iso_level as int),
{
    let mask = corner_mask(c, iso_level);
    proof {
        lemma_mask_extremes(c@, iso_level as int);
    }
    mask != 0 && mask != 255
}

} // verus!
