use crate::cell::count_if;
use crate::fixed::{
    is_zero, lemma_unit_vector_bounds, lemma_unit_vector_length, magnitude_of, norm_sq_above,
    normalize, unit_vector, Vec3, ONE,
};
use crate::grid::{Lattice, SdfGrid};
use crate::vertex::{edge_crosses, edge_ends, edge_hi, edge_lo, rises};
use vstd::prelude::*;

verus! {

/// Half the distance, in cell units, between the two positions whose
/// interpolated samples are compared along each axis: a sixteenth of a cell.
pub const GRADIENT_STEP: i64 = 4096;

/// The fixed-point representation of minus one.
pub const MINUS_ONE: i64 = -65536;

/// `p` moved by `step` and kept between zero and `hi`.
pub open spec fn clamped_step(p: int, step: int, hi: int) -> int {
    if p + step < 0 {
        0
    } else if p + step > hi {
        hi
    } else {
        p + step
    }
}

impl Lattice {
    /// The largest coordinate, in cell units, of the sampled volume.
    pub open spec fn extent(self) -> int {
        self.n * ONE
    }

    /// The central difference of the interpolated field along `x` at `p`,
    /// between positions kept in the sampled volume.
    pub open spec fn difference_x(self, p: Vec3) -> int {
        let ahead = clamped_step(p.x as int, GRADIENT_STEP as int, self.extent());
        let behind = clamped_step(p.x as int, -GRADIENT_STEP, self.extent());
        self.trilinear(ahead, p.y as int, p.z as int) - self.trilinear(
            behind,
            p.y as int,
            p.z as int,
        )
    }

    /// The central difference of the interpolated field along `y` at `p`.
    pub open spec fn difference_y(self, p: Vec3) -> int {
        let ahead = clamped_step(p.y as int, GRADIENT_STEP as int, self.extent());
        let behind = clamped_step(p.y as int, -GRADIENT_STEP, self.extent());
        self.trilinear(p.x as int, ahead, p.z as int) - self.trilinear(
            p.x as int,
            behind,
            p.z as int,
        )
    }

    /// The central difference of the interpolated field along `z` at `p`.
    pub open spec fn difference_z(self, p: Vec3) -> int {
        let ahead = clamped_step(p.z as int, GRADIENT_STEP as int, self.extent());
        let behind = clamped_step(p.z as int, -GRADIENT_STEP, self.extent());
        self.trilinear(p.x as int, p.y as int, ahead) - self.trilinear(
            p.x as int,
            p.y as int,
            behind,
        )
    }

    /// The gradient of the interpolated field at `p` by central differences:
    /// it points toward growing samples, that is, outward.
    pub open spec fn gradient(self, p: Vec3) -> Vec3 {
        Vec3 {
            x: self.difference_x(p) as i64,
            y: self.difference_y(p) as i64,
            z: self.difference_z(p) as i64,
        }
    }
}

/// The field leaves the surface along edge `e` of a cell, from the edge's
/// start to its end.
pub open spec fn edge_rises(c: Seq<i32>, iso: int, e: int) -> bool {
    rises(c[edge_lo(e)] as int, c[edge_hi(e)] as int, iso)
}

/// The number of the four edges along `axis` through which the surface
/// passes.
pub open spec fn axis_crossings(c: Seq<i32>, iso: int, axis: int) -> int {
    count_if(edge_crosses(c, iso, 4 * axis)) + count_if(edge_crosses(c, iso, 4 * axis + 1))
        + count_if(edge_crosses(c, iso, 4 * axis + 2)) + count_if(
        edge_crosses(c, iso, 4 * axis + 3),
    )
}

/// The number of the four edges along `axis` along which the field leaves
/// the surface.
pub open spec fn axis_rises(c: Seq<i32>, iso: int, axis: int) -> int {
    count_if(edge_rises(c, iso, 4 * axis)) + count_if(edge_rises(c, iso, 4 * axis + 1))
        + count_if(edge_rises(c, iso, 4 * axis + 2)) + count_if(edge_rises(c, iso, 4 * axis + 3))
}

/// The axis with the most crossed edges; of two with as many, the earlier.
pub open spec fn dominant_axis(c: Seq<i32>, iso: int) -> int {
    let kx = axis_crossings(c, iso, 0);
    let ky = axis_crossings(c, iso, 1);
    let kz = axis_crossings(c, iso, 2);
    if kx >= ky && kx >= kz {
        0
    } else if ky >= kz {
        1
    } else {
        2
    }
}

/// The normal used where the gradient vanishes: a unit vector along the
/// dominant axis, pointing the way the field grows on at least half of the
/// crossed edges along that axis.
pub open spec fn fallback_normal(c: Seq<i32>, iso: int) -> Vec3 {
    let a = dominant_axis(c, iso);
    let s = if 2 * axis_rises(c, iso, a) >= axis_crossings(c, iso, a) {
        ONE
    } else {
        MINUS_ONE
    };
    Vec3 {
        x: if a == 0 { s } else { 0 },
        y: if a == 1 { s } else { 0 },
        z: if a == 2 { s } else { 0 },
    }
}

/// The normal of the vertex at `p` in a cell with corner samples `c`: the
/// gradient scaled to unit length, or the fallback where it vanishes.
pub open spec fn vertex_normal(lat: Lattice, c: Seq<i32>, iso: int, p: Vec3) -> Vec3 {
    let g = lat.gradient(p);
    if is_zero(g) {
        fallback_normal(c, iso)
    } else {
        unit_vector(g)
    }
}

/// A vertex normal is never zero, no component exceeds one in magnitude,
/// and adding one to the magnitude of each component makes it longer than
/// one.
pub proof fn lemma_vertex_normal_bounds(lat: Lattice, c: Seq<i32>, iso: int, p: Vec3)
    ensures
        -ONE <= vertex_normal(lat, c, iso, p).x <= ONE,
        -ONE <= vertex_normal(lat, c, iso, p).y <= ONE,
        -ONE <= vertex_normal(lat, c, iso, p).z <= ONE,
        !is_zero(vertex_normal(lat, c, iso, p)),
        ONE * ONE < norm_sq_above(vertex_normal(lat, c, iso, p)),
{
    let g = lat.gradient(p);
    if !is_zero(g) {
        lemma_unit_vector_bounds(g);
        lemma_unit_vector_length(g);
    } else {
        let f = fallback_normal(c, iso);
        assert(ONE * ONE < norm_sq_above(f)) by (nonlinear_arith)
            requires
                norm_sq_above(f) == (magnitude_of(f.x as int) + 1) * (magnitude_of(f.x as int)
                    + 1) + (magnitude_of(f.y as int) + 1) * (magnitude_of(f.y as int) + 1) + (
                magnitude_of(f.z as int) + 1) * (magnitude_of(f.z as int) + 1),
                magnitude_of(f.x as int) == ONE || magnitude_of(f.y as int) == ONE
                    || magnitude_of(f.z as int) == ONE,
                magnitude_of(f.x as int) >= 0,
                magnitude_of(f.y as int) >= 0,
                magnitude_of(f.z as int) >= 0,
                ONE == 65536,
        ;
    }
}

/// What the normal estimator found at a vertex.
#[derive(Clone, Copy, Debug, PartialEq, Eq, Structural)]
pub struct NormalEstimate {
    /// The unit normal.
    pub normal: Vec3,
    /// The gradient vanished and the normal is the fallback.
    pub degenerate: bool,
}

/// Moves a coordinate by `step` and keeps it between zero and `hi`.
fn step_clamped(p: i64, step: i64, hi: i64) -> (r: i64)
    requires
        0 <= p <= hi,
        -GRADIENT_STEP <= step <= GRADIENT_STEP,
        hi <= 0x7fff_ffff_ffff,
    ensures
        r == clamped_step(p as int, step as int, hi as int),
        0 <= r <= hi,
{
    let q = p + step;
    if q < 0 {
        0
    } else if q > hi {
        hi
    } else {
        q
    }
}

/// The gradient of the interpolated field at the position `p`, given in
/// cell units, by central differences.
pub fn gradient(grid: &SdfGrid, p: Vec3) -> (g: Vec3)
    requires
        grid.wf(),
        grid@.covers(p.x as int, p.y as int, p.z as int),
    ensures
        g == grid@.gradient(p),
{
    let hi: i64 = grid.size() as i64 * ONE;
    let dx = grid.interpolate(step_clamped(p.x, GRADIENT_STEP, hi), p.y, p.z) - grid.interpolate(
        step_clamped(p.x, -GRADIENT_STEP, hi),
        p.y,
        p.z,
    );
    let dy = grid.interpolate(p.x, step_clamped(p.y, GRADIENT_STEP, hi), p.z) - grid.interpolate(
        p.x,
        step_clamped(p.y, -GRADIENT_STEP, hi),
        p.z,
    );
    let dz = grid.interpolate(p.x, p.y, step_clamped(p.z, GRADIENT_STEP, hi)) - grid.interpolate(
        p.x,
        p.y,
        step_clamped(p.z, -GRADIENT_STEP, hi),
    );
    Vec3 { x: dx, y: dy, z: dz }
}

/// Whether the surface passes through edge `e`, and whether the field
/// leaves the surface along it.
fn edge_signs(c: &[i32; 8], iso_level: i32, e: usize) -> (r: (bool, bool))
    requires
        e < 12,
    ensures
        r.0 == edge_crosses(c@, iso_level as int, e as int),
        r.1 == edge_rises(c@, iso_level as int, e as int),
{
    let (_, lo, hi) = edge_ends(e);
    let inside_lo = c[lo] < iso_level;
    let inside_hi = c[hi] < iso_level;
    (inside_lo != inside_hi, inside_lo && !inside_hi)
}

/// The number of crossed edges along `axis`, and of those along which the
/// field leaves the surface.
fn axis_counts(c: &[i32; 8], iso_level: i32, axis: usize) -> (r: (u8, u8))
    requires
        axis < 3,
    ensures
        r.0 == axis_crossings(c@, iso_level as int, axis as int),
        r.1 == axis_rises(c@, iso_level as int, axis as int),
        r.1 <= r.0 <= 4,
{
    let mut crossings: u8 = 0;
    let mut rising: u8 = 0;
    let (x0, r0) = edge_signs(c, iso_level, 4 * axis);
    let (x1, r1) = edge_signs(c, iso_level, 4 * axis + 1);
    let (x2, r2) = edge_signs(c, iso_level, 4 * axis + 2);
    let (x3, r3) = edge_signs(c, iso_level, 4 * axis + 3);
    if x0 {
        crossings = crossings + 1;
    }
    if x1 {
        crossings = crossings + 1;
    }
    if x2 {
        crossings = crossings + 1;
    }
    if x3 {
        crossings = crossings + 1;
    }
    if r0 {
        rising = rising + 1;
    }
    if r1 {
        rising = rising + 1;
    }
    if r2 {
        rising = rising + 1;
    }
    if r3 {
        rising = rising + 1;
    }
    (crossings, rising)
}

/// The normal used where the gradient vanishes.
pub fn fallback(c: &[i32; 8], iso_level: i32) -> (f: Vec3)
    ensures
        f == fallback_normal(c@, iso_level as int),
{
    let (kx, rx) = axis_counts(c, iso_level, 0);
    let (ky, ry) = axis_counts(c, iso_level, 1);
    let (kz, rz) = axis_counts(c, iso_level, 2);
    if kx >= ky && kx >= kz {
        Vec3 { x: if 2 * rx >= kx { ONE } else { MINUS_ONE }, y: 0, z: 0 }
    } else if ky >= kz {
        Vec3 { x: 0, y: if 2 * ry >= ky { ONE } else { MINUS_ONE }, z: 0 }
    } else {
        Vec3 { x: 0, y: 0, z: if 2 * rz >= kz { ONE } else { MINUS_ONE } }
    }
}

/// Estimates the normal of the vertex at `p`, given in cell units, in a
/// cell with corner samples `c`.
pub fn estimate_normal(grid: &SdfGrid, c: &[i32; 8], iso_level: i32, p: Vec3) -> (r:
    NormalEstimate)
    requires
        grid.wf(),
        grid@.covers(p.x as int, p.y as int, p.z as int),
    ensures
        r.normal == vertex_normal(grid@, c@, iso_level as int, p),
        r.degenerate == is_zero(grid@.gradient(p)),
{
    let g = gradient(grid, p);
    match normalize(g) {
        Some(u) => NormalEstimate { normal: u, degenerate: false },
        None => NormalEstimate { normal: fallback(c, iso_level), degenerate: true },
    }
}

} // verus!
