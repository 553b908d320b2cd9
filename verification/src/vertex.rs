use crate::cell::{cell_active, corner_offset, is_inside};
use crate::fixed::{lemma_scaled_quotient, Vec3, ONE};
use crate::grid::MAX_CHUNK_SIZE;
use vstd::prelude::*;

verus! {

/// The axis along which edge `e` of a cell runs: edges 0 to 3 run along `x`,
/// 4 to 7 along `y`, 8 to 11 along `z`.
pub open spec fn edge_axis(e: int) -> int {
    e / 4
}

/// The corner at which edge `e` starts.
pub open spec fn edge_lo(e: int) -> int {
    if e < 4 {
        2 * e
    } else if e < 8 {
        (e - 4) % 2 + 4 * ((e - 4) / 2)
    } else {
        e - 8
    }
}

/// The corner at which edge `e` ends: one step from its start along its axis.
pub open spec fn edge_hi(e: int) -> int {
    if e < 4 {
        edge_lo(e) + 1
    } else if e < 8 {
        edge_lo(e) + 2
    } else {
        edge_lo(e) + 4
    }
}

/// The surface passes between two samples when they lie on different sides.
pub open spec fn crosses(v0: int, v1: int, iso: int) -> bool {
    is_inside(v0, iso) != is_inside(v1, iso)
}

/// The field leaves the surface from `v0` to `v1`: inside first, outside next.
pub open spec fn rises(v0: int, v1: int, iso: int) -> bool {
    is_inside(v0, iso) && !is_inside(v1, iso)
}

/// How far from the sample `v0` toward `v1` the linearly interpolated field
/// reaches the iso-level, in fixed point and rounded down:
/// `(iso - v0) / (v1 - v0)`.
pub open spec fn crossing_offset(v0: int, v1: int, iso: int) -> int {
    if v0 < v1 {
        ((iso - v0) * ONE) / (v1 - v0)
    } else {
        ((v0 - iso) * ONE) / (v0 - v1)
    }
}

/// Between samples on different sides the crossing lies on the edge: the
/// samples differ, and the offset is between zero and one.
pub proof fn lemma_crossing_offset_bounds(v0: int, v1: int, iso: int)
    requires
        crosses(v0, v1, iso),
    ensures
        v0 != v1,
        0 <= crossing_offset(v0, v1, iso) <= ONE,
{
    if v0 < v1 {
        lemma_scaled_quotient(iso - v0, v1 - v0);
    } else {
        lemma_scaled_quotient(v0 - iso, v0 - v1);
    }
}

/// The surface passes through edge `e` of a cell with corner samples `c`.
pub open spec fn edge_crosses(c: Seq<i32>, iso: int, e: int) -> bool {
    crosses(c[edge_lo(e)] as int, c[edge_hi(e)] as int, iso)
}

/// Coordinate `axis` of the crossing point on edge `e`, relative to the
/// cell's minimum corner.
pub open spec fn edge_point(c: Seq<i32>, iso: int, e: int, axis: int) -> int {
    corner_offset(edge_lo(e), axis) * ONE + if edge_axis(e) == axis {
        crossing_offset(c[edge_lo(e)] as int, c[edge_hi(e)] as int, iso)
    } else {
        0
    }
}

/// The number of edges among the first `e` through which the surface passes.
pub open spec fn crossing_count(c: Seq<i32>, iso: int, e: int) -> int
    decreases e,
{
    if e <= 0 {
        0
    } else {
        crossing_count(c, iso, e - 1) + if edge_crosses(c, iso, e - 1) {
            1int
        } else {
            0int
        }
    }
}

/// The sum of coordinate `axis` over the crossing points on the first `e`
/// edges.
pub open spec fn crossing_sum(c: Seq<i32>, iso: int, axis: int, e: int) -> int
    decreases e,
{
    if e <= 0 {
        0
    } else {
        crossing_sum(c, iso, axis, e - 1) + if edge_crosses(c, iso, e - 1) {
            edge_point(c, iso, e - 1, axis)
        } else {
            0
        }
    }
}

/// Coordinate `axis` of the mean of a cell's crossing points, relative to
/// the cell's minimum corner and rounded down.
pub open spec fn centroid(c: Seq<i32>, iso: int, axis: int) -> int {
    crossing_sum(c, iso, axis, 12) / crossing_count(c, iso, 12)
}

/// The vertex of cell `(x, y, z)` in cell units: the cell's minimum corner
/// plus the mean of its crossing points.
pub open spec fn vertex_local(c: Seq<i32>, iso: int, x: int, y: int, z: int) -> Vec3 {
    Vec3 {
        x: (x * ONE + centroid(c, iso, 0)) as i64,
        y: (y * ONE + centroid(c, iso, 1)) as i64,
        z: (z * ONE + centroid(c, iso, 2)) as i64,
    }
}

/// A position in cell units scaled to world units by the voxel size,
/// rounded down.
pub open spec fn world_position(local: Vec3, voxel_size: int) -> Vec3 {
    Vec3 {
        x: ((local.x * voxel_size) / (ONE as int)) as i64,
        y: ((local.y * voxel_size) / (ONE as int)) as i64,
        z: ((local.z * voxel_size) / (ONE as int)) as i64,
    }
}

/// Classification and edge tests agree: a cell is active exactly when the
/// surface passes through at least one of its twelve edges.
pub proof fn lemma_active_iff_crossing(c: Seq<i32>, iso: int)
    ensures
        cell_active(c, iso) <==> crossing_count(c, iso, 12) >= 1,
{
    reveal_with_fuel(crossing_count, 13);
}

/// Every crossing point lies in the unit cube, so the sum of a coordinate is
/// at most the number of crossings.
pub proof fn lemma_crossing_sum_bounds(c: Seq<i32>, iso: int, axis: int, e: int)
    requires
        0 <= axis < 3,
        0 <= e <= 12,
    ensures
        0 <= crossing_count(c, iso, e) <= e,
        0 <= crossing_sum(c, iso, axis, e) <= crossing_count(c, iso, e) * ONE,
    decreases e,
{
    if e > 0 {
        lemma_crossing_sum_bounds(c, iso, axis, e - 1);
        if edge_crosses(c, iso, e - 1) {
            lemma_crossing_offset_bounds(
                c[edge_lo(e - 1)] as int,
                c[edge_hi(e - 1)] as int,
                iso,
            );
        }
    }
}

/// The vertex of an active cell lies in the cell: each coordinate of the
/// mean of its crossing points is between zero and one.
pub proof fn lemma_centroid_in_cell(c: Seq<i32>, iso: int, axis: int)
    requires
        cell_active(c, iso),
        0 <= axis < 3,
    ensures
        0 <= centroid(c, iso, axis) <= ONE,
{
    lemma_active_iff_crossing(c, iso);
    lemma_crossing_sum_bounds(c, iso, axis, 12);
    let k = crossing_count(c, iso, 12);
    let s = crossing_sum(c, iso, axis, 12);
    assert(0 <= s / k <= ONE) by (nonlinear_arith)
        requires
            1 <= k,
            0 <= s <= k * ONE,
    ;
}

/// The axis and the two corners of edge `e`.
pub fn edge_ends(e: usize) -> (r: (usize, usize, usize))
    requires
        e < 12,
    ensures
        r.0 == edge_axis(e as int),
        r.1 == edge_lo(e as int),
        r.2 == edge_hi(e as int),
        r.0 < 3,
        r.1 < r.2 < 8,
{
    if e < 4 {
        (0, 2 * e, 2 * e + 1)
    } else if e < 8 {
        let lo = (e - 4) % 2 + 4 * ((e - 4) / 2);
        (1, lo, lo + 2)
    } else {
        (2, e - 8, e - 4)
    }
}

/// Where the surface crosses an edge whose end samples lie on different
/// sides, as a fixed-point fraction of the way from `v0` to `v1`.
pub fn crossing_param(v0: i32, v1: i32, iso_level: i32) -> (t: i64)
    requires
        crosses(v0 as int, v1 as int, iso_level as int),
    ensures
        t == crossing_offset(v0 as int, v1 as int, iso_level as int),
        0 <= t <= ONE,
{
    proof {
        lemma_crossing_offset_bounds(v0 as int, v1 as int, iso_level as int);
    }
    if v0 < v1 {
        let num: i64 = iso_level as i64 - v0 as i64;
        let den: i64 = v1 as i64 - v0 as i64;
        (num * ONE) / den
    } else {
        let num: i64 = v0 as i64 - iso_level as i64;
        let den: i64 = v0 as i64 - v1 as i64;
        (num * ONE) / den
    }
}

/// Places the vertex of an active cell at the mean of the points where the
/// surface crosses the cell's edges. The result is in cell units.
pub fn local_vertex(c: &[i32; 8], x: usize, y: usize, z: usize, iso_level: i32) -> (v: Vec3)
    requires
        cell_active(c@, iso_level as int),
        x < MAX_CHUNK_SIZE,
        y < MAX_CHUNK_SIZE,
        z < MAX_CHUNK_SIZE,
    ensures
        v == vertex_local(c@, iso_level as int, x as int, y as int, z as int),
        x * ONE <= v.x <= (x + 1) * ONE,
        y * ONE <= v.y <= (y + 1) * ONE,
        z * ONE <= v.z <= (z + 1) * ONE,
{
    let ghost iso = iso_level as int;
    let mut count: i64 = 0;
    let mut sx: i64 = 0;
    let mut sy: i64 = 0;
    let mut sz: i64 = 0;
    let mut e: usize = 0;
    while e < 12
        invariant
            0 <= e <= 12,
            iso == iso_level as int,
            count == crossing_count(c@, iso, e as int),
            sx == crossing_sum(c@, iso, 0, e as int),
            sy == crossing_sum(c@, iso, 1, e as int),
            sz == crossing_sum(c@, iso, 2, e as int),
        decreases 12 - e,
    {
        proof {
            lemma_crossing_sum_bounds(c@, iso, 0, e as int);
            lemma_crossing_sum_bounds(c@, iso, 1, e as int);
            lemma_crossing_sum_bounds(c@, iso, 2, e as int);
            lemma_crossing_sum_bounds(c@, iso, 0, e as int + 1);
            lemma_crossing_sum_bounds(c@, iso, 1, e as int + 1);
            lemma_crossing_sum_bounds(c@, iso, 2, e as int + 1);
        }
        let (axis, lo, hi) = edge_ends(e);
        let v0 = c[lo];
        let v1 = c[hi];
        if (v0 < iso_level) != (v1 < iso_level) {
            let t = crossing_param(v0, v1, iso_level);
            let px: i64 = (lo % 2) as i64 * ONE + if axis == 0 { t } else { 0 };
            let py: i64 = ((lo / 2) % 2) as i64 * ONE + if axis == 1 { t } else { 0 };
            let pz: i64 = (lo / 4) as i64 * ONE + if axis == 2 { t } else { 0 };
            count = count + 1;
            sx = sx + px;
            sy = sy + py;
            sz = sz + pz;
        }
        e = e + 1;
    }
    proof {
        lemma_active_iff_crossing(c@, iso);
        lemma_centroid_in_cell(c@, iso, 0);
        lemma_centroid_in_cell(c@, iso, 1);
        lemma_centroid_in_cell(c@, iso, 2);
        lemma_crossing_sum_bounds(c@, iso, 0, 12);
        lemma_crossing_sum_bounds(c@, iso, 1, 12);
        lemma_crossing_sum_bounds(c@, iso, 2, 12);
    }
    Vec3 {
        x: x as i64 * ONE + sx / count,
        y: y as i64 * ONE + sy / count,
        z: z as i64 * ONE + sz / count,
    }
}

/// Scales a position in cell units to world units.
pub fn to_world(local: Vec3, voxel_size: i32) -> (p: Vec3)
    requires
        voxel_size > 0,
        0 <= local.x <= MAX_CHUNK_SIZE * ONE,
        0 <= local.y <= MAX_CHUNK_SIZE * ONE,
        0 <= local.z <= MAX_CHUNK_SIZE * ONE,
    ensures
        p == world_position(local, voxel_size as int),
{
    let vs: i64 = voxel_size as i64;
    proof {
        lemma_world_coordinate(local.x as int, vs as int);
        lemma_world_coordinate(local.y as int, vs as int);
        lemma_world_coordinate(local.z as int, vs as int);
    }
    Vec3 { x: (local.x * vs) / ONE, y: (local.y * vs) / ONE, z: (local.z * vs) / ONE }
}

/// Scaling a coordinate of the sampled volume by a voxel size stays far
/// inside the range of the components of a position.
pub proof fn lemma_world_coordinate(p: int, voxel_size: int)
    requires
        0 <= p <= MAX_CHUNK_SIZE * ONE,
        0 < voxel_size <= i32::MAX,
    ensures
        0 <= p * voxel_size <= MAX_CHUNK_SIZE * ONE * 0x7fff_ffff,
        0 <= (p * voxel_size) / (ONE as int) <= MAX_CHUNK_SIZE * 0x7fff_ffff,
{
    assert(0 <= p * voxel_size <= MAX_CHUNK_SIZE * ONE * 0x7fff_ffff) by (nonlinear_arith)
        requires
            0 <= p <= MAX_CHUNK_SIZE * ONE,
            0 < voxel_size <= 0x7fff_ffff,
    ;
}

} // verus!
