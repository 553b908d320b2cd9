use crate::fixed::Vec3;
use crate::grid::{lemma_index_of_coords, Lattice};
use crate::surface_nets::{lemma_position_in_cell, lemma_vertex_of_cell, surface_mesh};
use crate::topology::{lemma_cell_count_bound, lemma_quad_cells_active, quad_offset};
use crate::vertex::rises;
use vstd::prelude::*;

verus! {

/// The component of `v` along `axis`: 0 is `x`, 1 is `y`, 2 is `z`.
pub open spec fn component(v: Vec3, axis: int) -> int {
    if axis == 0 {
        v.x as int
    } else if axis == 1 {
        v.y as int
    } else {
        v.z as int
    }
}

/// Twice the area of the triangle `(a, b, c)` projected along `axis`. It is
/// positive where the corners run counter-clockwise seen from the positive
/// end of the axis, negative where they run clockwise.
pub open spec fn projected_area(a: Vec3, b: Vec3, c: Vec3, axis: int) -> int {
    let u = (axis + 1) % 3;
    let v = (axis + 2) % 3;
    plane_area(
        component(a, u),
        component(a, v),
        component(b, u),
        component(b, v),
        component(c, u),
        component(c, v),
    )
}

/// The position of the `k`-th corner of the two triangles around the edge
/// from `(x, y, z)` along `axis`.
pub open spec fn triangle_corner(
    lat: Lattice,
    voxel_size: int,
    iso: int,
    axis: int,
    x: int,
    y: int,
    z: int,
    k: int,
) -> Vec3 {
    surface_mesh(lat, voxel_size, iso).positions[lat.edge_triangles(iso, axis, x, y, z)[k] as int]
}

/// Twice the area, projected along the edge, of the two triangles around
/// the edge from `(x, y, z)` along `axis`.
pub open spec fn quad_area(
    lat: Lattice,
    voxel_size: int,
    iso: int,
    axis: int,
    x: int,
    y: int,
    z: int,
) -> int {
    projected_area(
        triangle_corner(lat, voxel_size, iso, axis, x, y, z, 0),
        triangle_corner(lat, voxel_size, iso, axis, x, y, z, 1),
        triangle_corner(lat, voxel_size, iso, axis, x, y, z, 2),
        axis,
    ) + projected_area(
        triangle_corner(lat, voxel_size, iso, axis, x, y, z, 3),
        triangle_corner(lat, voxel_size, iso, axis, x, y, z, 4),
        triangle_corner(lat, voxel_size, iso, axis, x, y, z, 5),
        axis,
    )
}

/// Twice the area of the triangle with corners `(u0, v0)`, `(u1, v1)` and
/// `(u2, v2)` in the plane, positive where they run counter-clockwise.
pub open spec fn plane_area(u0: int, v0: int, u1: int, v1: int, u2: int, v2: int) -> int {
    (u1 - u0) * (v2 - v0) - (u2 - u0) * (v1 - v0)
}

/// Four points, one in each quadrant around a centre in counter-clockwise
/// order, bound a quad that runs counter-clockwise: split between the first
/// and the third point, its two triangles have a positive area together,
/// and a negative one if the points are taken the other way round.
pub proof fn lemma_quadrants_wind(
    cu: int,
    cv: int,
    u0: int,
    v0: int,
    u1: int,
    v1: int,
    u2: int,
    v2: int,
    u3: int,
    v3: int,
)
    requires
        u0 <= cu && v0 <= cv,
        u1 >= cu && v1 <= cv,
        u2 >= cu && v2 >= cv,
        u3 <= cu && v3 >= cv,
    ensures
        plane_area(u0, v0, u1, v1, u2, v2) + plane_area(u0, v0, u2, v2, u3, v3) >= 0,
        plane_area(u0, v0, u3, v3, u2, v2) + plane_area(u0, v0, u2, v2, u1, v1) <= 0,
{
    let a0 = u0 - cu;
    let b0 = v0 - cv;
    let a1 = u1 - cu;
    let b1 = v1 - cv;
    let a2 = u2 - cu;
    let b2 = v2 - cv;
    let a3 = u3 - cu;
    let b3 = v3 - cv;
    assert(a0 * b1 >= 0 && a1 * b0 <= 0 && a1 * b2 >= 0 && a2 * b1 <= 0 && a2 * b3 >= 0 && a3
        * b2 <= 0 && a3 * b0 >= 0 && a0 * b3 <= 0) by (nonlinear_arith)
        requires
            a0 <= 0 && b0 <= 0,
            a1 >= 0 && b1 <= 0,
            a2 >= 0 && b2 >= 0,
            a3 <= 0 && b3 >= 0,
    ;
    assert((u1 - u0) * (v2 - v0) == a1 * b2 - a1 * b0 - a0 * b2 + a0 * b0) by (nonlinear_arith)
        requires
            u1 - u0 == a1 - a0,
            v2 - v0 == b2 - b0,
    ;
    assert((u2 - u0) * (v1 - v0) == a2 * b1 - a2 * b0 - a0 * b1 + a0 * b0) by (nonlinear_arith)
        requires
            u2 - u0 == a2 - a0,
            v1 - v0 == b1 - b0,
    ;
    assert((u2 - u0) * (v3 - v0) == a2 * b3 - a2 * b0 - a0 * b3 + a0 * b0) by (nonlinear_arith)
        requires
            u2 - u0 == a2 - a0,
            v3 - v0 == b3 - b0,
    ;
    assert((u3 - u0) * (v2 - v0) == a3 * b2 - a3 * b0 - a0 * b2 + a0 * b0) by (nonlinear_arith)
        requires
            u3 - u0 == a3 - a0,
            v2 - v0 == b2 - b0,
    ;
}

/// The coordinate of the lattice point `(x, y, z)` along `axis`.
pub open spec fn coordinate(x: int, y: int, z: int, axis: int) -> int {
    if axis == 0 {
        x
    } else if axis == 1 {
        y
    } else {
        z
    }
}

/// The vertex of the `j`-th cell around an edge that gives a quad.
pub open spec fn quad_corner(
    lat: Lattice,
    voxel_size: int,
    iso: int,
    axis: int,
    x: int,
    y: int,
    z: int,
    j: int,
) -> Vec3 {
    surface_mesh(lat, voxel_size, iso).positions[lat.active_before(
        iso,
        lat.quad_cell(axis, x, y, z, j),
    )]
}

/// The vertex of the `j`-th cell around an edge that gives a quad lies in
/// that cell: along each axis, before the edge's start where the cell lies
/// back from it, and after it where the cell does not.
pub proof fn lemma_quad_corner_side(
    lat: Lattice,
    voxel_size: int,
    iso: int,
    axis: int,
    x: int,
    y: int,
    z: int,
    j: int,
    w: int,
)
    requires
        lat.wf(),
        0 < voxel_size <= i32::MAX,
        lat.edge_emits(iso, axis, x, y, z),
        0 <= j < 4,
        0 <= w < 3,
    ensures
        0 <= lat.active_before(iso, lat.quad_cell(axis, x, y, z, j)) <= u32::MAX,
        quad_offset(axis, j, w) == 1 ==> component(
            quad_corner(lat, voxel_size, iso, axis, x, y, z, j),
            w,
        ) <= coordinate(x, y, z, w) * voxel_size,
        quad_offset(axis, j, w) == 0 ==> component(
            quad_corner(lat, voxel_size, iso, axis, x, y, z, j),
            w,
        ) >= coordinate(x, y, z, w) * voxel_size,
{
    let ci = lat.quad_cell(axis, x, y, z, j);
    lemma_quad_cells_active(lat, iso, axis, x, y, z, j);
    lemma_cell_count_bound(lat.n);
    lemma_vertex_of_cell(lat, iso, voxel_size, ci, lat.cell_count());
    lemma_index_of_coords(
        lat.n,
        x - quad_offset(axis, j, 0),
        y - quad_offset(axis, j, 1),
        z - quad_offset(axis, j, 2),
    );
    lemma_position_in_cell(lat, iso, voxel_size, ci);
    let k = coordinate(x, y, z, w);
    assert((k - 1 + 1) * voxel_size == k * voxel_size);
    assert((k - 0) * voxel_size == k * voxel_size);
}

/// The corners of the two triangles around an edge that gives a quad are
/// the vertices of the four cells around it: in the order of the cells
/// where the field grows along the edge, in the opposite order where it
/// falls.
pub proof fn lemma_triangle_corners(
    lat: Lattice,
    voxel_size: int,
    iso: int,
    axis: int,
    x: int,
    y: int,
    z: int,
)
    requires
        lat.wf(),
        0 < voxel_size <= i32::MAX,
        lat.edge_emits(iso, axis, x, y, z),
    ensures
        ({
            let grows = rises(
                lat.sample(x, y, z) as int,
                lat.edge_end(axis, x, y, z) as int,
                iso,
            );
            &&& triangle_corner(lat, voxel_size, iso, axis, x, y, z, 0) == quad_corner(
                lat,
                voxel_size,
                iso,
                axis,
                x,
                y,
                z,
                0,
            )
            &&& triangle_corner(lat, voxel_size, iso, axis, x, y, z, 1) == quad_corner(
                lat,
                voxel_size,
                iso,
                axis,
                x,
                y,
                z,
                if grows { 1 } else { 3 },
            )
            &&& triangle_corner(lat, voxel_size, iso, axis, x, y, z, 2) == quad_corner(
                lat,
                voxel_size,
                iso,
                axis,
                x,
                y,
                z,
                2,
            )
            &&& triangle_corner(lat, voxel_size, iso, axis, x, y, z, 3) == quad_corner(
                lat,
                voxel_size,
                iso,
                axis,
                x,
                y,
                z,
                0,
            )
            &&& triangle_corner(lat, voxel_size, iso, axis, x, y, z, 4) == quad_corner(
                lat,
                voxel_size,
                iso,
                axis,
                x,
                y,
                z,
                2,
            )
            &&& triangle_corner(lat, voxel_size, iso, axis, x, y, z, 5) == quad_corner(
                lat,
                voxel_size,
                iso,
                axis,
                x,
                y,
                z,
                if grows { 3 } else { 1 },
            )
        }),
{
    lemma_quad_cells_active(lat, iso, axis, x, y, z, 0);
    lemma_quad_cells_active(lat, iso, axis, x, y, z, 1);
    lemma_quad_cells_active(lat, iso, axis, x, y, z, 2);
    lemma_quad_cells_active(lat, iso, axis, x, y, z, 3);
}

/// The surface is oriented by the field: seen from the end of an edge that
/// gives a quad, the two triangles around it run counter-clockwise together
/// where the field grows along the edge, and clockwise where it falls. By
/// the right-hand rule the quad then faces the side on which the samples
/// lie outside.
pub proof fn lemma_quad_faces_outward(
    lat: Lattice,
    voxel_size: int,
    iso: int,
    axis: int,
    x: int,
    y: int,
    z: int,
)
    requires
        lat.wf(),
        0 < voxel_size <= i32::MAX,
        lat.edge_emits(iso, axis, x, y, z),
    ensures
        rises(lat.sample(x, y, z) as int, lat.edge_end(axis, x, y, z) as int, iso) ==> quad_area(
            lat,
            voxel_size,
            iso,
            axis,
            x,
            y,
            z,
        ) >= 0,
        !rises(lat.sample(x, y, z) as int, lat.edge_end(axis, x, y, z) as int, iso) ==> quad_area(
            lat,
            voxel_size,
            iso,
            axis,
            x,
            y,
            z,
        ) <= 0,
{
    let u = (axis + 1) % 3;
    let v = (axis + 2) % 3;
    let p0 = quad_corner(lat, voxel_size, iso, axis, x, y, z, 0);
    let p1 = quad_corner(lat, voxel_size, iso, axis, x, y, z, 1);
    let p2 = quad_corner(lat, voxel_size, iso, axis, x, y, z, 2);
    let p3 = quad_corner(lat, voxel_size, iso, axis, x, y, z, 3);
    lemma_triangle_corners(lat, voxel_size, iso, axis, x, y, z);
    lemma_quad_corner_side(lat, voxel_size, iso, axis, x, y, z, 0, u);
    lemma_quad_corner_side(lat, voxel_size, iso, axis, x, y, z, 0, v);
    lemma_quad_corner_side(lat, voxel_size, iso, axis, x, y, z, 1, u);
    lemma_quad_corner_side(lat, voxel_size, iso, axis, x, y, z, 1, v);
    lemma_quad_corner_side(lat, voxel_size, iso, axis, x, y, z, 2, u);
    lemma_quad_corner_side(lat, voxel_size, iso, axis, x, y, z, 2, v);
    lemma_quad_corner_side(lat, voxel_size, iso, axis, x, y, z, 3, u);
    lemma_quad_corner_side(lat, voxel_size, iso, axis, x, y, z, 3, v);
    lemma_quadrants_wind(
        coordinate(x, y, z, u) * voxel_size,
        coordinate(x, y, z, v) * voxel_size,
        component(p0, u),
        component(p0, v),
        component(p1, u),
        component(p1, v),
        component(p2, u),
        component(p2, v),
        component(p3, u),
        component(p3, v),
    );
}

} // verus!
