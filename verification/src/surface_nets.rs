use crate::cell::{corner_offset, count_if, is_active, is_inside, read_corners};
use crate::fixed::{Vec3, ONE};
use crate::grid::{
    coord_x, coord_y, coord_z, coords, lattice_len, lemma_coords_of_index, lemma_index_of_coords,
    linear_index, Lattice, SdfGrid, MAX_CHUNK_SIZE,
};
use crate::mesh::{Mesh, MeshView};
use crate::normal::{estimate_normal, vertex_normal};
use crate::topology::{
    build_indices, lemma_active_before_monotone, lemma_cell_count_bound, lemma_quad_cells_active,
    table_matches,
};
use crate::vertex::{
    lemma_centroid_in_cell, local_vertex, to_world, vertex_local, world_position,
};
use vstd::prelude::*;

verus! {

impl Lattice {
    /// The vertex of the cell at position `ci`, in cell units.
    pub open spec fn cell_vertex(self, iso: int, ci: int) -> Vec3 {
        vertex_local(
            self.cell_corners(ci),
            iso,
            coord_x(self.n, ci),
            coord_y(self.n, ci),
            coord_z(self.n, ci),
        )
    }

    /// The vertex of the cell at position `ci`, in world units.
    pub open spec fn cell_position(self, iso: int, voxel_size: int, ci: int) -> Vec3 {
        world_position(self.cell_vertex(iso, ci), voxel_size)
    }

    /// The normal at the vertex of the cell at position `ci`.
    pub open spec fn cell_normal(self, iso: int, ci: int) -> Vec3 {
        vertex_normal(self, self.cell_corners(ci), iso, self.cell_vertex(iso, ci))
    }

    /// The vertices of the active cells among the first `ci`, in the order
    /// of cells.
    pub open spec fn positions(self, iso: int, voxel_size: int, ci: int) -> Seq<Vec3>
        decreases ci,
    {
        if ci <= 0 {
            Seq::empty()
        } else if self.active(iso, ci - 1) {
            self.positions(iso, voxel_size, ci - 1).push(
                self.cell_position(iso, voxel_size, ci - 1),
            )
        } else {
            self.positions(iso, voxel_size, ci - 1)
        }
    }

    /// The normals of the active cells among the first `ci`, in the order of
    /// cells.
    pub open spec fn normals(self, iso: int, ci: int) -> Seq<Vec3>
        decreases ci,
    {
        if ci <= 0 {
            Seq::empty()
        } else if self.active(iso, ci - 1) {
            self.normals(iso, ci - 1).push(self.cell_normal(iso, ci - 1))
        } else {
            self.normals(iso, ci - 1)
        }
    }
}

/// The surface-nets mesh of a sampled field: one vertex for each active
/// cell, in the order of cells, and one quad, as two triangles, for each
/// internal edge through which the surface passes, in the order of samples.
pub open spec fn surface_mesh(lat: Lattice, voxel_size: int, iso: int) -> MeshView {
    MeshView {
        positions: lat.positions(iso, voxel_size, lat.cell_count()),
        normals: lat.normals(iso, lat.cell_count()),
        indices: lat.triangles(iso, lattice_len(lat.n)),
    }
}

/// There is one vertex and one normal for each active cell.
pub proof fn lemma_vertex_counts(lat: Lattice, iso: int, voxel_size: int, ci: int)
    ensures
        lat.positions(iso, voxel_size, ci).len() == lat.active_before(iso, ci),
        lat.normals(iso, ci).len() == lat.active_before(iso, ci),
    decreases ci,
{
    if ci > 0 {
        lemma_vertex_counts(lat, iso, voxel_size, ci - 1);
    }
}

/// The vertex of an active cell stands at the index that the cell owns: the
/// number of active cells before it.
pub proof fn lemma_vertex_of_cell(lat: Lattice, iso: int, voxel_size: int, ci: int, cj: int)
    requires
        0 <= ci < cj,
        lat.active(iso, ci),
    ensures
        0 <= lat.active_before(iso, ci) < lat.positions(iso, voxel_size, cj).len(),
        lat.positions(iso, voxel_size, cj)[lat.active_before(iso, ci)] == lat.cell_position(
            iso,
            voxel_size,
            ci,
        ),
        lat.normals(iso, cj)[lat.active_before(iso, ci)] == lat.cell_normal(iso, ci),
    decreases cj,
{
    lemma_vertex_counts(lat, iso, voxel_size, cj);
    lemma_vertex_counts(lat, iso, voxel_size, cj - 1);
    lemma_active_before_monotone(lat, iso, ci, cj);
    lemma_active_before_monotone(lat, iso, ci, cj - 1);
    if ci < cj - 1 {
        lemma_vertex_of_cell(lat, iso, voxel_size, ci, cj - 1);
    }
}

/// Every vertex belongs to an active cell: each index below the number of
/// vertices is the index that some active cell owns.
pub proof fn lemma_vertex_has_owner(lat: Lattice, iso: int, j: int, cj: int)
    requires
        0 <= j < lat.active_before(iso, cj),
    ensures
        exists|ci: int|
            0 <= ci < cj && #[trigger] lat.active(iso, ci) && lat.active_before(iso, ci) == j,
    decreases cj,
{
    if cj > 0 {
        if j < lat.active_before(iso, cj - 1) {
            lemma_vertex_has_owner(lat, iso, j, cj - 1);
            let ci = choose|ci: int|
                0 <= ci < cj - 1 && #[trigger] lat.active(iso, ci) && lat.active_before(iso, ci)
                    == j;
            assert(0 <= ci < cj && lat.active(iso, ci) && lat.active_before(iso, ci) == j);
        } else {
            assert(lat.active(iso, cj - 1) && lat.active_before(iso, cj - 1) == j);
        }
    }
}

/// No two active cells share a vertex: cells that own the same index are
/// the same cell.
pub proof fn lemma_vertex_owner_unique(lat: Lattice, iso: int, ci: int, cj: int)
    requires
        0 <= ci,
        0 <= cj,
        lat.active(iso, ci),
        lat.active(iso, cj),
        lat.active_before(iso, ci) == lat.active_before(iso, cj),
    ensures
        ci == cj,
{
    if ci < cj {
        lemma_active_before_monotone(lat, iso, ci, cj);
    }
    if cj < ci {
        lemma_active_before_monotone(lat, iso, cj, ci);
    }
}

/// The vertex of an active cell lies in the cell's bounding box.
pub proof fn lemma_position_in_cell(lat: Lattice, iso: int, voxel_size: int, ci: int)
    requires
        lat.wf(),
        0 < voxel_size <= i32::MAX,
        0 <= ci < lat.cell_count(),
        lat.active(iso, ci),
    ensures
        coord_x(lat.n, ci) * voxel_size <= lat.cell_position(iso, voxel_size, ci).x <= (coord_x(
            lat.n,
            ci,
        ) + 1) * voxel_size,
        coord_y(lat.n, ci) * voxel_size <= lat.cell_position(iso, voxel_size, ci).y <= (coord_y(
            lat.n,
            ci,
        ) + 1) * voxel_size,
        coord_z(lat.n, ci) * voxel_size <= lat.cell_position(iso, voxel_size, ci).z <= (coord_z(
            lat.n,
            ci,
        ) + 1) * voxel_size,
{
    lemma_coords_of_index(lat.n, ci);
    let c = lat.cell_corners(ci);
    lemma_centroid_in_cell(c, iso, 0);
    lemma_centroid_in_cell(c, iso, 1);
    lemma_centroid_in_cell(c, iso, 2);
    let v = lat.cell_vertex(iso, ci);
    lemma_scaled_in_cell(coord_x(lat.n, ci), v.x as int, voxel_size);
    lemma_scaled_in_cell(coord_y(lat.n, ci), v.y as int, voxel_size);
    lemma_scaled_in_cell(coord_z(lat.n, ci), v.z as int, voxel_size);
}

/// A coordinate between two cell boundaries stays between them when it is
/// scaled to world units.
pub proof fn lemma_scaled_in_cell(k: int, p: int, voxel_size: int)
    requires
        0 <= k < MAX_CHUNK_SIZE,
        k * ONE <= p <= (k + 1) * ONE,
        0 < voxel_size <= i32::MAX,
    ensures
        k * voxel_size <= (p * voxel_size) / (ONE as int) <= (k + 1) * voxel_size,
        0 <= (p * voxel_size) / (ONE as int) <= i64::MAX,
{
    let lo = k * voxel_size;
    let hi = (k + 1) * voxel_size;
    assert(lo * ONE <= p * voxel_size <= hi * ONE) by (nonlinear_arith)
        requires
            k * ONE <= p <= (k + 1) * ONE,
            0 < voxel_size,
            lo == k * voxel_size,
            hi == (k + 1) * voxel_size,
    ;
    assert(0 <= lo && hi <= 1625 * 0x7fff_ffff) by (nonlinear_arith)
        requires
            0 <= k < 1625,
            0 < voxel_size <= 0x7fff_ffff,
            lo == k * voxel_size,
            hi == (k + 1) * voxel_size,
    ;
}

/// Every triangle index names a vertex, and the indices come in threes.
pub proof fn lemma_triangles_in_bounds(lat: Lattice, iso: int, pi: int)
    requires
        lat.wf(),
        0 <= pi <= lattice_len(lat.n),
    ensures
        lat.triangles(iso, pi).len() % 3 == 0,
        forall|i: int|
            0 <= i < lat.triangles(iso, pi).len() ==> (#[trigger] lat.triangles(iso, pi)[i])
                < lat.active_before(iso, lat.cell_count()),
    decreases pi,
{
    if pi > 0 {
        lemma_triangles_in_bounds(lat, iso, pi - 1);
        lemma_coords_of_index(lat.n + 1, pi - 1);
        let x = coord_x(lat.n + 1, pi - 1);
        let y = coord_y(lat.n + 1, pi - 1);
        let z = coord_z(lat.n + 1, pi - 1);
        lemma_edge_triangles_in_bounds(lat, iso, 0, x, y, z);
        lemma_edge_triangles_in_bounds(lat, iso, 1, x, y, z);
        lemma_edge_triangles_in_bounds(lat, iso, 2, x, y, z);
    }
}

/// The triangles around one edge are two if the edge gives a quad and none
/// if it does not, and their indices name vertices.
pub proof fn lemma_edge_triangles_in_bounds(
    lat: Lattice,
    iso: int,
    axis: int,
    x: int,
    y: int,
    z: int,
)
    requires
        lat.wf(),
    ensures
        lat.edge_triangles(iso, axis, x, y, z).len() == (if lat.edge_emits(iso, axis, x, y, z) {
            6int
        } else {
            0int
        }),
        forall|i: int|
            0 <= i < lat.edge_triangles(iso, axis, x, y, z).len() ==> (
            #[trigger] lat.edge_triangles(iso, axis, x, y, z)[i]) < lat.active_before(
                iso,
                lat.cell_count(),
            ),
{
    if lat.edge_emits(iso, axis, x, y, z) {
        lemma_quad_cells_active(lat, iso, axis, x, y, z, 0);
        lemma_quad_cells_active(lat, iso, axis, x, y, z, 1);
        lemma_quad_cells_active(lat, iso, axis, x, y, z, 2);
        lemma_quad_cells_active(lat, iso, axis, x, y, z, 3);
    }
}

/// The mesh of a sampled field is well formed: as many normals as
/// positions, and every triangle index below the number of positions.
pub proof fn lemma_surface_mesh_wf(lat: Lattice, voxel_size: int, iso: int)
    requires
        lat.wf(),
    ensures
        surface_mesh(lat, voxel_size, iso).wf(),
{
    lemma_vertex_counts(lat, iso, voxel_size, lat.cell_count());
    lemma_lattice_len_bound(lat.n);
    lemma_triangles_in_bounds(lat, iso, lattice_len(lat.n));
}

/// A lattice has at least eight samples.
pub proof fn lemma_lattice_len_bound(n: int)
    requires
        1 <= n <= MAX_CHUNK_SIZE,
    ensures
        8 <= lattice_len(n) <= 1626 * 1626 * 1626,
{
    assert(8 <= (n + 1) * (n + 1) * (n + 1) <= 1626 * 1626 * 1626) by (nonlinear_arith)
        requires
            1 <= n <= 1625,
    ;
}

/// All samples lie on one side of the iso-level.
pub open spec fn uniform_side(samples: Seq<i32>, iso: int) -> bool {
    ||| forall|i: int| 0 <= i < samples.len() ==> !is_inside(#[trigger] samples[i] as int, iso)
    ||| forall|i: int| 0 <= i < samples.len() ==> is_inside(#[trigger] samples[i] as int, iso)
}

/// In a field whose samples all lie on one side, no cell is active.
pub proof fn lemma_uniform_cell_inactive(lat: Lattice, iso: int, ci: int)
    requires
        lat.wf(),
        uniform_side(lat.samples, iso),
        0 <= ci < lat.cell_count(),
    ensures
        !lat.active(iso, ci),
{
    lemma_coords_of_index(lat.n, ci);
    let x = coord_x(lat.n, ci);
    let y = coord_y(lat.n, ci);
    let z = coord_z(lat.n, ci);
    let c = lat.cell_corners(ci);
    assert forall|k: int| 0 <= k < 8 implies is_inside(#[trigger] c[k] as int, iso) == is_inside(
        c[0] as int,
        iso,
    ) by {
        lemma_corner_in_lattice(lat, x, y, z, k);
        lemma_corner_in_lattice(lat, x, y, z, 0);
    }
}

/// Each corner of a cell is a sample of the lattice.
pub proof fn lemma_corner_in_lattice(lat: Lattice, x: int, y: int, z: int, k: int)
    requires
        lat.wf(),
        lat.has_cell(x, y, z),
        0 <= k < 8,
    ensures
        0 <= linear_index(
            lat.n + 1,
            x + corner_offset(k, 0),
            y + corner_offset(k, 1),
            z + corner_offset(k, 2),
        ) < lat.samples.len(),
        lat.corners(x, y, z)[k] == lat.samples[linear_index(
            lat.n + 1,
            x + corner_offset(k, 0),
            y + corner_offset(k, 1),
            z + corner_offset(k, 2),
        )],
{
    lemma_index_of_coords(
        lat.n + 1,
        x + corner_offset(k, 0),
        y + corner_offset(k, 1),
        z + corner_offset(k, 2),
    );
}

/// In a field whose samples all lie on one side, the first `ci` cells give
/// no vertex.
pub proof fn lemma_uniform_no_vertices(lat: Lattice, voxel_size: int, iso: int, ci: int)
    requires
        lat.wf(),
        uniform_side(lat.samples, iso),
        0 <= ci <= lat.cell_count(),
    ensures
        lat.positions(iso, voxel_size, ci).len() == 0,
        lat.normals(iso, ci).len() == 0,
    decreases ci,
{
    if ci > 0 {
        lemma_uniform_no_vertices(lat, voxel_size, iso, ci - 1);
        lemma_uniform_cell_inactive(lat, iso, ci - 1);
    }
}

/// In a field whose samples all lie on one side, the edges at the first
/// `pi` lattice points give no triangle.
pub proof fn lemma_uniform_no_triangles(lat: Lattice, iso: int, pi: int)
    requires
        lat.wf(),
        uniform_side(lat.samples, iso),
        0 <= pi <= lattice_len(lat.n),
    ensures
        lat.triangles(iso, pi).len() == 0,
    decreases pi,
{
    if pi > 0 {
        lemma_uniform_no_triangles(lat, iso, pi - 1);
        lemma_coords_of_index(lat.n + 1, pi - 1);
        let x = coord_x(lat.n + 1, pi - 1);
        let y = coord_y(lat.n + 1, pi - 1);
        let z = coord_z(lat.n + 1, pi - 1);
        lemma_index_of_coords(lat.n + 1, x, y, z);
        assert forall|axis: int| 0 <= axis < 3 implies !lat.edge_emits(iso, axis, x, y, z) by {
            if lat.edge_internal(axis, x, y, z) {
                lemma_index_of_coords(
                    lat.n + 1,
                    x + count_if(axis == 0),
                    y + count_if(axis == 1),
                    z + count_if(axis == 2),
                );
            }
        }
    }
}

/// A field without a sign change has an empty mesh: where all samples lie
/// on one side of the iso-level, there is no vertex and no triangle.
pub proof fn lemma_uniform_field_empty(lat: Lattice, voxel_size: int, iso: int)
    requires
        lat.wf(),
        uniform_side(lat.samples, iso),
    ensures
        surface_mesh(lat, voxel_size, iso).positions.len() == 0,
        surface_mesh(lat, voxel_size, iso).normals.len() == 0,
        surface_mesh(lat, voxel_size, iso).indices.len() == 0,
{
    lemma_cell_count_bound(lat.n);
    lemma_lattice_len_bound(lat.n);
    lemma_uniform_no_vertices(lat, voxel_size, iso, lat.cell_count());
    lemma_uniform_no_triangles(lat, iso, lattice_len(lat.n));
}

/// What the placement of vertices hands to the topology builder.
pub struct Vertices {
    /// The vertex of each active cell, in world units.
    pub positions: Vec<Vec3>,
    /// The normal at each vertex.
    pub normals: Vec<Vec3>,
    /// For each cell, the index of its vertex, if it has one.
    pub table: Vec<Option<u32>>,
}

/// Classifies every cell and places a vertex, with its normal, in each
/// active one.
pub fn place_vertices(grid: &SdfGrid, voxel_size: i32, iso_level: i32) -> (v: Vertices)
    requires
        grid.wf(),
        voxel_size > 0,
    ensures
        v.positions@ == grid@.positions(iso_level as int, voxel_size as int, grid@.cell_count()),
        v.normals@ == grid@.normals(iso_level as int, grid@.cell_count()),
        table_matches(grid@, iso_level as int, v.table@),
{
    let ghost iso = iso_level as int;
    let ghost vs = voxel_size as int;
    let n = grid.size();
    proof {
        lemma_cell_count_bound(n as int);
    }
    let cells: usize = n * n * n;
    let mut positions: Vec<Vec3> = Vec::new();
    let mut normals: Vec<Vec3> = Vec::new();
    let mut table: Vec<Option<u32>> = Vec::new();
    let mut ci: usize = 0;
    while ci < cells
        invariant
            grid.wf(),
            voxel_size > 0,
            iso == iso_level as int,
            vs == voxel_size as int,
            n == grid@.n,
            cells == grid@.cell_count(),
            cells <= 1625 * 1625 * 1625,
            0 <= ci <= cells,
            positions@ == grid@.positions(iso, vs, ci as int),
            normals@ == grid@.normals(iso, ci as int),
            table@.len() == ci,
            forall|cj: int|
                0 <= cj < ci ==> #[trigger] table@[cj] == (if grid@.active(iso, cj) {
                    Some(grid@.active_before(iso, cj) as u32)
                } else {
                    None
                }),
        decreases cells - ci,
    {
        let (x, y, z) = coords(n, ci);
        let c = read_corners(grid, x, y, z);
        proof {
            lemma_vertex_counts(grid@, iso, vs, ci as int);
            lemma_active_before_monotone(grid@, iso, ci as int, ci as int);
        }
        if is_active(&c, iso_level) {
            let local = local_vertex(&c, x, y, z, iso_level);
            let position = to_world(local, voxel_size);
            let estimate = estimate_normal(grid, &c, iso_level, local);
            table.push(Some(positions.len() as u32));
            positions.push(position);
            normals.push(estimate.normal);
        } else {
            table.push(None);
        }
        ci = ci + 1;
    }
    Vertices { positions, normals, table }
}

/// Extracts the surface of a sampled field as a triangle mesh.
pub fn surface_nets(grid: &SdfGrid, voxel_size: i32, iso_level: i32) -> (mesh: Mesh)
    requires
        grid.wf(),
        voxel_size > 0,
    ensures
        mesh@ == surface_mesh(grid@, voxel_size as int, iso_level as int),
        mesh@.wf(),
{
    let vertices = place_vertices(grid, voxel_size, iso_level);
    let indices = build_indices(grid, &vertices.table, iso_level);
    proof {
        lemma_surface_mesh_wf(grid@, voxel_size as int, iso_level as int);
    }
    Mesh { positions: vertices.positions, normals: vertices.normals, indices }
}

} // verus!
