use crate::cell::{cell_active, count_if, is_inside};
use crate::grid::{
    coord_x, coord_y, coord_z, coords, lattice_len, lemma_index_of_coords, linear_index, Lattice,
    SdfGrid, MAX_CHUNK_SIZE,
};
use crate::vertex::{crosses, rises};
use vstd::prelude::*;

verus! {

impl Lattice {
    /// The number of cells.
    pub open spec fn cell_count(self) -> int {
        self.n * self.n * self.n
    }

    /// The corner samples of the cell at position `ci` in the order of
    /// cells: `x` runs fastest, then `z`, then `y`.
    pub open spec fn cell_corners(self, ci: int) -> Seq<i32> {
        self.corners(coord_x(self.n, ci), coord_y(self.n, ci), coord_z(self.n, ci))
    }

    /// The cell at position `ci` is active.
    pub open spec fn active(self, iso: int, ci: int) -> bool {
        cell_active(self.cell_corners(ci), iso)
    }

    /// The number of active cells before position `ci`: the index of the
    /// vertex of cell `ci`, if it has one.
    pub open spec fn active_before(self, iso: int, ci: int) -> int
        decreases ci,
    {
        if ci <= 0 {
            0
        } else {
            self.active_before(iso, ci - 1) + count_if(self.active(iso, ci - 1))
        }
    }

    /// An edge runs from lattice point `(x, y, z)` one step along `axis`,
    /// and four cells surround it: it does not lie on the outer faces.
    pub open spec fn edge_internal(self, axis: int, x: int, y: int, z: int) -> bool {
        &&& 0 <= axis < 3
        &&& (if axis == 0 { 0 <= x < self.n } else { 1 <= x < self.n })
        &&& (if axis == 1 { 0 <= y < self.n } else { 1 <= y < self.n })
        &&& (if axis == 2 { 0 <= z < self.n } else { 1 <= z < self.n })
    }

    /// The sample at which the edge from `(x, y, z)` along `axis` ends.
    pub open spec fn edge_end(self, axis: int, x: int, y: int, z: int) -> i32 {
        self.sample(x + count_if(axis == 0), y + count_if(axis == 1), z + count_if(axis == 2))
    }

    /// The edge from `(x, y, z)` along `axis` is internal and the surface
    /// passes through it: it gives a quad.
    pub open spec fn edge_emits(self, iso: int, axis: int, x: int, y: int, z: int) -> bool {
        &&& self.edge_internal(axis, x, y, z)
        &&& crosses(self.sample(x, y, z) as int, self.edge_end(axis, x, y, z) as int, iso)
    }

    /// The position, in the order of cells, of the `j`-th cell around the
    /// edge from `(x, y, z)` along `axis`.
    pub open spec fn quad_cell(self, axis: int, x: int, y: int, z: int, j: int) -> int {
        linear_index(
            self.n,
            x - quad_offset(axis, j, 0),
            y - quad_offset(axis, j, 1),
            z - quad_offset(axis, j, 2),
        )
    }

    /// The two triangles of the quad around the edge from `(x, y, z)` along
    /// `axis`, or nothing if the edge gives no quad. The quad is split
    /// between its corners 0 and 2. Seen from the side to which the field
    /// grows, the triangles run counter-clockwise.
    pub open spec fn edge_triangles(self, iso: int, axis: int, x: int, y: int, z: int) -> Seq<
        u32,
    > {
        if self.edge_emits(iso, axis, x, y, z) {
            let q0 = self.active_before(iso, self.quad_cell(axis, x, y, z, 0)) as u32;
            let q1 = self.active_before(iso, self.quad_cell(axis, x, y, z, 1)) as u32;
            let q2 = self.active_before(iso, self.quad_cell(axis, x, y, z, 2)) as u32;
            let q3 = self.active_before(iso, self.quad_cell(axis, x, y, z, 3)) as u32;
            if rises(self.sample(x, y, z) as int, self.edge_end(axis, x, y, z) as int, iso) {
                seq![q0, q1, q2, q0, q2, q3]
            } else {
                seq![q0, q3, q2, q0, q2, q1]
            }
        } else {
            Seq::empty()
        }
    }

    /// The triangles of the edges that start at the lattice point at
    /// position `pi`: along `x`, then `y`, then `z`.
    pub open spec fn point_triangles(self, iso: int, pi: int) -> Seq<u32> {
        let x = coord_x(self.n + 1, pi);
        let y = coord_y(self.n + 1, pi);
        let z = coord_z(self.n + 1, pi);
        self.edge_triangles(iso, 0, x, y, z) + self.edge_triangles(iso, 1, x, y, z)
            + self.edge_triangles(iso, 2, x, y, z)
    }

    /// The triangles of the edges that start at the first `pi` lattice
    /// points.
    pub open spec fn triangles(self, iso: int, pi: int) -> Seq<u32>
        decreases pi,
    {
        if pi <= 0 {
            Seq::empty()
        } else {
            self.triangles(iso, pi - 1) + self.point_triangles(iso, pi - 1)
        }
    }
}

/// How far back along axis `w` the `j`-th cell around an edge along `axis`
/// lies from the edge's start. With `u` and `v` the two axes that follow
/// `axis` in the cycle `x`, `y`, `z`, the four cells lie at `(-u, -v)`,
/// `(+u, -v)`, `(+u, +v)`, `(-u, +v)`: counter-clockwise seen from the end
/// of the edge.
pub open spec fn quad_offset(axis: int, j: int, w: int) -> int {
    if w == (axis + 1) % 3 && (j == 0 || j == 3) {
        1
    } else if w == (axis + 2) % 3 && (j == 0 || j == 1) {
        1
    } else {
        0
    }
}

/// Two corners on different sides make a cell active.
pub proof fn lemma_split_corners_active(c: Seq<i32>, iso: int, j: int, k: int)
    requires
        0 <= j < 8,
        0 <= k < 8,
        is_inside(c[j] as int, iso) != is_inside(c[k] as int, iso),
    ensures
        cell_active(c, iso),
{
}

/// The count of active cells grows with the position, by at most one a cell,
/// and past an active cell it has grown.
pub proof fn lemma_active_before_monotone(lat: Lattice, iso: int, ci: int, cj: int)
    requires
        0 <= ci <= cj,
    ensures
        0 <= lat.active_before(iso, ci) <= lat.active_before(iso, cj),
        lat.active_before(iso, cj) <= cj,
        lat.active(iso, ci) && ci < cj ==> lat.active_before(iso, ci) < lat.active_before(iso, cj),
    decreases cj,
{
    if ci < cj {
        lemma_active_before_monotone(lat, iso, ci, cj - 1);
    } else {
        if cj > 0 {
            lemma_active_before_monotone(lat, iso, 0, cj - 1);
        }
    }
}

/// Sign changes propagate: each of the four cells around an edge that gives
/// a quad is a cell of the lattice, is active, and so owns a vertex.
pub proof fn lemma_quad_cells_active(
    lat: Lattice,
    iso: int,
    axis: int,
    x: int,
    y: int,
    z: int,
    j: int,
)
    requires
        lat.wf(),
        lat.edge_emits(iso, axis, x, y, z),
        0 <= j < 4,
    ensures
        0 <= lat.quad_cell(axis, x, y, z, j) < lat.cell_count(),
        lat.active(iso, lat.quad_cell(axis, x, y, z, j)),
        0 <= lat.active_before(iso, lat.quad_cell(axis, x, y, z, j)) < lat.active_before(
            iso,
            lat.cell_count(),
        ),
        lat.active_before(iso, lat.cell_count()) <= u32::MAX,
{
    let ox = quad_offset(axis, j, 0);
    let oy = quad_offset(axis, j, 1);
    let oz = quad_offset(axis, j, 2);
    let cx = x - ox;
    let cy = y - oy;
    let cz = z - oz;
    let ci = lat.quad_cell(axis, x, y, z, j);
    lemma_index_of_coords(lat.n, cx, cy, cz);
    let c = lat.cell_corners(ci);
    assert(c == lat.corners(cx, cy, cz));
    let lo = ox + 2 * oy + 4 * oz;
    let hi = lo + (if axis == 0 { 1int } else if axis == 1 { 2int } else { 4int });
    assert(c[lo] == lat.sample(x, y, z));
    assert(c[hi] == lat.edge_end(axis, x, y, z));
    lemma_split_corners_active(c, iso, lo, hi);
    lemma_active_before_monotone(lat, iso, ci, lat.cell_count());
    lemma_cell_count_bound(lat.n);
}

/// A supported chunk has no more cells than a `u32` can count.
pub proof fn lemma_cell_count_bound(n: int)
    requires
        1 <= n <= MAX_CHUNK_SIZE,
    ensures
        1 <= n * n * n <= 1625 * 1625 * 1625,
        n * n <= 1625 * 1625,
{
    assert(1 <= n * n * n <= 1625 * 1625 * 1625 && n * n <= 1625 * 1625) by (nonlinear_arith)
        requires
            1 <= n <= 1625,
    ;
}

/// The table holds, for each cell in the order of cells, the index of its
/// vertex if it is active and nothing if it is not.
pub open spec fn table_matches(lat: Lattice, iso: int, table: Seq<Option<u32>>) -> bool {
    &&& table.len() == lat.cell_count()
    &&& forall|ci: int|
        0 <= ci < table.len() ==> #[trigger] table[ci] == (if lat.active(iso, ci) {
            Some(lat.active_before(iso, ci) as u32)
        } else {
            None
        })
}

/// How far back along axis `w` the `j`-th cell around an edge along `axis`
/// lies from the edge's start.
fn cell_offset(axis: usize, j: usize, w: usize) -> (r: usize)
    requires
        axis < 3,
        j < 4,
        w < 3,
    ensures
        r == quad_offset(axis as int, j as int, w as int),
        r <= 1,
{
    if w == (axis + 1) % 3 && (j == 0 || j == 3) {
        1
    } else if w == (axis + 2) % 3 && (j == 0 || j == 1) {
        1
    } else {
        0
    }
}

/// The vertex of the `j`-th cell around an edge that gives a quad.
fn quad_vertex(
    grid: &SdfGrid,
    table: &Vec<Option<u32>>,
    Ghost(iso): Ghost<int>,
    axis: usize,
    x: usize,
    y: usize,
    z: usize,
    j: usize,
) -> (q: u32)
    requires
        grid.wf(),
        table_matches(grid@, iso, table@),
        grid@.edge_emits(iso, axis as int, x as int, y as int, z as int),
        j < 4,
    ensures
        q == grid@.active_before(
            iso,
            grid@.quad_cell(axis as int, x as int, y as int, z as int, j as int),
        ),
{
    let n = grid.size();
    proof {
        lemma_quad_cells_active(grid@, iso, axis as int, x as int, y as int, z as int, j as int);
        lemma_cell_count_bound(n as int);
    }
    let cx = x - cell_offset(axis, j, 0);
    let cy = y - cell_offset(axis, j, 1);
    let cz = z - cell_offset(axis, j, 2);
    proof {
        lemma_index_of_coords(n as int, cx as int, cy as int, cz as int);
        assert(cz * n <= 1625 * 1625 && cy * (n * n) <= 1625 * (1625 * 1625)) by (nonlinear_arith)
            requires
                0 <= cz < n,
                0 <= cy < n,
                n <= 1625,
                n * n <= 1625 * 1625,
        ;
    }
    let ci: u64 = cx as u64 + (cz as u64) * (n as u64) + (cy as u64) * ((n as u64) * (n as u64));
    table[ci as usize].unwrap()
}

/// Appends the two triangles of the quad around the edge from lattice point
/// `(x, y, z)` along `axis`, if the edge is internal and the surface passes
/// through it.
pub fn emit_edge(
    grid: &SdfGrid,
    table: &Vec<Option<u32>>,
    iso_level: i32,
    axis: usize,
    x: usize,
    y: usize,
    z: usize,
    indices: &mut Vec<u32>,
)
    requires
        grid.wf(),
        table_matches(grid@, iso_level as int, table@),
        axis < 3,
        grid@.contains(x as int, y as int, z as int),
    ensures
        final(indices)@ == old(indices)@ + grid@.edge_triangles(
            iso_level as int,
            axis as int,
            x as int,
            y as int,
            z as int,
        ),
{
    let ghost iso = iso_level as int;
    let ghost before = indices@;
    let ghost added = grid@.edge_triangles(iso, axis as int, x as int, y as int, z as int);
    let n = grid.size();
    let min_x: usize = if axis == 0 { 0 } else { 1 };
    let min_y: usize = if axis == 1 { 0 } else { 1 };
    let min_z: usize = if axis == 2 { 0 } else { 1 };
    if x < min_x || x >= n || y < min_y || y >= n || z < min_z || z >= n {
        assert(before + added =~= before);
        return ;
    }
    let v0 = grid.at(x, y, z);
    let v1 = grid.at(
        x + (if axis == 0 { 1 } else { 0 }),
        y + (if axis == 1 { 1 } else { 0 }),
        z + (if axis == 2 { 1 } else { 0 }),
    );
    let inside0 = v0 < iso_level;
    let inside1 = v1 < iso_level;
    if inside0 == inside1 {
        assert(before + added =~= before);
        return ;
    }
    let q0 = quad_vertex(grid, table, Ghost(iso), axis, x, y, z, 0);
    let q1 = quad_vertex(grid, table, Ghost(iso), axis, x, y, z, 1);
    let q2 = quad_vertex(grid, table, Ghost(iso), axis, x, y, z, 2);
    let q3 = quad_vertex(grid, table, Ghost(iso), axis, x, y, z, 3);
    if inside0 {
        indices.push(q0);
        indices.push(q1);
        indices.push(q2);
        indices.push(q0);
        indices.push(q2);
        indices.push(q3);
    } else {
        indices.push(q0);
        indices.push(q3);
        indices.push(q2);
        indices.push(q0);
        indices.push(q2);
        indices.push(q1);
    }
    assert(indices@ =~= before + added);
}

/// Builds the triangles of the surface: for each lattice point in the order
/// of samples, the quads around the internal edges that start there.
pub fn build_indices(grid: &SdfGrid, table: &Vec<Option<u32>>, iso_level: i32) -> (indices: Vec<
    u32,
>)
    requires
        grid.wf(),
        table_matches(grid@, iso_level as int, table@),
    ensures
        indices@ == grid@.triangles(iso_level as int, lattice_len(grid@.n)),
{
    let ghost iso = iso_level as int;
    let n = grid.size();
    let points = grid.len();
    let mut indices: Vec<u32> = Vec::new();
    let mut pi: usize = 0;
    while pi < points
        invariant
            grid.wf(),
            table_matches(grid@, iso_level as int, table@),
            iso == iso_level as int,
            n == grid@.n,
            points == lattice_len(grid@.n),
            0 <= pi <= points,
            indices@ == grid@.triangles(iso, pi as int),
        decreases points - pi,
    {
        let (x, y, z) = coords(n + 1, pi);
        let ghost before = indices@;
        emit_edge(grid, table, iso_level, 0, x, y, z, &mut indices);
        emit_edge(grid, table, iso_level, 1, x, y, z, &mut indices);
        emit_edge(grid, table, iso_level, 2, x, y, z, &mut indices);
        assert(indices@ =~= before + grid@.point_triangles(iso, pi as int));
        pi = pi + 1;
    }
    indices
}

} // verus!
