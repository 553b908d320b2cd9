use cl_voxel::error::ConfigurationError;
use cl_voxel::fixed::{Vec3, ONE};
use cl_voxel::grid::SdfGrid;
use cl_voxel::mesh::Mesh;
use cl_voxel::meshers::{
    validate_request, create_mesher, required_samples, AnyMesher, ChunkSize, Mesher, MesherType,
    SurfaceNetsMesher,
};
use cl_voxel::normal::{estimate_normal, fallback, gradient};
use cl_voxel::surface_nets::{place_vertices, surface_nets};
use cl_voxel::topology::{build_indices, emit_edge};

const UNIT: i32 = 65536;

fn cube(n: i32) -> ChunkSize {
    ChunkSize { x: n, y: n, z: n }
}

/// Samples of `field` at the lattice points of a chunk of `n` cells, in
/// fixed point.
fn sample_field(n: usize, field: &dyn Fn(f64, f64, f64) -> f64) -> Vec<i32> {
    let m = n + 1;
    let mut samples = vec![0; m * m * m];
    for y in 0..m {
        for z in 0..m {
            for x in 0..m {
                let v = field(x as f64, y as f64, z as f64);
                samples[x + z * m + y * m * m] = (v * 65536.0).round() as i32;
            }
        }
    }
    samples
}

fn sphere(n: usize, radius: f64) -> Vec<i32> {
    let c = n as f64 / 2.0;
    sample_field(n, &|x, y, z| {
        ((x - c) * (x - c) + (y - c) * (y - c) + (z - c) * (z - c)).sqrt() - radius
    })
}

fn mesh(samples: &[i32], n: i32, voxel_size: i32, iso_level: i32) -> Mesh {
    SurfaceNetsMesher::new()
        .generate_mesh(samples, cube(n), voxel_size, iso_level)
        .unwrap()
}

fn assert_well_formed(mesh: &Mesh) {
    assert_eq!(mesh.positions.len(), mesh.normals.len());
    assert_eq!(mesh.indices.len() % 3, 0);
    for &i in mesh.indices.iter() {
        assert!((i as usize) < mesh.positions.len());
    }
}

#[test]
fn a_full_buffer_gives_a_mesh_for_each_small_chunk() {
    for n in 1..6usize {
        let samples = sphere(n, n as f64 / 3.0);
        let result = SurfaceNetsMesher::new().generate_mesh(&samples, cube(n as i32), UNIT, 0);
        assert_well_formed(&result.unwrap());
    }
}

#[test]
fn a_short_or_long_buffer_is_refused() {
    let samples = sphere(3, 1.0);
    assert_eq!(samples.len(), 64);
    let mut mesher = SurfaceNetsMesher::new();
    assert_eq!(
        mesher.generate_mesh(&samples[..63], cube(3), UNIT, 0),
        Err(ConfigurationError::SampleCountMismatch)
    );
    assert_eq!(
        mesher.generate_mesh(&samples, cube(2), UNIT, 0),
        Err(ConfigurationError::SampleCountMismatch)
    );
    assert_eq!(
        mesher.generate_mesh(&samples, cube(4), UNIT, 0),
        Err(ConfigurationError::SampleCountMismatch)
    );
    assert_eq!(
        mesher.generate_mesh(&[], cube(1), UNIT, 0),
        Err(ConfigurationError::SampleCountMismatch)
    );
}

#[test]
fn a_voxel_size_that_is_not_positive_is_refused() {
    let samples = sphere(1, 0.5);
    let mut mesher = SurfaceNetsMesher::new();
    assert_eq!(
        mesher.generate_mesh(&samples, cube(1), 0, 0),
        Err(ConfigurationError::NonPositiveVoxelSize)
    );
    assert_eq!(
        mesher.generate_mesh(&samples, cube(1), -UNIT, 0),
        Err(ConfigurationError::NonPositiveVoxelSize)
    );
    assert!(mesher.generate_mesh(&samples, cube(1), 1, 0).is_ok());
}

#[test]
fn a_chunk_dimension_that_is_not_positive_is_refused() {
    let samples = sphere(1, 0.5);
    let mut mesher = SurfaceNetsMesher::new();
    assert_eq!(
        mesher.generate_mesh(&samples, cube(0), UNIT, 0),
        Err(ConfigurationError::NonPositiveChunkDimension)
    );
    assert_eq!(
        mesher.generate_mesh(&samples, ChunkSize { x: 1, y: -1, z: 1 }, UNIT, 0),
        Err(ConfigurationError::NonPositiveChunkDimension)
    );
    assert_eq!(
        mesher.generate_mesh(&samples, ChunkSize { x: 1, y: 1, z: i32::MIN }, UNIT, 0),
        Err(ConfigurationError::NonPositiveChunkDimension)
    );
}

#[test]
fn a_chunk_that_is_not_a_cube_is_refused() {
    let samples = sphere(1, 0.5);
    let mut mesher = SurfaceNetsMesher::new();
    assert_eq!(
        mesher.generate_mesh(&samples, ChunkSize { x: 1, y: 2, z: 1 }, UNIT, 0),
        Err(ConfigurationError::NonCubicChunk)
    );
    assert_eq!(
        mesher.generate_mesh(&samples, ChunkSize { x: 1, y: 1, z: 2 }, UNIT, 0),
        Err(ConfigurationError::NonCubicChunk)
    );
}

#[test]
fn a_chunk_beyond_the_limit_is_refused() {
    let samples = sphere(1, 0.5);
    let mut mesher = SurfaceNetsMesher::new();
    assert_eq!(
        mesher.generate_mesh(&samples, cube(1626), UNIT, 0),
        Err(ConfigurationError::ChunkTooLarge)
    );
    assert_eq!(
        mesher.generate_mesh(&samples, cube(i32::MAX), UNIT, 0),
        Err(ConfigurationError::ChunkTooLarge)
    );
    assert_eq!(
        mesher.generate_mesh(&samples, cube(1625), UNIT, 0),
        Err(ConfigurationError::SampleCountMismatch)
    );
}

#[test]
fn refusals_come_in_a_fixed_order() {
    // Dimensions first, then the voxel size, then the number of samples.
    let mut mesher = SurfaceNetsMesher::new();
    assert_eq!(
        mesher.generate_mesh(&[], ChunkSize { x: 0, y: 2, z: 3 }, 0, 0),
        Err(ConfigurationError::NonPositiveChunkDimension)
    );
    assert_eq!(
        mesher.generate_mesh(&[], ChunkSize { x: 1, y: 2, z: 3 }, 0, 0),
        Err(ConfigurationError::NonCubicChunk)
    );
    assert_eq!(
        mesher.generate_mesh(&[], cube(2000), 0, 0),
        Err(ConfigurationError::ChunkTooLarge)
    );
    assert_eq!(
        mesher.generate_mesh(&[], cube(2), 0, 0),
        Err(ConfigurationError::NonPositiveVoxelSize)
    );
    assert_eq!(
        mesher.generate_mesh(&[], cube(2), 1, 0),
        Err(ConfigurationError::SampleCountMismatch)
    );
}

#[test]
fn a_valid_request_wraps_the_samples() {
    let samples = sphere(2, 0.5);
    let grid = validate_request(&samples, cube(2), UNIT).unwrap();
    assert_eq!(grid.size(), 2);
    assert_eq!(grid.sample(1, 1, 1), Some(-32768));
    assert!(matches!(
        validate_request(&samples, cube(2), 0),
        Err(ConfigurationError::NonPositiveVoxelSize)
    ));
}

#[test]
fn meshing_twice_gives_the_same_mesh() {
    let samples = sphere(8, 2.75);
    let mut mesher = SurfaceNetsMesher::new();
    let first = mesher.generate_mesh(&samples, cube(8), 3 * UNIT / 2, 100);
    let second = mesher.generate_mesh(&samples, cube(8), 3 * UNIT / 2, 100);
    assert!(first.is_ok());
    assert_eq!(first, second);
    let third =
        create_mesher(MesherType::SurfaceNets).generate_mesh(&samples, cube(8), 3 * UNIT / 2, 100);
    assert_eq!(first, third);
    let refused = mesher.generate_mesh(&samples, cube(7), UNIT, 0);
    assert_eq!(refused, mesher.generate_mesh(&samples, cube(7), UNIT, 0));
}

#[test]
fn indices_name_vertices_and_normals_match_positions() {
    for n in [4usize, 7, 10] {
        let samples = sphere(n, n as f64 * 0.3);
        let m = mesh(&samples, n as i32, UNIT, 0);
        assert!(!m.positions.is_empty());
        assert!(!m.indices.is_empty());
        assert_well_formed(&m);
        assert_eq!(m.vertex_count(), m.positions.len());
        assert_eq!(m.triangle_count(), m.indices.len() / 3);
    }
}

#[test]
fn a_field_above_the_level_has_an_empty_mesh() {
    for n in 1..5usize {
        let m = n + 1;
        let samples = vec![7; m * m * m];
        let result = mesh(&samples, n as i32, UNIT, 0);
        assert!(result.positions.is_empty());
        assert!(result.normals.is_empty());
        assert!(result.indices.is_empty());
    }
}

#[test]
fn a_field_without_a_sign_change_has_an_empty_mesh() {
    let n = 3usize;
    let outside: Vec<i32> = (0..64).map(|i| 5 + i).collect();
    let at_level = vec![5; 64];
    let inside: Vec<i32> = (0..64).map(|i| 4 - i).collect();
    for samples in [outside, at_level, inside] {
        let result = mesh(&samples, n as i32, UNIT, 5);
        assert_eq!(result.vertex_count(), 0);
        assert_eq!(result.triangle_count(), 0);
        assert!(result.normals.is_empty());
    }
}

#[test]
fn a_single_split_cell_gives_one_vertex_and_no_quad() {
    let samples = vec![-UNIT, -UNIT, -UNIT, -UNIT, UNIT, UNIT, UNIT, UNIT];
    let m = mesh(&samples, 1, UNIT, 0);
    assert_eq!(m.positions, vec![Vec3 { x: 32768, y: 32768, z: 32768 }]);
    // The field grows along y, the slowest axis of the layout.
    assert_eq!(m.normals, vec![Vec3 { x: 0, y: ONE, z: 0 }]);
    assert!(m.indices.is_empty());
}

#[test]
fn a_single_split_cell_in_plain_units() {
    let samples = vec![-1, -1, -1, -1, 1, 1, 1, 1];
    let m = mesh(&samples, 1, 4 * UNIT, 0);
    assert_eq!(m.positions, vec![Vec3 { x: 2 * ONE, y: 2 * ONE, z: 2 * ONE }]);
    assert_eq!(m.normals, vec![Vec3 { x: 0, y: ONE, z: 0 }]);
    assert!(m.indices.is_empty());
}

#[test]
fn a_plane_between_two_layers_gives_one_quad() {
    // The surface is the plane x = 1/2 in a chunk of two cells along each
    // axis: the four cells with x = 0 are active and surround the one
    // internal edge along x that the surface crosses.
    let samples = sample_field(2, &|x, _, _| x - 0.5);
    let m = mesh(&samples, 2, UNIT, 0);
    let h = 32768;
    assert_eq!(
        m.positions,
        vec![
            Vec3 { x: h, y: h, z: h },
            Vec3 { x: h, y: h, z: ONE + h },
            Vec3 { x: h, y: ONE + h, z: h },
            Vec3 { x: h, y: ONE + h, z: ONE + h },
        ]
    );
    assert_eq!(m.normals, vec![Vec3 { x: ONE, y: 0, z: 0 }; 4]);
    assert_eq!(m.indices, vec![0, 2, 3, 0, 3, 1]);
}

#[test]
fn the_winding_follows_the_side_to_which_the_field_grows() {
    let samples = sample_field(2, &|x, _, _| 0.5 - x);
    let m = mesh(&samples, 2, UNIT, 0);
    assert_eq!(m.positions.len(), 4);
    assert_eq!(m.normals, vec![Vec3 { x: -ONE, y: 0, z: 0 }; 4]);
    assert_eq!(m.indices, vec![0, 1, 3, 0, 3, 2]);
}

#[test]
fn quads_around_edges_along_y_and_z() {
    let along_y = mesh(&sample_field(2, &|_, y, _| y - 0.5), 2, UNIT, 0);
    // Active cells: y = 0, at positions 0 (x 0, z 0), 1 (x 1, z 0), 2 (x 0, z 1), 3 (x 1, z 1).
    assert_eq!(along_y.positions.len(), 4);
    assert_eq!(along_y.normals, vec![Vec3 { x: 0, y: ONE, z: 0 }; 4]);
    assert_eq!(along_y.indices, vec![0, 2, 3, 0, 3, 1]);
    let along_z = mesh(&sample_field(2, &|_, _, z| z - 0.5), 2, UNIT, 0);
    // Active cells: z = 0, at positions 0 (x 0, y 0), 1 (x 1, y 0), 4 (x 0, y 1), 5 (x 1, y 1).
    assert_eq!(along_z.positions.len(), 4);
    assert_eq!(along_z.normals, vec![Vec3 { x: 0, y: 0, z: ONE }; 4]);
    assert_eq!(along_z.indices, vec![0, 1, 3, 0, 3, 2]);
}

fn cross(a: [f64; 3], b: [f64; 3]) -> [f64; 3] {
    [
        a[1] * b[2] - a[2] * b[1],
        a[2] * b[0] - a[0] * b[2],
        a[0] * b[1] - a[1] * b[0],
    ]
}

fn to_f64(v: Vec3) -> [f64; 3] {
    [v.x as f64 / 65536.0, v.y as f64 / 65536.0, v.z as f64 / 65536.0]
}

#[test]
fn triangles_face_the_way_the_normals_point() {
    let n = 12usize;
    let samples = sphere(n, 4.3);
    let m = mesh(&samples, n as i32, UNIT, 0);
    assert!(m.triangle_count() > 0);
    for t in m.indices.chunks(3) {
        let a = to_f64(m.positions[t[0] as usize]);
        let b = to_f64(m.positions[t[1] as usize]);
        let c = to_f64(m.positions[t[2] as usize]);
        let face = cross(
            [b[0] - a[0], b[1] - a[1], b[2] - a[2]],
            [c[0] - a[0], c[1] - a[1], c[2] - a[2]],
        );
        let normal = to_f64(m.normals[t[0] as usize]);
        let dot = face[0] * normal[0] + face[1] * normal[1] + face[2] * normal[2];
        assert!(dot >= 0.0);
    }
}

#[test]
fn sphere_vertices_lie_near_the_sphere() {
    let n = 16usize;
    let radius = 5.0;
    for voxel in [UNIT, UNIT / 2, 3 * UNIT] {
        let scale = voxel as f64 / 65536.0;
        let samples = sphere(n, radius);
        let m = mesh(&samples, n as i32, voxel, 0);
        let centre = n as f64 / 2.0 * scale;
        for &p in m.positions.iter() {
            let q = to_f64(p);
            let d = ((q[0] - centre).powi(2) + (q[1] - centre).powi(2) + (q[2] - centre).powi(2))
                .sqrt();
            assert!(d >= (radius - 1.0) * scale && d <= (radius + 1.0) * scale);
        }
        // The surface has an area of 4 pi r^2, about 314 cells.
        assert!(m.vertex_count() > 150 && m.vertex_count() < 1000);
        assert_well_formed(&m);
    }
}

#[test]
fn sphere_vertex_count_grows_with_the_area() {
    let n = 24usize;
    let small = mesh(&sphere(n, 4.0), n as i32, UNIT, 0).vertex_count() as f64;
    let large = mesh(&sphere(n, 8.0), n as i32, UNIT, 0).vertex_count() as f64;
    // Twice the radius, four times the area.
    assert!(large / small > 3.0 && large / small < 5.0);
}

#[test]
fn sphere_normals_point_outward() {
    let n = 16usize;
    let samples = sphere(n, 5.0);
    let m = mesh(&samples, n as i32, UNIT, 0);
    let centre = n as f64 / 2.0;
    let mut outward = 0;
    for (p, nrm) in m.positions.iter().zip(m.normals.iter()) {
        let q = to_f64(*p);
        let u = to_f64(*nrm);
        let length = (u[0] * u[0] + u[1] * u[1] + u[2] * u[2]).sqrt();
        assert!(length > 0.99 && length < 1.01);
        let dot = (q[0] - centre) * u[0] + (q[1] - centre) * u[1] + (q[2] - centre) * u[2];
        if dot > 0.0 {
            outward += 1;
        }
    }
    assert!(outward * 10 >= m.vertex_count() * 9);
}

#[test]
fn sphere_vertices_lie_in_their_cells() {
    let n = 6usize;
    let samples = sphere(n, 2.2);
    let voxel = 5 * UNIT / 4;
    let grid = SdfGrid::new(&samples, n).unwrap();
    let vertices = place_vertices(&grid, voxel, 0);
    assert_eq!(vertices.table.len(), n * n * n);
    let mut next = 0u32;
    for (ci, entry) in vertices.table.iter().enumerate() {
        let (x, y, z) = (ci % n, ci / (n * n), (ci / n) % n);
        if let Some(v) = entry {
            // Vertices are numbered in the order of cells.
            assert_eq!(*v, next);
            next += 1;
            let p = vertices.positions[*v as usize];
            let (lo, hi) = (voxel as i64, voxel as i64);
            assert!(x as i64 * lo <= p.x && p.x <= (x as i64 + 1) * hi);
            assert!(y as i64 * lo <= p.y && p.y <= (y as i64 + 1) * hi);
            assert!(z as i64 * lo <= p.z && p.z <= (z as i64 + 1) * hi);
        }
    }
    assert_eq!(next as usize, vertices.positions.len());
    assert_eq!(vertices.normals.len(), vertices.positions.len());
    let m = surface_nets(&grid, voxel, 0);
    assert_eq!(m.positions, vertices.positions);
    assert_eq!(m.normals, vertices.normals);
    assert_eq!(m.indices, build_indices(&grid, &vertices.table, 0));
}

#[test]
fn boundary_edges_give_no_quad() {
    let samples = sample_field(2, &|x, _, _| x - 0.5);
    let grid = SdfGrid::new(&samples, 2).unwrap();
    let vertices = place_vertices(&grid, UNIT, 0);
    let mut indices = vec![99];
    // Crossed by the surface, but on the outer faces of the lattice.
    for (y, z) in [(0, 0), (0, 1), (1, 0), (2, 1), (1, 2), (2, 2)] {
        emit_edge(&grid, &vertices.table, 0, 0, 0, y, z, &mut indices);
    }
    // Internal, but not crossed.
    emit_edge(&grid, &vertices.table, 0, 0, 1, 1, 1, &mut indices);
    emit_edge(&grid, &vertices.table, 0, 1, 1, 0, 1, &mut indices);
    emit_edge(&grid, &vertices.table, 0, 2, 1, 1, 0, &mut indices);
    // No edge leaves the far face.
    emit_edge(&grid, &vertices.table, 0, 0, 2, 1, 1, &mut indices);
    assert_eq!(indices, vec![99]);
    emit_edge(&grid, &vertices.table, 0, 0, 0, 1, 1, &mut indices);
    assert_eq!(indices, vec![99, 0, 2, 3, 0, 3, 1]);
}

#[test]
fn the_gradient_of_a_plane_is_its_slope() {
    // The field 3 x - 2 y + z has that slope everywhere; the difference
    // over an eighth of a cell carries sixteen more fractional bits.
    let samples = sample_field(3, &|x, y, z| (3.0 * x - 2.0 * y + z) / 64.0);
    let grid = SdfGrid::new(&samples, 3).unwrap();
    let p = Vec3 { x: 3 * 32768, y: 3 * 32768, z: 3 * 32768 };
    assert_eq!(
        gradient(&grid, p),
        Vec3 { x: 3 * 1024 * 8192, y: -2 * 1024 * 8192, z: 1024 * 8192 }
    );
    // At the faces of the volume one of the two positions is held back.
    let corner = Vec3 { x: 0, y: 3 * 65536, z: 0 };
    assert_eq!(
        gradient(&grid, corner),
        Vec3 { x: 3 * 1024 * 4096, y: -2 * 1024 * 4096, z: 1024 * 4096 }
    );
}

#[test]
fn a_vanishing_gradient_falls_back_to_the_dominant_axis() {
    // Two opposite corners inside: the field is the same on both sides of
    // the centre, and the gradient there is zero.
    let samples = vec![-1, 1, 1, 1, 1, 1, 1, -1];
    let grid = SdfGrid::new(&samples, 1).unwrap();
    let corners = [-1, 1, 1, 1, 1, 1, 1, -1];
    let centre = Vec3 { x: 32768, y: 32768, z: 32768 };
    assert_eq!(gradient(&grid, centre), Vec3 { x: 0, y: 0, z: 0 });
    let estimate = estimate_normal(&grid, &corners, 0, centre);
    assert!(estimate.degenerate);
    // Two edges are crossed along each axis; the first axis wins, and the
    // field grows along one of its two crossed edges.
    assert_eq!(estimate.normal, Vec3 { x: ONE, y: 0, z: 0 });
    let m = mesh(&samples, 1, UNIT, 0);
    assert_eq!(m.positions, vec![centre]);
    assert_eq!(m.normals, vec![Vec3 { x: ONE, y: 0, z: 0 }]);
}

#[test]
fn the_fallback_points_the_way_most_crossed_edges_grow() {
    // All four edges along z fall.
    assert_eq!(fallback(&[1, 1, 1, 1, -1, -1, -1, -1], 0), Vec3 { x: 0, y: 0, z: -ONE });
    // All four edges along y grow.
    assert_eq!(fallback(&[-1, -1, 1, 1, -1, -1, 1, 1], 0), Vec3 { x: 0, y: ONE, z: 0 });
    // Along x three edges are crossed, and two of them fall.
    assert_eq!(fallback(&[1, -1, 1, -1, -1, 1, 1, 1], 0), Vec3 { x: -ONE, y: 0, z: 0 });
}

#[test]
fn a_nonzero_gradient_is_not_degenerate() {
    let samples = vec![-UNIT, -UNIT, -UNIT, -UNIT, UNIT, UNIT, UNIT, UNIT];
    let grid = SdfGrid::new(&samples, 1).unwrap();
    let corners = [-UNIT, -UNIT, UNIT, UNIT, -UNIT, -UNIT, UNIT, UNIT];
    let estimate = estimate_normal(&grid, &corners, 0, Vec3 { x: 100, y: 32768, z: 65536 });
    assert!(!estimate.degenerate);
    assert_eq!(estimate.normal, Vec3 { x: 0, y: ONE, z: 0 });
}

#[test]
fn create_mesher_makes_the_chosen_mesher() {
    assert_eq!(
        create_mesher(MesherType::SurfaceNets),
        AnyMesher::SurfaceNets(SurfaceNetsMesher::new())
    );
    assert_eq!(MesherType::default(), MesherType::SurfaceNets);
    assert_eq!(SurfaceNetsMesher::default(), SurfaceNetsMesher::new());
}

#[test]
fn the_iso_level_moves_the_surface() {
    // The field is x; the level 1/4 is crossed a quarter into the first cell.
    let samples = sample_field(1, &|x, _, _| x);
    let m = mesh(&samples, 1, UNIT, 16384);
    assert_eq!(m.positions, vec![Vec3 { x: 16384, y: 32768, z: 32768 }]);
    assert_eq!(m.normals, vec![Vec3 { x: ONE, y: 0, z: 0 }]);
}

#[test]
fn required_samples_is_the_cube_of_the_lattice_side() {
    assert_eq!(required_samples(cube(1)), Ok(8));
    assert_eq!(required_samples(cube(16)), Ok(4913));
    assert_eq!(required_samples(cube(1625)), Ok(1626 * 1626 * 1626));
    assert_eq!(required_samples(cube(1626)), Err(ConfigurationError::ChunkTooLarge));
    assert_eq!(required_samples(cube(0)), Err(ConfigurationError::NonPositiveChunkDimension));
    assert_eq!(
        required_samples(ChunkSize { x: 2, y: 2, z: 3 }),
        Err(ConfigurationError::NonCubicChunk)
    );
}

/// A field without any regularity, the same on every run.
fn scattered(n: usize, seed: u64) -> Vec<i32> {
    let m = n + 1;
    let mut state = seed;
    let mut samples = Vec::new();
    for _ in 0..m * m * m {
        state = state.wrapping_mul(6364136223846793005).wrapping_add(1442695040888963407);
        samples.push(((state >> 33) as i64 - (1 << 30)) as i32);
    }
    samples
}

fn component(v: Vec3, axis: usize) -> i128 {
    [v.x, v.y, v.z][axis] as i128
}

fn projected_area(a: Vec3, b: Vec3, c: Vec3, axis: usize) -> i128 {
    let (u, v) = ((axis + 1) % 3, (axis + 2) % 3);
    (component(b, u) - component(a, u)) * (component(c, v) - component(a, v))
        - (component(c, u) - component(a, u)) * (component(b, v) - component(a, v))
}

#[test]
fn quads_face_the_side_to_which_the_field_grows() {
    let n = 5usize;
    let m = n + 1;
    for seed in 1..6u64 {
        let samples = scattered(n, seed);
        let iso = 1000;
        let mesh = mesh(&samples, n as i32, 3 * UNIT / 4, iso);
        assert_well_formed(&mesh);
        let at = |x: usize, y: usize, z: usize| samples[x + z * m + y * m * m];
        let mut next = 0;
        for pi in 0..m * m * m {
            let (x, y, z) = (pi % m, pi / (m * m), (pi / m) % m);
            for axis in 0..3 {
                let p = [x, y, z];
                let internal = (0..3).all(|w| p[w] < n && (w == axis || p[w] >= 1));
                if !internal {
                    continue;
                }
                let start = at(x, y, z);
                let end = at(
                    x + (axis == 0) as usize,
                    y + (axis == 1) as usize,
                    z + (axis == 2) as usize,
                );
                if (start < iso) == (end < iso) {
                    continue;
                }
                let t: Vec<Vec3> = mesh.indices[next..next + 6]
                    .iter()
                    .map(|i| mesh.positions[*i as usize])
                    .collect();
                next += 6;
                let area =
                    projected_area(t[0], t[1], t[2], axis) + projected_area(t[3], t[4], t[5], axis);
                if start < iso {
                    assert!(area >= 0);
                } else {
                    assert!(area <= 0);
                }
            }
        }
        assert!(next > 0);
        assert_eq!(next, mesh.indices.len());
    }
}

#[test]
fn scattered_fields_give_well_formed_meshes() {
    for n in 1..7usize {
        let samples = scattered(n, 40 + n as u64);
        let first = mesh(&samples, n as i32, UNIT, 0);
        assert_well_formed(&first);
        for normal in first.normals.iter() {
            assert!(*normal != Vec3 { x: 0, y: 0, z: 0 });
            assert!(normal.x.abs() <= ONE && normal.y.abs() <= ONE && normal.z.abs() <= ONE);
        }
        assert_eq!(first, mesh(&samples, n as i32, UNIT, 0));
    }
}

#[test]
fn samples_at_the_ends_of_the_range_are_meshed() {
    let mut samples = vec![i32::MIN; 27];
    for (i, s) in samples.iter_mut().enumerate() {
        if i % 2 == 1 {
            *s = i32::MAX;
        }
    }
    let result = mesh(&samples, 2, i32::MAX, 0);
    assert_eq!(result.positions.len(), 8);
    assert_well_formed(&result);
    let limit = 2 * (i32::MAX as i64);
    for p in result.positions.iter() {
        assert!(0 <= p.x && p.x <= limit);
        assert!(0 <= p.y && p.y <= limit);
        assert!(0 <= p.z && p.z <= limit);
    }
}
