use crate::error::ConfigurationError;
use crate::grid::{lattice_len, Lattice, SdfGrid, MAX_CHUNK_SIZE};
use crate::mesh::{Mesh, MeshView};
use crate::surface_nets::{lemma_surface_mesh_wf, surface_mesh, surface_nets};
use vstd::prelude::*;

verus! {

/// The meshing algorithms to choose from.
#[derive(Clone, Copy, Debug, PartialEq, Eq, Structural)]
pub enum MesherType {
    SurfaceNets,
}

impl Default for MesherType {
    fn default() -> (t: MesherType)
        ensures
            t == MesherType::SurfaceNets,
    {
        MesherType::SurfaceNets
    }
}

/// The number of cells of a chunk along each axis.
#[derive(Clone, Copy, Debug, PartialEq, Eq, Structural)]
pub struct ChunkSize {
    pub x: i32,
    pub y: i32,
    pub z: i32,
}

/// Which refusal, if any, the dimensions of a chunk earn: they must be
/// positive, equal, and no larger than the largest supported chunk.
pub open spec fn chunk_error(chunk_size: ChunkSize) -> Option<ConfigurationError> {
    if chunk_size.x <= 0 || chunk_size.y <= 0 || chunk_size.z <= 0 {
        Some(ConfigurationError::NonPositiveChunkDimension)
    } else if chunk_size.x != chunk_size.y || chunk_size.y != chunk_size.z {
        Some(ConfigurationError::NonCubicChunk)
    } else if chunk_size.x > MAX_CHUNK_SIZE {
        Some(ConfigurationError::ChunkTooLarge)
    } else {
        None
    }
}

/// Which refusal, if any, a request earns: the chunk dimensions are looked
/// at first, then the voxel size, then the number of samples.
pub open spec fn request_error(sample_count: int, chunk_size: ChunkSize, voxel_size: int) -> Option<
    ConfigurationError,
> {
    if chunk_error(chunk_size) is Some {
        chunk_error(chunk_size)
    } else if voxel_size <= 0 {
        Some(ConfigurationError::NonPositiveVoxelSize)
    } else if sample_count != lattice_len(chunk_size.x as int) {
        Some(ConfigurationError::SampleCountMismatch)
    } else {
        None
    }
}

/// The mesh that the algorithm `mesher_type` gives for a sampled field.
pub open spec fn mesh_for(
    mesher_type: MesherType,
    lat: Lattice,
    voxel_size: int,
    iso: int,
) -> MeshView {
    match mesher_type {
        MesherType::SurfaceNets => surface_mesh(lat, voxel_size, iso),
    }
}

/// What a meshing request gives: the refusal it earns, or the mesh of the
/// field.
pub open spec fn meshing_result(
    mesher_type: MesherType,
    samples: Seq<i32>,
    chunk_size: ChunkSize,
    voxel_size: int,
    iso: int,
) -> Result<MeshView, ConfigurationError> {
    match request_error(samples.len() as int, chunk_size, voxel_size) {
        Some(e) => Err(e),
        None => Ok(
            mesh_for(
                mesher_type,
                Lattice { samples: samples, n: chunk_size.x as int },
                voxel_size,
                iso,
            ),
        ),
    }
}

/// The outcome `r` of a call is the expected one: the same refusal, or a
/// mesh with the expected contents.
pub open spec fn outcome_is(
    r: Result<Mesh, ConfigurationError>,
    expected: Result<MeshView, ConfigurationError>,
) -> bool {
    match r {
        Ok(mesh) => expected == Ok::<MeshView, ConfigurationError>(mesh@),
        Err(e) => expected == Err::<MeshView, ConfigurationError>(e),
    }
}

/// Meshing has no hidden input: two outcomes of the same request are both
/// meshes with the same contents, or both the same refusal.
pub proof fn lemma_meshing_deterministic(
    mesher_type: MesherType,
    samples: Seq<i32>,
    chunk_size: ChunkSize,
    voxel_size: int,
    iso: int,
    first: Result<Mesh, ConfigurationError>,
    second: Result<Mesh, ConfigurationError>,
)
    requires
        outcome_is(first, meshing_result(mesher_type, samples, chunk_size, voxel_size, iso)),
        outcome_is(second, meshing_result(mesher_type, samples, chunk_size, voxel_size, iso)),
    ensures
        match (first, second) {
            (Ok(a), Ok(b)) => a@ == b@,
            (Err(e), Err(f)) => e == f,
            _ => false,
        },
{
}

/// A cubic chunk of a supported size with a full buffer of samples and a
/// positive voxel size is never refused, and its mesh is well formed.
pub proof fn lemma_valid_request_meshes(
    mesher_type: MesherType,
    samples: Seq<i32>,
    n: i32,
    voxel_size: int,
    iso: int,
)
    requires
        1 <= n <= MAX_CHUNK_SIZE,
        samples.len() == lattice_len(n as int),
        voxel_size > 0,
    ensures
        meshing_result(mesher_type, samples, ChunkSize { x: n, y: n, z: n }, voxel_size, iso)
            is Ok,
        meshing_result(
            mesher_type,
            samples,
            ChunkSize { x: n, y: n, z: n },
            voxel_size,
            iso,
        ).unwrap().wf(),
{
    lemma_surface_mesh_wf(Lattice { samples: samples, n: n as int }, voxel_size, iso);
}

/// What every meshing algorithm offers.
pub trait Mesher {
    /// The algorithm that this mesher runs.
    spec fn mesher_type(&self) -> MesherType;

    /// Extracts the surface of the field sampled in `sdf_data`, a chunk of
    /// `chunk_size` cells whose samples are laid out with `x` running
    /// fastest, then `z`, then `y`.
    fn generate_mesh(
        &mut self,
        sdf_data: &[i32],
        chunk_size: ChunkSize,
        voxel_size: i32,
        iso_level: i32,
    ) -> (r: Result<Mesh, ConfigurationError>)
        ensures
            final(self).mesher_type() == old(self).mesher_type(),
            outcome_is(
                r,
                meshing_result(
                    old(self).mesher_type(),
                    sdf_data@,
                    chunk_size,
                    voxel_size as int,
                    iso_level as int,
                ),
            ),
            r matches Ok(mesh) ==> mesh@.wf(),
    ;
}

/// The number of samples that a chunk of the given dimensions needs:
/// `(n + 1)^3` for `n` cells along each axis.
pub fn required_samples(chunk_size: ChunkSize) -> (r: Result<u64, ConfigurationError>)
    ensures
        match r {
            Ok(count) => chunk_error(chunk_size) is None && count == lattice_len(
                chunk_size.x as int,
            ),
            Err(e) => chunk_error(chunk_size) == Some(e),
        },
{
    if chunk_size.x <= 0 || chunk_size.y <= 0 || chunk_size.z <= 0 {
        return Err(ConfigurationError::NonPositiveChunkDimension);
    }
    if chunk_size.x != chunk_size.y || chunk_size.y != chunk_size.z {
        return Err(ConfigurationError::NonCubicChunk);
    }
    if chunk_size.x as usize > MAX_CHUNK_SIZE {
        return Err(ConfigurationError::ChunkTooLarge);
    }
    let m: u64 = chunk_size.x as u64 + 1;
    assert(m * m <= 1626 * 1626 && m * m * m <= 1626 * 1626 * 1626) by (nonlinear_arith)
        requires
            0 <= m <= 1626,
    ;
    Ok(m * m * m)
}

/// Validates a request and wraps its samples as a grid.
pub fn validate_request<'a>(
    sdf_data: &'a [i32],
    chunk_size: ChunkSize,
    voxel_size: i32,
) -> (r: Result<SdfGrid<'a>, ConfigurationError>)
    ensures
        match r {
            Ok(grid) => request_error(sdf_data@.len() as int, chunk_size, voxel_size as int)
                is None && grid.wf() && grid@ == (Lattice {
                samples: sdf_data@,
                n: chunk_size.x as int,
            }),
            Err(e) => request_error(sdf_data@.len() as int, chunk_size, voxel_size as int)
                == Some(e),
        },
{
    match required_samples(chunk_size) {
        Err(e) => Err(e),
        Ok(_) => {
            if voxel_size <= 0 {
                Err(ConfigurationError::NonPositiveVoxelSize)
            } else {
                SdfGrid::new(sdf_data, chunk_size.x as usize)
            }
        },
    }
}

/// The surface-nets mesher: one vertex in each cell that the surface
/// passes through, one quad around each internal edge that it crosses.
#[derive(Clone, Copy, Debug, PartialEq, Eq, Structural)]
pub struct SurfaceNetsMesher {}

impl SurfaceNetsMesher {
    pub fn new() -> (m: SurfaceNetsMesher)
        ensures
            m.mesher_type() == MesherType::SurfaceNets,
    {
        SurfaceNetsMesher {  }
    }
}

impl Default for SurfaceNetsMesher {
    fn default() -> (m: SurfaceNetsMesher)
        ensures
            m.mesher_type() == MesherType::SurfaceNets,
    {
        SurfaceNetsMesher::new()
    }
}

impl Mesher for SurfaceNetsMesher {
    open spec fn mesher_type(&self) -> MesherType {
        MesherType::SurfaceNets
    }

    fn generate_mesh(
        &mut self,
        sdf_data: &[i32],
        chunk_size: ChunkSize,
        voxel_size: i32,
        iso_level: i32,
    ) -> (r: Result<Mesh, ConfigurationError>) {
        match validate_request(sdf_data, chunk_size, voxel_size) {
            Ok(grid) => Ok(surface_nets(&grid, voxel_size, iso_level)),
            Err(e) => Err(e),
        }
    }
}

/// A mesher of any of the algorithms.
#[derive(Clone, Copy, Debug, PartialEq, Eq, Structural)]
pub enum AnyMesher {
    SurfaceNets(SurfaceNetsMesher),
}

impl Mesher for AnyMesher {
    open spec fn mesher_type(&self) -> MesherType {
        match self {
            AnyMesher::SurfaceNets(_) => MesherType::SurfaceNets,
        }
    }

    fn generate_mesh(
        &mut self,
        sdf_data: &[i32],
        chunk_size: ChunkSize,
        voxel_size: i32,
        iso_level: i32,
    ) -> (r: Result<Mesh, ConfigurationError>) {
        match self {
            AnyMesher::SurfaceNets(m) => m.generate_mesh(
                sdf_data,
                chunk_size,
                voxel_size,
                iso_level,
            ),
        }
    }
}

/// Makes a mesher of the chosen algorithm.
pub fn create_mesher(mesher_type: MesherType) -> (m: AnyMesher)
    ensures
        m.mesher_type() == mesher_type,
{
    match mesher_type {
        MesherType::SurfaceNets => AnyMesher::SurfaceNets(SurfaceNetsMesher::new()),
    }
}

} // verus!
