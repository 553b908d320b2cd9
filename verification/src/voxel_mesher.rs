use crate::error::ConfigurationError;
use crate::mesh::{Mesh, MeshView};
use crate::meshers::{
    create_mesher, meshing_result, AnyMesher, ChunkSize, Mesher, MesherType,
};
use vstd::prelude::*;

verus! {

/// Why a [`VoxelMesher`] gave no mesh.
#[derive(Clone, Copy, Debug, PartialEq, Eq, Structural)]
pub enum VoxelMesherError {
    /// No mesher has been made yet: `ready` has not run.
    NotReady,
    /// The request was refused.
    Configuration(ConfigurationError),
}

/// The settings of a [`VoxelMesher`], and whether it holds a mesher.
pub struct VoxelMesherView {
    pub mesher_type: MesherType,
    pub chunk_size: ChunkSize,
    pub voxel_size: i32,
    pub iso_level: i32,
    pub ready: bool,
}

/// The settings of a meshing front end and the mesher that it drives.
pub struct VoxelMesher {
    mesher_type: MesherType,
    chunk_size: ChunkSize,
    voxel_size: i32,
    iso_level: i32,
    current_mesher: Option<AnyMesher>,
}

impl View for VoxelMesher {
    type V = VoxelMesherView;

    closed spec fn view(&self) -> VoxelMesherView {
        VoxelMesherView {
            mesher_type: self.mesher_type,
            chunk_size: self.chunk_size,
            voxel_size: self.voxel_size,
            iso_level: self.iso_level,
            ready: self.current_mesher is Some,
        }
    }
}

/// What a front end with settings `s` gives for `samples`.
pub open spec fn front_end_result(s: VoxelMesherView, samples: Seq<i32>) -> Result<
    MeshView,
    VoxelMesherError,
> {
    if !s.ready {
        Err(VoxelMesherError::NotReady)
    } else {
        match meshing_result(
            s.mesher_type,
            samples,
            s.chunk_size,
            s.voxel_size as int,
            s.iso_level as int,
        ) {
            Ok(mesh) => Ok(mesh),
            Err(e) => Err(VoxelMesherError::Configuration(e)),
        }
    }
}

impl VoxelMesher {
    /// The voxel size is positive, and the mesher held, if any, runs the
    /// chosen algorithm.
    pub closed spec fn wf(&self) -> bool {
        &&& self.voxel_size > 0
        &&& (self.current_mesher matches Some(m) ==> m.mesher_type() == self.mesher_type)
    }

    /// A front end with the default settings: surface nets, a chunk of
    /// sixteen cells along each axis, a voxel size of one, an iso-level of
    /// zero, and no mesher yet.
    pub fn new() -> (m: VoxelMesher)
        ensures
            m.wf(),
            m@ == (VoxelMesherView {
                mesher_type: MesherType::SurfaceNets,
                chunk_size: ChunkSize { x: 16, y: 16, z: 16 },
                voxel_size: 65536,
                iso_level: 0,
                ready: false,
            }),
    {
        VoxelMesher {
            mesher_type: MesherType::default(),
            chunk_size: ChunkSize { x: 16, y: 16, z: 16 },
            voxel_size: 65536,
            iso_level: 0,
            current_mesher: None,
        }
    }

    /// Makes the mesher of the chosen algorithm.
    pub fn ready(&mut self)
        requires
            old(self).wf(),
        ensures
            final(self).wf(),
            final(self)@ == (VoxelMesherView { ready: true, ..old(self)@ }),
    {
        self.update_mesher();
    }

    /// Extracts the surface of the field sampled in `sdf_samples` with the
    /// current settings.
    pub fn generate_mesh(&mut self, sdf_samples: &[i32]) -> (r: Result<Mesh, VoxelMesherError>)
        requires
            old(self).wf(),
        ensures
            final(self).wf(),
            final(self)@ == old(self)@,
            match r {
                Ok(mesh) => front_end_result(old(self)@, sdf_samples@) == Ok::<
                    MeshView,
                    VoxelMesherError,
                >(mesh@) && mesh@.wf(),
                Err(e) => front_end_result(old(self)@, sdf_samples@) == Err::<
                    MeshView,
                    VoxelMesherError,
                >(e) && e != VoxelMesherError::Configuration(
                    ConfigurationError::NonPositiveVoxelSize,
                ),
            },
    {
        let chunk_size = self.chunk_size;
        let voxel_size = self.voxel_size;
        let iso_level = self.iso_level;
        match &mut self.current_mesher {
            Some(mesher) => {
                match mesher.generate_mesh(sdf_samples, chunk_size, voxel_size, iso_level) {
                    Ok(mesh) => Ok(mesh),
                    Err(e) => Err(VoxelMesherError::Configuration(e)),
                }
            },
            None => Err(VoxelMesherError::NotReady),
        }
    }

    /// Chooses the algorithm. A change makes a new mesher; the same choice
    /// again changes nothing.
    pub fn set_mesher_type(&mut self, new_type: MesherType)
        requires
            old(self).wf(),
        ensures
            final(self).wf(),
            final(self)@ == (if new_type != old(self)@.mesher_type {
                VoxelMesherView { mesher_type: new_type, ready: true, ..old(self)@ }
            } else {
                old(self)@
            }),
    {
        if self.mesher_type != new_type {
            self.mesher_type = new_type;
            self.update_mesher();
        }
    }

    /// Sets the voxel size, if it is positive; any other value is ignored.
    pub fn set_voxel_size(&mut self, size: i32)
        requires
            old(self).wf(),
        ensures
            final(self).wf(),
            final(self)@ == (if size > 0 {
                VoxelMesherView { voxel_size: size, ..old(self)@ }
            } else {
                old(self)@
            }),
    {
        if size > 0 {
            self.voxel_size = size;
        }
    }

    /// Sets the number of cells of a chunk along each axis.
    pub fn set_chunk_size(&mut self, chunk_size: ChunkSize)
        requires
            old(self).wf(),
        ensures
            final(self).wf(),
            final(self)@ == (VoxelMesherView { chunk_size: chunk_size, ..old(self)@ }),
    {
        self.chunk_size = chunk_size;
    }

    /// Sets the iso-level.
    pub fn set_iso_level(&mut self, iso_level: i32)
        requires
            old(self).wf(),
        ensures
            final(self).wf(),
            final(self)@ == (VoxelMesherView { iso_level: iso_level, ..old(self)@ }),
    {
        self.iso_level = iso_level;
    }

    /// The chosen algorithm.
    pub fn mesher_type(&self) -> (t: MesherType)
        ensures
            t == self@.mesher_type,
    {
        self.mesher_type
    }

    /// The number of cells of a chunk along each axis.
    pub fn chunk_size(&self) -> (c: ChunkSize)
        ensures
            c == self@.chunk_size,
    {
        self.chunk_size
    }

    /// The voxel size.
    pub fn voxel_size(&self) -> (s: i32)
        requires
            self.wf(),
        ensures
            s == self@.voxel_size,
            s > 0,
    {
        self.voxel_size
    }

    /// The iso-level.
    pub fn iso_level(&self) -> (l: i32)
        ensures
            l == self@.iso_level,
    {
        self.iso_level
    }

    /// Whether a mesher has been made.
    pub fn is_ready(&self) -> (b: bool)
        ensures
            b == self@.ready,
    {
        self.current_mesher.is_some()
    }

    /// Replaces the mesher by a new one of the chosen algorithm.
    fn update_mesher(&mut self)
        requires
            old(self).voxel_size > 0,
        ensures
            final(self).wf(),
            final(self)@ == (VoxelMesherView { ready: true, ..old(self)@ }),
    {
        self.current_mesher = Some(create_mesher(self.mesher_type));
    }
}

} // verus!
