use crate::fixed::Vec3;
use vstd::prelude::*;

verus! {

/// A triangle mesh as three sequences: the view of a [`Mesh`].
pub struct MeshView {
    pub positions: Seq<Vec3>,
    pub normals: Seq<Vec3>,
    pub indices: Seq<u32>,
}

impl MeshView {
    /// There is one normal for each position, the indices come in threes,
    /// and each index names a position.
    pub open spec fn wf(self) -> bool {
        &&& self.positions.len() == self.normals.len()
        &&& self.indices.len() % 3 == 0
        &&& forall|i: int|
            0 <= i < self.indices.len() ==> (#[trigger] self.indices[i]) < self.positions.len()
    }
}

/// A triangle mesh: positions in world units, one unit normal for each
/// position, and three vertex indices for each triangle.
#[derive(Debug, PartialEq, Eq)]
pub struct Mesh {
    pub positions: Vec<Vec3>,
    pub normals: Vec<Vec3>,
    pub indices: Vec<u32>,
}

impl View for Mesh {
    type V = MeshView;

    open spec fn view(&self) -> MeshView {
        MeshView { positions: self.positions@, normals: self.normals@, indices: self.indices@ }
    }
}

impl Mesh {
    /// The number of vertices.
    pub fn vertex_count(&self) -> (n: usize)
        ensures
            n == self@.positions.len(),
    {
        self.positions.len()
    }

    /// The number of triangles.
    pub fn triangle_count(&self) -> (n: usize)
        ensures
            n == self@.indices.len() / 3,
    {
        self.indices.len() / 3
    }
}

} // verus!
