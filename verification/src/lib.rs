//! Surface-nets meshing of signed-distance fields sampled on a regular
//! lattice, in fixed-point arithmetic.
//!
//! All scalars are fixed-point numbers with sixteen fractional bits: the
//! integer `65536` stands for one. Samples, the iso-level and the voxel size
//! are `i32` values in that format; positions and normals are
//! [`fixed::Vec3`] values whose components use the same format.
//!
//! A chunk of `n` cells along each axis is sampled at `(n + 1)^3` lattice
//! points, stored with `x` running fastest, then `z`, then `y`. A sample
//! below the iso-level lies inside the surface, any other sample outside.
//! The mesh has one vertex in each cell whose corners do not all lie on one
//! side, and one quad for each internal lattice edge whose ends lie on
//! different sides.
//!
//! The stages, in the order in which a request passes through them:
//! [`grid`] gives bounds-checked access to the samples and interpolates
//! between them, [`cell`] classifies cells, [`vertex`] places a vertex in
//! each active cell, [`normal`] estimates the normal there, [`topology`]
//! joins the vertices to quads, and [`surface_nets`] assembles the mesh.
//! [`meshers`] holds the entry point that validates a request, and
//! [`voxel_mesher`] a front end that keeps the settings between requests.

pub mod cell;
pub mod error;
pub mod fixed;
pub mod grid;
pub mod mesh;
pub mod meshers;
pub mod normal;
pub mod orientation;
pub mod surface_nets;
pub mod topology;
pub mod vertex;
pub mod voxel_mesher;
