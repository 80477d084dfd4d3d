//! A sparse voxel world stored as 32 x 32 x 32 chunks keyed by packed coordinates, and a
//! mesher that turns a chunk's voxels into the quads of its visible faces.
//!
//! - `chunk`: the dense voxel grid of one chunk, its non-air count and dirty flag.
//! - `mesh`: the vertex streams produced for a chunk and their upload flag.
//! - `mesher`: hidden-face culling, stated over the voxel grid; `mesher_laws` proves
//!   what the meshes of some chunks are.
//! - `volume`: packed chunk coordinates and the ordered map of chunks.
//! - `math`: range tests and clamping; `status`: the application's exit status.

use vstd::prelude::*;

pub mod chunk;
pub mod math;
pub mod mesh;
pub mod mesher;
pub mod mesher_laws;
pub mod status;
pub mod volume;

verus! {

} // verus!
