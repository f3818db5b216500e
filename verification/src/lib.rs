//! A culled-face voxel mesher: fixed-size chunks of blocks, and a mesher
//! that turns one chunk into the exact list of quads whose faces border
//! empty space, with proved geometry, winding, and color propagation.

pub mod chunk;
pub mod laws;
pub mod manager;
pub mod mesher;
pub mod types;
