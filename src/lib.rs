//! Voxel raycasting core: packed colours, dense occupancy grids, the
//! ray/box slab test, and the cell-by-cell walk of a ray through a grid.

pub mod bits;
pub mod color;
pub mod slab;
pub mod voxel;
pub mod walk;
