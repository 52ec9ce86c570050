//! A paintable-terrain simulation core: falling particles stick to a
//! colored occupancy grid, marking the cell where they first left solid
//! ground. Continuous positions and velocities are carried as fixed-point
//! integers (`SCALE` subcell units per grid cell).

use vstd::prelude::*;

mod color;
mod counter;
mod geom;
mod grid;
mod particle;
mod reap;
mod resolve;
mod spawn;

verus! {

} // verus!

pub use color::QuantizedColor;
pub use counter::DebugInfo;
pub use counter::MousePointer;
pub use geom::isqrt;
pub use geom::step_direction;
pub use geom::MAX_VEL;
pub use particle::MAX_POS;
pub use particle::Particle;
pub use reap::out_of_viewport;
pub use reap::reap;
pub use resolve::Resolution;
pub use spawn::spawn_batch;
pub use spawn::BASE_SPEED;
pub use spawn::BATCH_SIZE;
pub use spawn::SPAWN_OFFSET;
pub use grid::Cell;
pub use grid::GroundGrid;
pub use grid::bitmap_to_bytes;
pub use grid::FLOOR_ROWS;
pub use grid::SCALE;
