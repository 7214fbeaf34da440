//! Conway's Game of Life on a fixed-topology toroidal grid.
//!
//! The grid is a rectangle of cells, each Alive or Dead, stored one bit per
//! cell in a packed bit set. Row and column offsets wrap around the edges
//! (toroidal topology), and one `tick` advances every cell at once by the
//! classic birth/survival rule.

mod bits;
mod grid;
pub mod laws;
pub mod model;

pub use bits::bit_seq;
pub use grid::Cell;
pub use grid::Universe;
pub use model::GridView;
