//! Conway's Game of Life on a board of fixed size that wraps at every edge.
//!
//! A board is an array of rows of [`Status`]. One step ([`update_board`])
//! gives every cell the state that the rule ([`alive_or_dead`]) finds for the
//! eight cells around it ([`neighbors_of`]), all cells at once. The
//! mathematical side of each of these, and the laws that hold of them, stand
//! beside them in the modules.

pub mod board;
pub mod population;
pub mod rule;
pub mod seed;
pub mod status;
pub mod torus;

pub use board::{neighbors_of, update_board, update_status, Board};
pub use population::live_cells;
pub use rule::alive_or_dead;
pub use seed::{random_board, random_status, status_from_draw};
pub use status::Status;
pub use torus::neighbor_coords;
