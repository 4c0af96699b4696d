//! Procedural generation of "galaxies"-style puzzle boards.
//!
//! Given a rectangular board, the generator places point-symmetric galaxy
//! centers ("dots") until every cell of the doubled-resolution grid belongs
//! to exactly one galaxy region.

pub mod err;
mod gen;
pub mod growth;
pub mod matcher;
pub mod patterns;
pub mod position;
pub mod print;
mod rng;
pub mod space;
pub mod weight;

pub use err::GenError;
pub use gen::MAX_BOARD;
pub use gen::generate_dots;
pub use gen::generate_dots_in_space;
pub use gen::generate_next_dots;
pub use print::dot_space;
pub use print::dot_space_candidates;
pub use position::Position;
pub use space::DotPos;
pub use space::DotSpace;
