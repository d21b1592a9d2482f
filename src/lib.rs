//! Bresenham line rasterization over any fixed-width integer type, signed or
//! unsigned, with signed differences carried as (magnitude, sign) pairs.
pub mod line;
pub mod num;
pub mod signed;

pub use line::{calculate_line, Point};
pub use num::LineRSInt;
pub use signed::{Sign, SignedInt};
