pub mod color;
pub mod definitions;
pub mod error;
pub mod gradient;
pub mod named_colors;
pub mod params;
