pub mod color;
pub mod engine;
pub mod params;
pub mod raster;
