pub mod ast;
pub mod model;
pub mod parser;
pub mod raster;
pub mod scan;
pub mod stops;
pub mod laws;
pub mod safety;
pub mod round_trip;
pub mod spelling;
