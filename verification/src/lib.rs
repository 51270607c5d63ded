//! QR symbols as square grids of modules: built from text, drawn as console
//! text, SVG markup or a grey raster, and read back from the symbols that a
//! locator finds in a grey raster.

pub mod art;
pub mod encoder;
pub mod gray;
pub mod laws;
pub mod options;
pub mod paint;
pub mod raster;
pub mod scan;
pub mod svg;
pub mod symbol;
pub mod text;
