pub mod color;
pub mod clip;
pub mod framebuffer;
pub mod gamma;
pub mod glyphs;
pub mod text;
pub mod raster;
