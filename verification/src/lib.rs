//! Mandelbrot rendering: the raster, its colour palettes and the flat RGBA buffer.
//!
//! The arithmetic here is integer arithmetic. The floating-point stages of a render (mapping
//! a cell to a point of the plane, updating the orbit, the tone curves of the hue-based
//! palettes) are the caller's: they come in as closures and as plain integer values.

pub mod engine;
pub mod error;
pub mod palettes;
pub mod pixel;
pub mod plane;
pub mod render;

pub use engine::escape_time;
pub use error::RenderError;
pub use palettes::{BasicColoring, HsvColoring, LchColoring, Palette, RgbNormalizedColoring};
pub use pixel::{truncate_channel, Pixel};
pub use plane::Plane;
pub use render::render;
