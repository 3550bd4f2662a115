//! A static dot-map shape for terminal-style dashboards.
//!
//! A [`MapShape`](shape::MapShape) selects one of two built-in point
//! datasets by its [`MapResolution`](resolution::MapResolution) and paints
//! every point that falls inside the visible bounds of a
//! [`Painter`](painter::Painter) with its color.

pub mod color;
pub mod painter;
pub mod resolution;
pub mod shape;
pub mod world;

pub use color::Color;
pub use painter::Painter;
pub use resolution::MapResolution;
pub use resolution::ParseError;
pub use shape::MapShape;
