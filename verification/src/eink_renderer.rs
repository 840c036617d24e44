//! Text and chart drawing on the panel's frame buffer.

pub mod chart;
pub mod glyphs;
pub mod line;
pub mod raster;
pub mod text;

pub use chart::{is_now, Area, Curve, Dot, PlotPoint};
pub use glyphs::{Font, Stroke};
pub use text::EinkTideRenderer;
