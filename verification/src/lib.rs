//! Driver and frame buffer for a 4.2" black/white/red e-paper panel, and the
//! tide clock's drawing on it.
//!
//! - `epd4in2b_v2`: the frame buffer, the controller's protocol as lists of
//!   steps, and the driver that carries the steps out on a bus and control
//!   lines supplied by the caller.
//! - `eink_renderer`: text in three sizes, lines, and the parts of the tide
//!   chart, drawn into the frame buffer.
//! - `config`, `wiring`: display settings and the GPIO lines of the panel.

pub mod config;
pub mod eink_renderer;
pub mod epd4in2b_v2;
pub mod wiring;
