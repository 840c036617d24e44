//! The 4.2" three-colour panel: its frame buffer and its controller protocol.

pub mod bus;
pub mod color;
pub mod dialect;
pub mod driver;
pub mod framebuffer;
pub mod protocol;

pub use bus::{DelayMs, EpdError, GpioPin, InputPin, SoftwareSpi};
pub use color::Color;
pub use dialect::{CommandSet, Dialect, Setting};
pub use driver::{BusyWait, Call, Epd4in2bV2, Made, Outcome, Transfer};
pub use framebuffer::{DisplayBuffer, FrameView};
pub use protocol::{Op, PollStep, EPD_HEIGHT, EPD_PLANE_BYTES, EPD_WIDTH};
