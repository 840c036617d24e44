use vstd::prelude::*;
use vstd::string::StringExecFns;

verus! {

/// Failure of a bus or control-line operation, with its description. The
/// driver hands such a failure on to its caller at once and does not try
/// again. A wait for the controller that runs out of time is no failure:
/// the driver goes on, and `read_busy` tells of it in its result.
#[derive(Debug)]
pub struct EpdError(pub String);

impl EpdError {
    /// The text shown for this error: its description after a fixed prefix.
    pub fn to_string(&self) -> (text: String)
        ensures
            text@ == "EPD Error: "@ + self.0@,
    {
        String::from_str("EPD Error: ").concat(self.0.as_str())
    }
}

/// Byte transport to the controller.
///
/// The driver is written against this and the three traits below; what is
/// behind them is up to the caller: a peripheral, lines toggled by hand, or
/// a double for a test. None of their methods carries a contract, so the
/// driver relies on nothing that an implementation does.
pub trait SoftwareSpi {
    /// Sends one byte.
    fn write_byte(&mut self, data: u8) -> Result<(), EpdError>;

    /// Receives one byte.
    fn read_byte(&mut self) -> Result<u8, EpdError>;
}

/// An output line.
pub trait GpioPin {
    /// Drives the line high.
    fn set_high(&mut self) -> Result<(), EpdError>;

    /// Drives the line low.
    fn set_low(&mut self) -> Result<(), EpdError>;
}

/// An input line.
pub trait InputPin {
    /// Whether the line is high.
    fn is_high(&self) -> Result<bool, EpdError>;
}

/// A way to let time pass.
pub trait DelayMs {
    /// Returns after at least `ms` milliseconds.
    fn delay_ms(&mut self, ms: u32);
}

} // verus!
