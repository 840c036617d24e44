use crate::config::HardwareConfig;
use vstd::prelude::*;

verus! {

/// Header pin of a GPIO line, for the lines the panel is usually wired to;
/// 0 for any other line.
pub open spec fn header_pin(gpio: u32) -> u32 {
    if gpio == 8 {
        24
    } else if gpio == 17 {
        11
    } else if gpio == 24 {
        18
    } else if gpio == 25 {
        22
    } else if gpio == 7 {
        26
    } else if gpio == 27 {
        13
    } else {
        0
    }
}

/// Header pin of a GPIO line, for the lines the panel is usually wired to;
/// 0 for any other line.
pub fn gpio_to_pin(gpio: u32) -> (pin: u32)
    ensures
        pin == header_pin(gpio),
{
    match gpio {
        8 => 24,
        17 => 11,
        24 => 18,
        25 => 22,
        7 => 26,
        27 => 13,
        _ => 0,
    }
}

/// The two chip-select lines of the SPI peripheral.
#[derive(Clone, Copy, Debug, PartialEq, Eq, Structural)]
pub enum SlaveSelect {
    Ce0,
    Ce1,
}

impl SlaveSelect {
    /// The SPI device that selects the chip on this line.
    pub fn device_path(self) -> (path: &'static str)
        ensures
            path@ == (match self {
                SlaveSelect::Ce0 => "/dev/spidev0.0"@,
                SlaveSelect::Ce1 => "/dev/spidev0.1"@,
            }),
    {
        match self {
            SlaveSelect::Ce0 => "/dev/spidev0.0",
            SlaveSelect::Ce1 => "/dev/spidev0.1",
        }
    }
}

impl HardwareConfig {
    /// The chip-select line of the SPI peripheral that the configuration
    /// names: CE0 for GPIO 8, CE1 for GPIO 7. For any other line there is
    /// none, and the program has to toggle the line itself.
    pub open spec fn spec_slave_select(&self) -> Option<SlaveSelect> {
        if self.cs_pin == 8 {
            Some(SlaveSelect::Ce0)
        } else if self.cs_pin == 7 {
            Some(SlaveSelect::Ce1)
        } else {
            None
        }
    }

    /// The chip-select line of the SPI peripheral that the configuration
    /// names: CE0 for GPIO 8, CE1 for GPIO 7. For any other line there is
    /// none, and the program has to toggle the line itself.
    #[verifier::when_used_as_spec(spec_slave_select)]
    pub fn slave_select(&self) -> (select: Option<SlaveSelect>)
        ensures
            select == self.spec_slave_select(),
    {
        if self.cs_pin == 8 {
            Some(SlaveSelect::Ce0)
        } else if self.cs_pin == 7 {
            Some(SlaveSelect::Ce1)
        } else {
            None
        }
    }
}

} // verus!
