use vstd::prelude::*;

verus! {

/// GPIO lines of the panel, by their numbers on the Raspberry Pi.
#[derive(Clone, Copy, Debug, PartialEq, Eq, Structural)]
pub struct HardwareConfig {
    /// Chip select. Lines 8 and 7 are driven by the SPI peripheral itself
    /// (CE0 and CE1); any other line is toggled by the program.
    pub cs_pin: u32,
    /// Data/command select.
    pub dc_pin: u32,
    /// Reset.
    pub rst_pin: u32,
    /// Busy.
    pub busy_pin: u32,
}

/// Display settings.
#[derive(Clone, Copy, Debug, PartialEq, Eq, Structural)]
pub struct DisplayConfig {
    /// Hours shown before and after the present.
    pub time_window_hours: i64,
    /// Minutes for which fetched data stays fresh.
    pub cache_ttl_minutes: u64,
    /// Panel width in pixels.
    pub width: i32,
    /// Panel height in pixels.
    pub height: i32,
    /// Height of the text font in pixels.
    pub font_height: i32,
    /// GPIO lines of the panel.
    pub hardware: HardwareConfig,
}

/// The chip-select line used where a configuration names none: CE0.
pub fn default_cs_pin() -> (pin: u32)
    ensures
        pin == 8,
{
    8
}

impl Default for HardwareConfig {
    /// The wiring of the panel's HAT: chip select on GPIO 8, data/command
    /// on 25, reset on 17, busy on 24.
    fn default() -> (hardware: Self)
        ensures
            hardware == (HardwareConfig { cs_pin: 8, dc_pin: 25, rst_pin: 17, busy_pin: 24 }),
    {
        HardwareConfig { cs_pin: default_cs_pin(), dc_pin: 25, rst_pin: 17, busy_pin: 24 }
    }
}

impl Default for DisplayConfig {
    /// Twelve hours either side, a cache of thirty minutes, the 400 by 300
    /// panel with a font 20 pixels high, and the default wiring.
    fn default() -> (display: Self)
        ensures
            display == (DisplayConfig {
                time_window_hours: 12,
                cache_ttl_minutes: 30,
                width: 400,
                height: 300,
                font_height: 20,
                hardware: HardwareConfig { cs_pin: 8, dc_pin: 25, rst_pin: 17, busy_pin: 24 },
            }),
    {
        DisplayConfig {
            time_window_hours: 12,
            cache_ttl_minutes: 30,
            width: 400,
            height: 300,
            font_height: 20,
            hardware: HardwareConfig::default(),
        }
    }
}

} // verus!
