use vstd::prelude::*;

verus! {

/// One request to change what the LEDs show.
///
/// Logic in this crate does not drive LEDs itself; it returns the requests in
/// order, and the runtime performs them.
#[derive(Copy, Clone, Debug, PartialEq, Eq, Structural)]
pub enum LedCommand {
    /// Show palette entry `velocity` on `index`, as Novation's own firmware does.
    Novation { index: u8, velocity: u8 },
    /// Show palette entry `velocity` on `index` through the palette table.
    Palette { index: u8, velocity: u8 },
    /// Show a 6-bit-per-channel colour on `index`.
    Rgb { index: u8, r: u8, g: u8, b: u8 },
    /// Show a 24-bit `0xRRGGBB` colour on `index`.
    Color { index: u8, color: u32 },
    /// Turn every LED off.
    Clear,
    /// Drive the hardware LED `index` directly with a 6-bit-per-channel colour.
    RawRgb { index: u8, r: u8, g: u8, b: u8 },
    /// Drive the hardware LED `index` directly with a 24-bit colour.
    RawColor { index: u8, color: u32 },
    /// Fill every hardware LED with a 24-bit colour.
    RawFill { color: u32 },
}

} // verus!
