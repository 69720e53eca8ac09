//! The hardware a device runs on, as the shared logic sees it, and the slot
//! that holds the installed driver.

use vstd::prelude::*;
use crate::sys::midi::MidiPort;

verus! {

/// The red, green and blue 6-bit channels of a `0xRRGGBB` colour: the top
/// six bits of each byte.
pub open spec fn channels_of(color: u32) -> (u8, u8, u8) {
    (
        ((color >> 18u32) & 0x3f) as u8,
        ((color >> 10u32) & 0x3f) as u8,
        ((color >> 2u32) & 0x3f) as u8,
    )
}

/// The red, green and blue 6-bit channels of a `0xRRGGBB` colour.
pub fn led_channels(color: u32) -> (r: (u8, u8, u8))
    ensures
        r == channels_of(color),
        r.0 <= 0x3f && r.1 <= 0x3f && r.2 <= 0x3f,
{
    let r = (color >> 18) & 0x3f;
    let g = (color >> 10) & 0x3f;
    let b = (color >> 2) & 0x3f;
    assert(r <= 0x3f && g <= 0x3f && b <= 0x3f) by (bit_vector)
        requires
            r == (color >> 18) & 0x3f,
            g == (color >> 10) & 0x3f,
            b == (color >> 2) & 0x3f,
    ;
    (r as u8, g as u8, b as u8)
}

/// A request the shared logic makes of the hardware.
pub enum DriverRequest {
    /// Show a 6-bit-per-channel colour on LED `index`.
    RgbLed { index: u8, r: u8, g: u8, b: u8 },
    /// Show a 24-bit colour on every LED.
    Fill { color: u32 },
    /// Set the LED brightness level.
    SetBrightness { brightness: u8 },
    /// Send a MIDI message on a port.
    SendMidi { port: MidiPort, data: Seq<u8> },
    /// Write bytes to the settings flash at an offset.
    WriteFlash { offset: u32, data: Seq<u8> },
}

/// What a device provides: LEDs, MIDI output, flash storage and its id.
///
/// A driver is described by the requests it was given, oldest first, and by
/// what it reports: its brightness level, the size and contents of its
/// settings flash, and its id.
pub trait Driver {
    /// The requests made of this driver so far, oldest first.
    spec fn requests(&self) -> Seq<DriverRequest>;

    /// The LED brightness level the driver reports.
    spec fn brightness_level(&self) -> u8;

    /// The size of the settings flash.
    spec fn flash_capacity(&self) -> u32;

    /// The `len` bytes of the settings flash at `offset`, as a read gives them.
    spec fn flash_bytes(&self, offset: u32, len: nat) -> Seq<u8>;

    /// The device id.
    spec fn id(&self) -> u8;

    fn set_rgb_led(&mut self, index: u8, r: u8, g: u8, b: u8)
        ensures
            final(self).requests() == old(self).requests().push(
                DriverRequest::RgbLed { index, r, g, b },
            ),
    ;

    /// Shows a `0xRRGGBB` colour on LED `index`; unless a device does better,
    /// as its top six bits per channel.
    fn set_led(&mut self, index: u8, color: u32)
        default_ensures
            final(self).requests() == old(self).requests().push(
                DriverRequest::RgbLed {
                    index,
                    r: channels_of(color).0,
                    g: channels_of(color).1,
                    b: channels_of(color).2,
                },
            ),
    {
        let (r, g, b) = led_channels(color);
        self.set_rgb_led(index, r, g, b);
    }

    fn fill(&mut self, color: u32)
        ensures
            final(self).requests() == old(self).requests().push(DriverRequest::Fill { color }),
    ;

    fn brightness(&mut self) -> (r: u8)
        ensures
            r == old(self).brightness_level(),
            final(self).requests() == old(self).requests(),
    ;

    fn set_brightness(&mut self, brightness: u8)
        ensures
            final(self).requests() == old(self).requests().push(
                DriverRequest::SetBrightness { brightness },
            ),
    ;

    fn send_midi(&mut self, port: MidiPort, data: &[u8])
        ensures
            final(self).requests() == old(self).requests().push(
                DriverRequest::SendMidi { port, data: data@ },
            ),
    ;

    fn flash_size(&mut self) -> (r: u32)
        ensures
            r == old(self).flash_capacity(),
            final(self).requests() == old(self).requests(),
    ;

    fn read_flash(&mut self, offset: u32, data: &mut Vec<u8>)
        ensures
            final(data)@ == old(self).flash_bytes(offset, old(data)@.len()),
            final(self).requests() == old(self).requests(),
    ;

    fn write_flash(&mut self, offset: u32, data: &[u8])
        ensures
            final(self).requests() == old(self).requests().push(
                DriverRequest::WriteFlash { offset, data: data@ },
            ),
    ;

    fn device_id(&self) -> (r: u8)
        ensures
            r == self.id(),
    ;

    /// Whether the fast LED refresh is on; off unless a device says so.
    fn highspeed_leds_enabled(&self) -> (r: bool)
        default_ensures
            !r,
    {
        false
    }
}

/// Holds the driver once the runtime has installed it.
pub struct DriverSlot<D> {
    pub driver: Option<D>,
}

impl<D: Driver> DriverSlot<D> {
    /// A slot without a driver.
    pub fn new() -> (r: DriverSlot<D>)
        ensures
            r.driver is None,
    {
        DriverSlot { driver: None }
    }
}

/// Installs `driver`; it replaces any driver installed before.
pub fn install<D: Driver>(slot: &mut DriverSlot<D>, driver: D)
    ensures
        final(slot).driver == Some(driver),
{
    slot.driver = Some(driver);
}

/// Runs `f` on the installed driver and gives `Some` of its result; `None`
/// when there is none. `f` receives the driver and hands it back with its
/// result; the driver it hands back stays installed.
pub fn with<D: Driver, R, F: FnOnce(D) -> (D, R)>(slot: &mut DriverSlot<D>, f: F) -> (r: Option<R>)
    requires
        old(slot).driver matches Some(d) ==> f.requires((d,)),
    ensures
        old(slot).driver is None ==> r is None && final(slot).driver is None,
        old(slot).driver matches Some(d) ==> (r matches Some(x) && (final(slot).driver matches Some(e)
            && call_ensures(f, (d,), (e, x)))),
{
    match slot.driver.take() {
        Some(driver) => {
            let (driver, x) = f(driver);
            slot.driver = Some(driver);
            Some(x)
        },
        None => None,
    }
}

/// Sets LED `index` to 6-bit channels, when a driver is installed.
pub fn set_rgb_led<D: Driver>(slot: &mut DriverSlot<D>, index: u8, r: u8, g: u8, b: u8)
    ensures
        old(slot).driver is None ==> final(slot).driver is None,
        old(slot).driver matches Some(d) ==> (final(slot).driver matches Some(e) && e.requests()
            == d.requests().push(DriverRequest::RgbLed { index, r, g, b })),
{
    if let Some(driver) = &mut slot.driver {
        driver.set_rgb_led(index, r, g, b);
    }
}

/// Sets LED `index` to 6-bit channels, when a driver is installed.
pub fn set_led_raw<D: Driver>(slot: &mut DriverSlot<D>, index: u8, r: u8, g: u8, b: u8)
    ensures
        old(slot).driver is None ==> final(slot).driver is None,
        old(slot).driver matches Some(d) ==> (final(slot).driver matches Some(e) && e.requests()
            == d.requests().push(DriverRequest::RgbLed { index, r, g, b })),
{
    set_rgb_led(slot, index, r, g, b);
}

/// Sets LED `index` to the 6-bit channels of a `0xRRGGBB` colour, when a
/// driver is installed.
pub fn set_led<D: Driver>(slot: &mut DriverSlot<D>, index: u8, color: u32)
    ensures
        old(slot).driver is None ==> final(slot).driver is None,
        old(slot).driver matches Some(d) ==> (final(slot).driver matches Some(e) && e.requests()
            == d.requests().push(
            DriverRequest::RgbLed {
                index,
                r: channels_of(color).0,
                g: channels_of(color).1,
                b: channels_of(color).2,
            },
        )),
{
    if let Some(driver) = &mut slot.driver {
        let (r, g, b) = led_channels(color);
        driver.set_rgb_led(index, r, g, b);
    }
}

/// Fills every LED with a colour, when a driver is installed.
pub fn fill<D: Driver>(slot: &mut DriverSlot<D>, color: u32)
    ensures
        old(slot).driver is None ==> final(slot).driver is None,
        old(slot).driver matches Some(d) ==> (final(slot).driver matches Some(e) && e.requests()
            == d.requests().push(DriverRequest::Fill { color })),
{
    if let Some(driver) = &mut slot.driver {
        driver.fill(color);
    }
}

/// The LED brightness; 7 (the brightest) when no driver is installed.
pub fn brightness<D: Driver>(slot: &mut DriverSlot<D>) -> (r: u8)
    ensures
        old(slot).driver is None ==> r == 7 && final(slot).driver is None,
        old(slot).driver matches Some(d) ==> (r == d.brightness_level() && (final(slot).driver matches Some(e)
            && e.requests() == d.requests())),
{
    match &mut slot.driver {
        Some(driver) => driver.brightness(),
        None => 7,
    }
}

/// Sets the LED brightness, when a driver is installed.
pub fn set_brightness<D: Driver>(slot: &mut DriverSlot<D>, brightness: u8)
    ensures
        old(slot).driver is None ==> final(slot).driver is None,
        old(slot).driver matches Some(d) ==> (final(slot).driver matches Some(e) && e.requests()
            == d.requests().push(DriverRequest::SetBrightness { brightness })),
{
    if let Some(driver) = &mut slot.driver {
        driver.set_brightness(brightness);
    }
}

/// Sends a MIDI message on `port`, when a driver is installed.
pub fn send_midi<D: Driver>(slot: &mut DriverSlot<D>, port: MidiPort, data: &[u8])
    ensures
        old(slot).driver is None ==> final(slot).driver is None,
        old(slot).driver matches Some(d) ==> (final(slot).driver matches Some(e) && e.requests()
            == d.requests().push(DriverRequest::SendMidi { port, data: data@ })),
{
    if let Some(driver) = &mut slot.driver {
        driver.send_midi(port, data);
    }
}

/// Size of the settings flash; 0 when no driver is installed.
pub fn flash_size<D: Driver>(slot: &mut DriverSlot<D>) -> (r: u32)
    ensures
        old(slot).driver is None ==> r == 0 && final(slot).driver is None,
        old(slot).driver matches Some(d) ==> (r == d.flash_capacity() && (final(slot).driver matches Some(e)
            && e.requests() == d.requests())),
{
    match &mut slot.driver {
        Some(driver) => driver.flash_size(),
        None => 0,
    }
}

/// Reads flash at `offset` into `data`, when a driver is installed.
pub fn read_flash<D: Driver>(slot: &mut DriverSlot<D>, offset: u32, data: &mut Vec<u8>)
    ensures
        old(slot).driver is None ==> final(data)@ == old(data)@ && final(slot).driver is None,
        old(slot).driver matches Some(d) ==> (final(data)@ == d.flash_bytes(offset, old(data)@.len())
            && (final(slot).driver matches Some(e) && e.requests() == d.requests())),
{
    if let Some(driver) = &mut slot.driver {
        driver.read_flash(offset, data);
    }
}

/// Writes `data` to flash at `offset`, when a driver is installed.
pub fn write_flash<D: Driver>(slot: &mut DriverSlot<D>, offset: u32, data: &[u8])
    ensures
        old(slot).driver is None ==> final(slot).driver is None,
        old(slot).driver matches Some(d) ==> (final(slot).driver matches Some(e) && e.requests()
            == d.requests().push(DriverRequest::WriteFlash { offset, data: data@ })),
{
    if let Some(driver) = &mut slot.driver {
        driver.write_flash(offset, data);
    }
}

/// The device id; 0 when no driver is installed.
pub fn device_id<D: Driver>(slot: &DriverSlot<D>) -> (r: u8)
    ensures
        slot.driver is None ==> r == 0,
        slot.driver matches Some(d) ==> r == d.id(),
{
    match &slot.driver {
        Some(driver) => driver.device_id(),
        None => 0,
    }
}

/// Whether the fast LED refresh is on; `false` when no driver is installed.
pub fn highspeed_leds_enabled<D: Driver>(slot: &DriverSlot<D>) -> (r: bool)
    ensures
        slot.driver is None ==> !r,
        slot.driver matches Some(d) ==> call_ensures(D::highspeed_leds_enabled, (&d,), r),
{
    match &slot.driver {
        Some(driver) => driver.highspeed_leds_enabled(),
        None => false,
    }
}

} // verus!
