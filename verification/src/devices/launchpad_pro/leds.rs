//! The Launchpad Pro's LEDs: 100 RGB LEDs whose 6-bit colour values, scaled
//! by the brightness, are kept as the status bits shifted to the LED drivers,
//! four groups of 80 bits for each of six bit-planes.

use vstd::prelude::*;
use crate::devices::launchpad_mini_mk1::surface::{apply_led_brightness, scaled, six_bits};

verus! {

/// LEDs addressed by the surface.
pub const LP_LED_COUNT: usize = 100;

/// Status bits of the LED drivers.
pub const LED_STATUS_BYTES: usize = 320;

/// Driver groups.
pub const GROUP_COUNT: usize = 4;

/// Bit-planes of brightness.
pub const BRIGHT_BIT_COUNT: usize = 6;

/// Status bits per group.
pub const GROUP_STRIDE: usize = 0x50;

/// Bytes shifted out per group and plane.
pub const SHIFT_BYTES_PER_GROUP: usize = 10;

/// Bytes of the whole payload: one shift per group and plane.
pub const PAYLOAD_BYTES: usize = 240;

/// The status bit of each LED's green element.
pub const GREEN_MAP: [u16; 100] = [
    0, 23, 103, 183, 263, 20, 100, 180, 260, 0, 250, 29, 109, 189, 269, 26, 106, 186, 266, 242,
    170, 35, 115, 195, 275, 32, 112, 192, 272, 162, 90, 42, 122, 202, 282, 36, 116, 196, 276, 82,
    10, 47, 127, 207, 287, 44, 124, 204, 284, 2, 253, 55, 135, 215, 295, 51, 131, 211, 291, 245,
    173, 56, 136, 216, 296, 57, 137, 217, 297, 165, 93, 66, 146, 226, 306, 60, 140, 220, 300, 85,
    13, 71, 151, 231, 311, 68, 148, 228, 308, 5, 0, 77, 157, 237, 317, 74, 154, 234, 314, 17,
];

/// The status bit of each LED's red element.
pub const RED_MAP: [u16; 100] = [
    0, 24, 104, 184, 264, 21, 101, 181, 261, 0, 251, 30, 110, 190, 270, 27, 107, 187, 267, 243,
    171, 38, 118, 198, 278, 33, 113, 193, 273, 163, 91, 41, 121, 201, 281, 37, 117, 197, 277, 83,
    11, 48, 128, 208, 288, 45, 125, 205, 285, 3, 254, 54, 134, 214, 294, 50, 130, 210, 290, 246,
    174, 62, 142, 222, 302, 58, 138, 218, 298, 166, 94, 65, 145, 225, 305, 61, 141, 221, 301, 86,
    14, 72, 152, 232, 312, 69, 149, 229, 309, 6, 0, 78, 158, 238, 318, 75, 155, 235, 315, 18,
];

/// The status bit of each LED's blue element.
pub const BLUE_MAP: [u16; 100] = [
    0, 25, 105, 185, 265, 22, 102, 182, 262, 0, 252, 31, 111, 191, 271, 28, 108, 188, 268, 244,
    172, 39, 119, 199, 279, 34, 114, 194, 274, 164, 92, 40, 120, 200, 280, 43, 123, 203, 283, 84,
    12, 49, 129, 209, 289, 46, 126, 206, 286, 4, 255, 53, 133, 213, 293, 52, 132, 212, 292, 247,
    175, 63, 143, 223, 303, 59, 139, 219, 299, 167, 95, 64, 144, 224, 304, 67, 147, 227, 307, 87,
    15, 73, 153, 233, 313, 70, 150, 230, 310, 7, 0, 79, 159, 239, 319, 76, 156, 236, 316, 19,
];

/// Start of the red values in the raw colours.
pub const RAW_RED_OFFSET: usize = 0;

/// Start of the green values in the raw colours.
pub const RAW_GREEN_OFFSET: usize = 100;

/// Start of the blue values in the raw colours.
pub const RAW_BLUE_OFFSET: usize = 200;

/// Size of the raw colours.
pub const RAW_RGB_SIZE: usize = 300;

/// The payload after writing `value` to status bit `bit`: in each plane the
/// bit is cleared (lit) where `value` has the plane's bit, and set otherwise.
/// Status bits past the drivers are ignored.
pub open spec fn status_write(p: Seq<u8>, bit: int, value: u8) -> Seq<u8> {
    if bit < 0 || bit >= LED_STATUS_BYTES {
        p
    } else {
        let group = bit / 80;
        let off = bit - group * 80;
        let byte = off / 8;
        let mask = 1u8 << ((off % 8) as u8);
        Seq::new(
            p.len(),
            |k: int|
                if k / 60 == group && k % 10 == byte {
                    if value & (1u8 << (((k / 10) % 6) as u8)) != 0 {
                        p[k] & !mask
                    } else {
                        p[k] | mask
                    }
                } else {
                    p[k]
                },
        )
    }
}

/// The payload after writing LED `led`'s three scaled colour values.
pub open spec fn led_written(p: Seq<u8>, raw: Seq<u8>, brightness: u8, led: int) -> Seq<u8> {
    let p1 = status_write(p, RED_MAP@[led] as int, scaled(raw[RAW_RED_OFFSET + led], brightness));
    let p2 = status_write(
        p1,
        GREEN_MAP@[led] as int,
        scaled(raw[RAW_GREEN_OFFSET + led], brightness),
    );
    status_write(p2, BLUE_MAP@[led] as int, scaled(raw[RAW_BLUE_OFFSET + led], brightness))
}

/// Every status bit off.
pub open spec fn blank_payload() -> Seq<u8> {
    Seq::new(PAYLOAD_BYTES as nat, |k: int| 0xffu8)
}

/// The payload rebuilt from blank for LEDs below `n`, in order.
pub open spec fn rebuilt_upto(raw: Seq<u8>, brightness: u8, n: nat) -> Seq<u8>
    decreases n,
{
    if n == 0 {
        blank_payload()
    } else {
        led_written(rebuilt_upto(raw, brightness, (n - 1) as nat), raw, brightness, n - 1)
    }
}

/// The raw colours with LED `led` set (6 bits per component).
pub open spec fn raw_set(raw: Seq<u8>, led: int, r: u8, g: u8, b: u8) -> Seq<u8> {
    raw.update(RAW_RED_OFFSET + led, six_bits(r)).update(RAW_GREEN_OFFSET + led, six_bits(g)).update(
        RAW_BLUE_OFFSET + led,
        six_bits(b),
    )
}

/// The 6-bit components of a 24-bit `0xRRGGBB` colour: the top six bits of
/// each byte.
pub open spec fn components(rgb: u32) -> (u8, u8, u8) {
    (
        (((rgb & 0x00ff_ffff) >> 18u32) & 0x3f) as u8,
        (((rgb & 0x00ff_ffff) >> 10u32) & 0x3f) as u8,
        (((rgb & 0x00ff_ffff) >> 2u32) & 0x3f) as u8,
    )
}

/// Raw colours and payload after setting the LEDs below `n` to `rgb`, in
/// order.
pub open spec fn filled_upto(raw: Seq<u8>, p: Seq<u8>, brightness: u8, rgb: u32, n: nat) -> (
    Seq<u8>,
    Seq<u8>,
)
    decreases n,
{
    if n == 0 {
        (raw, p)
    } else {
        let (raw1, p1) = filled_upto(raw, p, brightness, rgb, (n - 1) as nat);
        let (r, g, b) = components(rgb);
        let raw2 = raw_set(raw1, n - 1, r, g, b);
        (raw2, led_written(p1, raw2, brightness, n - 1))
    }
}

/// The payload byte of plane `bb`, group `g` and byte `byte` is the only one
/// with that group, byte and plane.
proof fn lemma_payload_slot(k: int, g: int, bb: int, byte: int)
    requires
        0 <= k < 240,
        k / 60 == g,
        k % 10 == byte,
        (k / 10) % 6 == bb,
    ensures
        k == (g * 6 + bb) * 10 + byte,
{
    vstd::arithmetic::div_mod::lemma_fundamental_div_mod(k, 10);
    vstd::arithmetic::div_mod::lemma_fundamental_div_mod(k / 10, 6);
    vstd::arithmetic::div_mod::lemma_div_denominator(k, 10, 6);
}

/// The LED state: the payload shifted out, the colours as set, and the
/// brightness level.
pub struct Leds {
    pub payload: [u8; 240],
    pub raw_rgb: [u8; 300],
    pub brightness: u8,
}

impl Leds {
    /// Every LED off, brightness 7.
    pub fn new() -> (r: Leds)
        ensures
            r.payload@ == blank_payload(),
            r.raw_rgb@ == Seq::new(300, |i: int| 0u8),
            r.brightness == 7,
    {
        let r = Leds { payload: [0xff; 240], raw_rgb: [0; 300], brightness: 7 };
        assert(r.payload@ =~= blank_payload());
        assert(r.raw_rgb@ =~= Seq::new(300, |i: int| 0u8));
        r
    }

    /// Writes `value` to status bit `bit_index` in every plane.
    fn write_status(&mut self, bit_index: u16, value: u8)
        ensures
            final(self).payload@ == status_write(old(self).payload@, bit_index as int, value),
            final(self).raw_rgb == old(self).raw_rgb,
            final(self).brightness == old(self).brightness,
    {
        let offset = bit_index as usize;
        if offset >= LED_STATUS_BYTES {
            return;
        }
        let group = offset / GROUP_STRIDE;
        let group_offset = offset - group * GROUP_STRIDE;
        let byte_index = group_offset / 8;
        let bit_mask: u8 = 1u8 << ((group_offset % 8) as u8);
        let ghost old_p = self.payload@;
        let ghost want = status_write(old_p, bit_index as int, value);
        let mut bright_bit: usize = 0;
        while bright_bit < BRIGHT_BIT_COUNT
            invariant
                bright_bit <= BRIGHT_BIT_COUNT,
                offset == bit_index,
                offset < 320,
                group == offset / 80,
                group < 4,
                group_offset == offset - group * 80,
                byte_index == group_offset / 8,
                byte_index < 10,
                bit_mask == 1u8 << ((group_offset % 8) as u8),
                want == status_write(old_p, bit_index as int, value),
                self.payload@.len() == 240,
                old_p.len() == 240,
                forall|k: int|
                    0 <= k < 240 ==> #[trigger] self.payload@[k] == (if k / 60 == group && k % 10
                        == byte_index && (k / 10) % 6 < bright_bit {
                        want[k]
                    } else {
                        old_p[k]
                    }),
                self.raw_rgb == old(self).raw_rgb,
                self.brightness == old(self).brightness,
            decreases BRIGHT_BIT_COUNT - bright_bit,
        {
            let k = (group * BRIGHT_BIT_COUNT + bright_bit) * SHIFT_BYTES_PER_GROUP + byte_index;
            assert(k / 60 == group && k % 10 == byte_index && (k / 10) % 6 == bright_bit);
            let cur = self.payload[k];
            let next = if value & (1u8 << (bright_bit as u8)) != 0 {
                cur & !bit_mask
            } else {
                cur | bit_mask
            };
            self.payload[k] = next;
            proof {
                assert(want[k as int] == (if value & (1u8 << (bright_bit as u8)) != 0 {
                    old_p[k as int] & !bit_mask
                } else {
                    old_p[k as int] | bit_mask
                }));
                assert forall|j: int|
                    0 <= j < 240 implies #[trigger] self.payload@[j] == (if j / 60 == group && j
                        % 10 == byte_index && (j / 10) % 6 < bright_bit + 1 {
                        want[j]
                    } else {
                        old_p[j]
                    }) by {
                    if j != k && j / 60 == group && j % 10 == byte_index && (j / 10) % 6
                        == bright_bit {
                        lemma_payload_slot(j, group as int, bright_bit as int, byte_index as int);
                    }
                }
            }
            bright_bit = bright_bit + 1;
        }
        assert(self.payload@ =~= want);
    }

    /// Writes LED `led`'s scaled colour values to its status bits.
    fn write_scaled_led(&mut self, led: usize)
        requires
            led < LP_LED_COUNT,
        ensures
            final(self).payload@ == led_written(
                old(self).payload@,
                old(self).raw_rgb@,
                old(self).brightness,
                led as int,
            ),
            final(self).raw_rgb == old(self).raw_rgb,
            final(self).brightness == old(self).brightness,
    {
        let r = apply_led_brightness(self.raw_rgb[RAW_RED_OFFSET + led], self.brightness);
        let g = apply_led_brightness(self.raw_rgb[RAW_GREEN_OFFSET + led], self.brightness);
        let b = apply_led_brightness(self.raw_rgb[RAW_BLUE_OFFSET + led], self.brightness);
        self.write_status(RED_MAP[led], r);
        self.write_status(GREEN_MAP[led], g);
        self.write_status(BLUE_MAP[led], b);
    }

    /// Sets LED `led` to a 6-bit-per-component colour; other indices are
    /// ignored.
    pub fn set_led_rgb(&mut self, led: u8, r: u8, g: u8, b: u8)
        ensures
            led < LP_LED_COUNT ==> final(self).raw_rgb@ == raw_set(old(self).raw_rgb@, led as int, r, g, b)
                && final(self).payload@ == led_written(
                old(self).payload@,
                final(self).raw_rgb@,
                old(self).brightness,
                led as int,
            ),
            led >= LP_LED_COUNT ==> *final(self) == *old(self),
            final(self).brightness == old(self).brightness,
    {
        if led as usize >= LP_LED_COUNT {
            return;
        }
        let led = led as usize;
        self.raw_rgb[RAW_RED_OFFSET + led] = if r > 0x3f {
            0x3f
        } else {
            r
        };
        self.raw_rgb[RAW_GREEN_OFFSET + led] = if g > 0x3f {
            0x3f
        } else {
            g
        };
        self.raw_rgb[RAW_BLUE_OFFSET + led] = if b > 0x3f {
            0x3f
        } else {
            b
        };
        assert(self.raw_rgb@ =~= raw_set(old(self).raw_rgb@, led as int, r, g, b));
        self.write_scaled_led(led);
    }

    /// Sets LED `led` to a 24-bit `0xRRGGBB` colour, keeping the top six bits
    /// of each component; other indices are ignored.
    pub fn set_led(&mut self, led: u8, rgb: u32)
        ensures
            ({
                let (r, g, b) = components(rgb);
                &&& led < LP_LED_COUNT ==> final(self).raw_rgb@ == raw_set(
                    old(self).raw_rgb@,
                    led as int,
                    r,
                    g,
                    b,
                ) && final(self).payload@ == led_written(
                    old(self).payload@,
                    final(self).raw_rgb@,
                    old(self).brightness,
                    led as int,
                )
                &&& led >= LP_LED_COUNT ==> *final(self) == *old(self)
            }),
            final(self).brightness == old(self).brightness,
    {
        if led as usize >= LP_LED_COUNT {
            return;
        }
        let rgb = rgb & 0x00ff_ffff;
        let r = ((rgb >> 18) & 0x3f) as u8;
        let g = ((rgb >> 10) & 0x3f) as u8;
        let b = ((rgb >> 2) & 0x3f) as u8;
        self.set_led_rgb(led, r, g, b);
    }

    /// Sets every LED to a 24-bit colour.
    pub fn fill(&mut self, rgb: u32)
        ensures
            (final(self).raw_rgb@, final(self).payload@) == filled_upto(
                old(self).raw_rgb@,
                old(self).payload@,
                old(self).brightness,
                rgb,
                LP_LED_COUNT as nat,
            ),
            final(self).brightness == old(self).brightness,
    {
        let mut i: usize = 0;
        while i < LP_LED_COUNT
            invariant
                i <= LP_LED_COUNT,
                self.brightness == old(self).brightness,
                (self.raw_rgb@, self.payload@) == filled_upto(
                    old(self).raw_rgb@,
                    old(self).payload@,
                    old(self).brightness,
                    rgb,
                    i as nat,
                ),
            decreases LP_LED_COUNT - i,
        {
            self.set_led(i as u8, rgb);
            i = i + 1;
        }
    }

    /// Turns every LED off.
    pub fn clear(&mut self)
        ensures
            (final(self).raw_rgb@, final(self).payload@) == filled_upto(
                old(self).raw_rgb@,
                old(self).payload@,
                old(self).brightness,
                0,
                LP_LED_COUNT as nat,
            ),
            final(self).brightness == old(self).brightness,
    {
        self.fill(0);
    }

    /// The bytes to shift out for a group and bit-plane; all off outside the
    /// groups and planes.
    pub fn build_group_payload(&self, group: usize, bright_bit: usize, out: &mut [u8; 10])
        ensures
            group < GROUP_COUNT && bright_bit < BRIGHT_BIT_COUNT ==> final(out)@ == self.payload@.subrange(
                ((group * 6 + bright_bit) * 10) as int,
                ((group * 6 + bright_bit) * 10 + 10) as int,
            ),
            !(group < GROUP_COUNT && bright_bit < BRIGHT_BIT_COUNT) ==> final(out)@ == Seq::new(
                10,
                |i: int| 0xffu8,
            ),
    {
        if group >= GROUP_COUNT || bright_bit >= BRIGHT_BIT_COUNT {
            let mut i: usize = 0;
            while i < 10
                invariant
                    i <= 10,
                    forall|k: int| 0 <= k < i ==> out@[k] == 0xff,
                decreases 10 - i,
            {
                out[i] = 0xff;
                i = i + 1;
            }
            assert(out@ =~= Seq::new(10, |i: int| 0xffu8));
            return;
        }
        let base = (group * BRIGHT_BIT_COUNT + bright_bit) * SHIFT_BYTES_PER_GROUP;
        let mut i: usize = 0;
        while i < 10
            invariant
                i <= 10,
                base == (group * 6 + bright_bit) * 10,
                group < 4,
                bright_bit < 6,
                forall|k: int| 0 <= k < i ==> out@[k] == self.payload@[base + k],
            decreases 10 - i,
        {
            out[i] = self.payload[base + i];
            i = i + 1;
        }
        assert(out@ =~= self.payload@.subrange(base as int, base + 10));
    }

    /// The brightness level.
    pub fn brightness(&self) -> (r: u8)
        ensures
            r == self.brightness,
    {
        self.brightness
    }

    /// Sets the brightness (at most 7) and rebuilds the payload at it.
    pub fn set_brightness(&mut self, brightness: u8)
        ensures
            final(self).brightness == (if brightness > 7 {
                7
            } else {
                brightness
            }),
            final(self).raw_rgb == old(self).raw_rgb,
            final(self).payload@ == rebuilt_upto(
                old(self).raw_rgb@,
                final(self).brightness,
                LP_LED_COUNT as nat,
            ),
    {
        self.brightness = if brightness > 7 {
            7
        } else {
            brightness
        };
        self.rebuild_scaled_payload();
    }

    /// Rebuilds the payload from the colours at the current brightness.
    fn rebuild_scaled_payload(&mut self)
        ensures
            final(self).brightness == old(self).brightness,
            final(self).raw_rgb == old(self).raw_rgb,
            final(self).payload@ == rebuilt_upto(
                old(self).raw_rgb@,
                old(self).brightness,
                LP_LED_COUNT as nat,
            ),
    {
        self.payload = [0xff; 240];
        assert(self.payload@ =~= blank_payload());
        let mut led: usize = 0;
        while led < LP_LED_COUNT
            invariant
                led <= LP_LED_COUNT,
                self.brightness == old(self).brightness,
                self.raw_rgb == old(self).raw_rgb,
                self.payload@ == rebuilt_upto(old(self).raw_rgb@, old(self).brightness, led as nat),
            decreases LP_LED_COUNT - led,
        {
            self.write_scaled_led(led);
            led = led + 1;
        }
    }
}

} // verus!
