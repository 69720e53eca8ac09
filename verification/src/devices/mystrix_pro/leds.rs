//! The Mystrix Pro's LED frame: 100 logical LEDs of 8-bit RGB, a global
//! brightness level, and the bytes the LED chain is sent.

use vstd::prelude::*;
use super::grid::PHYSICAL_TO_LOGICAL;

verus! {

/// Scale applied to each colour byte at brightness levels 0 to 7.
pub const BRIGHTNESS: [u8; 8] = [22, 37, 54, 74, 95, 118, 142, 169];

/// A 6-bit channel value stretched to 8 bits: the value shifted up by two,
/// its top two bits repeated below.
pub open spec fn expand6_spec(value: u8) -> u8 {
    (((value & 0x3f) << 2u8) | ((value & 0x3f) >> 4u8)) as u8
}

/// The red, green and blue bytes of a `0xRRGGBB` colour.
pub open spec fn rgb_of(color: u32) -> [u8; 3] {
    [((color >> 16u32) & 0xff) as u8, ((color >> 8u32) & 0xff) as u8, (color & 0xff) as u8]
}

/// A colour byte as sent to the chain: scaled by the brightness (`/256`),
/// four times as bright for the underglow, at most 255.
pub open spec fn scaled_byte(byte: u8, scale: u8, underglow: bool) -> u8 {
    let v = (byte * scale / 256) * (if underglow { 4int } else { 1int });
    (if v > 255 { 255 } else { v }) as u8
}

/// A 6-bit channel value stretched to 8 bits.
pub fn expand6(value: u8) -> (r: u8)
    ensures
        r == expand6_spec(value),
{
    let value = value & 0x3f;
    (value << 2) | (value >> 4)
}

/// The colours of the 100 logical LEDs and the brightness level.
pub struct LedFrame {
    pub framebuffer: [[u8; 3]; 100],
    pub brightness: u8,
}

impl LedFrame {
    /// All LEDs off, brightness 7.
    pub fn new() -> (r: LedFrame)
        ensures
            forall|i: int| 0 <= i < 100 ==> r.framebuffer@[i]@ == seq![0u8, 0, 0],
            r.brightness == 7,
    {
        let r = LedFrame { framebuffer: [[0u8; 3]; 100], brightness: 7 };
        assert forall|i: int| 0 <= i < 100 implies r.framebuffer@[i]@ == seq![0u8, 0, 0] by {
            assert(r.framebuffer@[i]@ =~= seq![0u8, 0, 0]);
        }
        r
    }

    /// The brightness level stays within the eight levels.
    pub open spec fn wf(self) -> bool {
        self.brightness <= 7
    }

    /// Sets LED `index` (if it exists) from 6-bit channels.
    pub fn set_rgb6(&mut self, index: u8, r: u8, g: u8, b: u8)
        ensures
            final(self).brightness == old(self).brightness,
            index < 100 ==> final(self).framebuffer@ == old(self).framebuffer@.update(
                index as int,
                [expand6_spec(r), expand6_spec(g), expand6_spec(b)],
            ),
            index >= 100 ==> final(self).framebuffer == old(self).framebuffer,
    {
        if (index as usize) < 100 {
            self.framebuffer[index as usize] = [expand6(r), expand6(g), expand6(b)];
        }
    }

    /// Sets LED `index` (if it exists) to a `0xRRGGBB` colour.
    pub fn set_rgb8(&mut self, index: u8, color: u32)
        ensures
            final(self).brightness == old(self).brightness,
            index < 100 ==> final(self).framebuffer@ == old(self).framebuffer@.update(
                index as int,
                rgb_of(color),
            ),
            index >= 100 ==> final(self).framebuffer == old(self).framebuffer,
    {
        if (index as usize) < 100 {
            self.framebuffer[index as usize] = [
                ((color >> 16) & 0xff) as u8,
                ((color >> 8) & 0xff) as u8,
                (color & 0xff) as u8,
            ];
        }
    }

    /// Sets every LED to a `0xRRGGBB` colour.
    pub fn fill(&mut self, color: u32)
        ensures
            final(self).brightness == old(self).brightness,
            forall|i: int| 0 <= i < 100 ==> final(self).framebuffer@[i] == rgb_of(color),
    {
        let rgb = [((color >> 16) & 0xff) as u8, ((color >> 8) & 0xff) as u8, (color & 0xff) as u8];
        let mut i: usize = 0;
        while i < 100
            invariant
                i <= 100,
                rgb == rgb_of(color),
                self.brightness == old(self).brightness,
                forall|j: int| 0 <= j < i ==> self.framebuffer@[j] == rgb,
            decreases 100 - i,
        {
            self.framebuffer[i] = rgb;
            i += 1;
        }
    }

    /// The brightness level.
    pub fn brightness(&self) -> (r: u8)
        ensures
            r == self.brightness,
    {
        self.brightness
    }

    /// Sets the brightness level, at most 7.
    pub fn set_brightness(&mut self, brightness: u8)
        ensures
            final(self).brightness == (if brightness < 7 {
                brightness
            } else {
                7
            }),
            final(self).framebuffer == old(self).framebuffer,
    {
        self.brightness = if brightness < 7 {
            brightness
        } else {
            7
        };
    }

    /// Byte `i` sent to the chain: byte `i % 3` (green, red, blue) of physical
    /// LED `i / 3`, taken from its logical LED and scaled by the brightness;
    /// the underglow (from the 65th LED on) is four times as bright.
    pub open spec fn chain_byte(self, i: int) -> u8 {
        let p = i / 3;
        let c = i % 3;
        let channel = if c == 0 {
            1int
        } else if c == 1 {
            0int
        } else {
            2int
        };
        scaled_byte(
            self.framebuffer@[PHYSICAL_TO_LOGICAL@[p] as int]@[channel],
            BRIGHTNESS@[self.brightness as int],
            p >= 64,
        )
    }

    /// The bytes sent to the chain, three per physical LED in chain order.
    pub fn show(&self) -> (r: Vec<u8>)
        requires
            self.wf(),
        ensures
            r@ == Seq::new(3 * 96, |i: int| self.chain_byte(i)),
    {
        let scale = BRIGHTNESS[self.brightness as usize];
        let mut out: Vec<u8> = Vec::new();
        let mut physical: usize = 0;
        while physical < 96
            invariant
                physical <= 96,
                self.wf(),
                scale == BRIGHTNESS@[self.brightness as int],
                out@ == Seq::new(3 * physical as nat, |i: int| self.chain_byte(i)),
            decreases 96 - physical,
        {
            let logical = PHYSICAL_TO_LOGICAL[physical];
            assert(logical < 100) by {
                assert(forall|k: int| 0 <= k < 96 ==> PHYSICAL_TO_LOGICAL@[k] < 100);
            }
            let pixel = self.framebuffer[logical as usize];
            let gain: u16 = if physical >= 64 {
                4
            } else {
                1
            };
            let bytes = [pixel[1], pixel[0], pixel[2]];
            let mut c: usize = 0;
            while c < 3
                invariant
                    c <= 3,
                    physical < 96,
                    self.wf(),
                    scale == BRIGHTNESS@[self.brightness as int],
                    logical == PHYSICAL_TO_LOGICAL@[physical as int],
                    pixel == self.framebuffer@[logical as int],
                    bytes@ == seq![pixel@[1], pixel@[0], pixel@[2]],
                    gain == (if physical >= 64 { 4u16 } else { 1u16 }),
                    out@ == Seq::new((3 * physical + c) as nat, |i: int| self.chain_byte(i)),
                decreases 3 - c,
            {
                let byte = bytes[c];
                assert(byte * scale <= 255 * 255) by (nonlinear_arith)
                    requires
                        byte <= 255,
                        scale <= 255,
                ;
                let prod: u16 = byte as u16 * scale as u16;
                let shifted: u16 = prod >> 8;
                assert(shifted == prod / 256) by (bit_vector)
                    requires
                        shifted == prod >> 8,
                ;
                let v: u16 = shifted * gain;
                let sent: u8 = if v > 255 {
                    255
                } else {
                    v as u8
                };
                out.push(sent);
                proof {
                    let i = 3 * physical + c;
                    assert(i / 3 == physical && i % 3 == c);
                    assert(sent == self.chain_byte(i as int));
                    assert(out@ =~= Seq::new((i + 1) as nat, |k: int| self.chain_byte(k)));
                }
                c += 1;
            }
            physical += 1;
        }
        out
    }
}

} // verus!
