//! The diagnostic display of the Mystrix Pro: pad pressure as a green and
//! red level, and the surface events lit as they come.

use vstd::prelude::*;
use super::grid::{pad_logical_index, HardwareEvent, HIGH_THRESHOLD};
use super::leds::{expand6, expand6_spec, rgb_of, LedFrame};

verus! {

/// The 6-bit intensity of a pressure level: full at the high threshold.
pub open spec fn intensity_of(level: u16) -> u8 {
    let v = level * 63 / (HIGH_THRESHOLD as int);
    if v > 63 {
        63
    } else {
        v as u8
    }
}

/// The pixel of a pressure level: green at the intensity, red at a quarter.
pub open spec fn pressure_pixel(level: u16) -> [u8; 3] {
    let i = intensity_of(level);
    [expand6_spec((i / 4) as u8), expand6_spec(i), expand6_spec(0)]
}

/// The frame showing `levels` (row 0 at the top, eight sensors per row) on
/// the pads; every other LED keeps its colour.
pub open spec fn pressure_frame(fb: Seq<[u8; 3]>, levels: Seq<u16>) -> Seq<[u8; 3]> {
    Seq::new(
        100,
        |j: int|
            if 11 <= j <= 88 && 1 <= j % 10 <= 8 {
                pressure_pixel(levels[(8 - j / 10) * 8 + (j % 10 - 1)])
            } else {
                fb[j]
            },
    )
}

/// The 6-bit intensity of a pressure level.
pub fn pressure_intensity(level: u16) -> (r: u8)
    ensures
        r == intensity_of(level),
{
    let v: u32 = (level as u32 * 63) / HIGH_THRESHOLD as u32;
    if v > 63 {
        63
    } else {
        v as u8
    }
}

/// Shows the pressure of each pad.
pub fn render_pressure_diagnostic(leds: &mut LedFrame, levels: &[u16; 64])
    ensures
        final(leds).brightness == old(leds).brightness,
        final(leds).framebuffer@ == pressure_frame(old(leds).framebuffer@, levels@),
{
    let mut x: usize = 0;
    while x < 8
        invariant
            x <= 8,
            leds.brightness == old(leds).brightness,
            forall|j: int|
                0 <= j < 100 ==> #[trigger] leds.framebuffer@[j] == (if 11 <= j <= 88 && 1 <= j % 10
                    <= x {
                    pressure_frame(old(leds).framebuffer@, levels@)[j]
                } else {
                    old(leds).framebuffer@[j]
                }),
        decreases 8 - x,
    {
        let mut y: usize = 0;
        while y < 8
            invariant
                x < 8,
                y <= 8,
                leds.brightness == old(leds).brightness,
                forall|j: int|
                    0 <= j < 100 ==> #[trigger] leds.framebuffer@[j] == (if 11 <= j <= 88 && (1 <= j
                        % 10 <= x || (j % 10 == x + 1 && 8 - j / 10 < y)) {
                        pressure_frame(old(leds).framebuffer@, levels@)[j]
                    } else {
                        old(leds).framebuffer@[j]
                    }),
            decreases 8 - y,
        {
            let sensor = y * 8 + x;
            let intensity = pressure_intensity(levels[sensor]);
            if let Some(index) = pad_logical_index(x, y) {
                leds.set_rgb6(index, intensity / 4, intensity, 0);
                proof {
                    let k = index as int;
                    assert(k / 10 == 8 - y && k % 10 == x + 1);
                    assert(pressure_frame(old(leds).framebuffer@, levels@)[k] == pressure_pixel(
                        levels@[sensor as int],
                    ));
                }
            }
            y = y + 1;
        }
        x = x + 1;
    }
    assert(leds.framebuffer@ =~= pressure_frame(old(leds).framebuffer@, levels@));
}

/// The frame with LED `index` (if it exists) set to a `0xRRGGBB` colour.
pub open spec fn set8(fb: Seq<[u8; 3]>, index: u8, color: u32) -> Seq<[u8; 3]> {
    if index < 100 {
        fb.update(index as int, rgb_of(color))
    } else {
        fb
    }
}

/// The frame after showing a surface event: the function button fills
/// every LED grey while held; a pad or button shows its velocity or
/// pressure in green, and goes dark on release.
pub open spec fn diagnostic_frame(fb: Seq<[u8; 3]>, event: HardwareEvent) -> Seq<[u8; 3]> {
    match event {
        HardwareEvent::Surface { pressed, index, value } => if index == 0 {
            Seq::new(
                100,
                |i: int|
                    rgb_of(
                        if pressed {
                            0x202020
                        } else {
                            0
                        },
                    ),
            )
        } else {
            set8(
                fb,
                index,
                if pressed {
                    (value as u32 * 256) as u32
                } else {
                    0
                },
            )
        },
        HardwareEvent::Aftertouch { index, value } => set8(fb, index, (value as u32 * 256) as u32),
    }
}

/// Lights what a surface event reports.
pub fn render_diagnostic(leds: &mut LedFrame, event: HardwareEvent)
    ensures
        final(leds).brightness == old(leds).brightness,
        final(leds).framebuffer@ == diagnostic_frame(old(leds).framebuffer@, event),
{
    match event {
        HardwareEvent::Surface { pressed, index, value } => {
            if index == 0 {
                leds.fill(
                    if pressed {
                        0x202020
                    } else {
                        0
                    },
                );
                assert(leds.framebuffer@ =~= diagnostic_frame(old(leds).framebuffer@, event));
            } else {
                let color: u32 = if pressed {
                    (value as u32) << 8
                } else {
                    0
                };
                assert(pressed ==> color == (value as u32) * 256) by (bit_vector)
                    requires
                        pressed ==> color == (value as u32) << 8,
                ;
                leds.set_rgb8(index, color);
            }
        },
        HardwareEvent::Aftertouch { index, value } => {
            let color: u32 = (value as u32) << 8;
            assert(color == (value as u32) * 256) by (bit_vector)
                requires
                    color == (value as u32) << 8,
            ;
            leds.set_rgb8(index, color);
        },
    }
}

} // verus!
