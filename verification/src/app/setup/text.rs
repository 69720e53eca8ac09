//! A word drawn in the top four rows of the grid.

use vstd::prelude::*;
use crate::sys::led::LedCommand;

verus! {

/// Four rows of eight pixels; each column is drawn in the primary or the
/// secondary colour.
#[derive(Copy, Clone, Debug)]
pub struct Text {
    pub line_mask: [u8; 4],
    pub color_mask: u8,
    pub primary_color: u32,
    pub secondary_color: u32,
}

/// Bit `x` of `v` is set.
pub open spec fn bit8(v: u8, x: int) -> bool {
    (v >> (x as u8)) & 1 == 1
}

/// The LED requests of the pixels of the first `n` cells, row by row from
/// the top, each row from its left: row `y` is LED row `8 - y`, pixel `x`
/// (bit `x` of the row) is column `8 - x`.
pub open spec fn text_commands(t: Text, n: int) -> Seq<LedCommand>
    decreases n,
{
    if n <= 0 {
        Seq::empty()
    } else {
        let k = n - 1;
        let y = k / 8;
        let x = k % 8;
        let before = text_commands(t, k);
        if bit8(t.line_mask@[y], x) {
            before.push(
                LedCommand::Color {
                    index: (88 - y * 10 - x) as u8,
                    color: if bit8(t.color_mask, x) {
                        t.primary_color
                    } else {
                        t.secondary_color
                    },
                },
            )
        } else {
            before
        }
    }
}

impl Text {
    /// A text of the given rows and colours.
    pub fn new(line_mask: [u8; 4], color_mask: u8, primary_color: u32, secondary_color: u32) -> (r:
        Text)
        ensures
            r.line_mask == line_mask && r.color_mask == color_mask,
            r.primary_color == primary_color && r.secondary_color == secondary_color,
    {
        Text { line_mask, color_mask, primary_color, secondary_color }
    }

    /// Draws the set pixels.
    pub fn draw(&mut self, leds: &mut Vec<LedCommand>)
        ensures
            *final(self) == *old(self),
            final(leds)@ == old(leds)@ + text_commands(*old(self), 32),
    {
        let ghost start = leds@;
        let mut y: u8 = 0;
        assert(start + text_commands(*self, 0) =~= start);
        while y < 4
            invariant
                y <= 4,
                *self == *old(self),
                leds@ == start + text_commands(*self, 8 * y),
            decreases 4 - y,
        {
            let mut x: u8 = 0;
            while x < 8
                invariant
                    y < 4,
                    x <= 8,
                    *self == *old(self),
                    leds@ == start + text_commands(*self, 8 * y + x),
                decreases 8 - x,
            {
                let pos: u8 = 88 - (y * 10);
                let bit: u8 = 1u8 << x;
                let line = self.line_mask[y as usize];
                let active = line & bit != 0;
                let primary = self.color_mask & bit != 0;
                assert((line & (1u8 << x) != 0) == ((line >> x) & 1 == 1)) by (bit_vector)
                    requires
                        x < 8,
                ;
                let cm = self.color_mask;
                assert((cm & (1u8 << x) != 0) == ((cm >> x) & 1 == 1)) by (bit_vector)
                    requires
                        x < 8,
                ;
                let ghost k = 8 * y + x;
                assert(k / 8 == y && k % 8 == x);
                if active {
                    let color = if primary {
                        self.primary_color
                    } else {
                        self.secondary_color
                    };
                    leds.push(LedCommand::Color { index: pos - x, color });
                }
                proof {
                    assert(start + text_commands(*self, k + 1) =~= leds@);
                }
                x += 1;
            }
            y += 1;
        }
    }
}

} // verus!
