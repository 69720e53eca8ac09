//! The LED page of the setup application: a "LED" title and the eight
//! brightness levels on row 3.

use vstd::prelude::*;
use super::page::{Page, SetupContext};
use super::text::{text_commands, Text};
use crate::app::events::SurfaceEvent;
use crate::sys::led::LedCommand;

verus! {

/// LED of the lowest brightness level.
pub const BRIGHTNESS_START: u8 = 31;
/// LED of the highest brightness level.
pub const BRIGHTNESS_END: u8 = 38;

/// The LED of the mirror toggle.
pub const MIRROR_TOGGLE: u8 = 11;

/// The LED page; on devices that mirror their LEDs, with the mirror toggle.
pub struct LedsPage {
    pub text: Text,
    pub mirror_toggle: bool,
}

/// The mirror toggle: green when on, red when off.
pub open spec fn mirror_command(mirror_enabled: u8) -> LedCommand {
    LedCommand::Color {
        index: MIRROR_TOGGLE,
        color: if mirror_enabled != 0 {
            0x10ff10
        } else {
            0xff1010
        },
    }
}

/// The brightness selector: the eight levels dim, the current one (at most
/// 7) bright.
pub open spec fn selector_commands(brightness: u8) -> Seq<LedCommand> {
    let b = if brightness < 7 { brightness } else { 7u8 };
    Seq::new(8, |l: int| LedCommand::Color { index: (31 + l) as u8, color: 0x101010 }).push(
        LedCommand::Color { index: (31 + b) as u8, color: 0xccccff },
    )
}

impl LedsPage {
    /// The page with its title.
    pub fn new() -> (r: LedsPage)
        ensures
            r.text.line_mask@ == seq![0b10111110u8, 0b10110101, 0b10100101, 0b11111110],
            r.text.color_mask == 0b11000111,
            r.text.primary_color == 0x2020ff && r.text.secondary_color == 0xddddff,
            !r.mirror_toggle,
    {
        let r = LedsPage {
            text: Text::new([0b10111110, 0b10110101, 0b10100101, 0b11111110], 0b11000111, 0x2020ff, 0xddddff),
            mirror_toggle: false,
        };
        assert(r.text.line_mask@ =~= seq![0b10111110u8, 0b10110101, 0b10100101, 0b11111110]);
        r
    }

    /// The page with its title and the mirror toggle, for devices that
    /// mirror their LEDs.
    pub fn with_mirror_toggle() -> (r: LedsPage)
        ensures
            r.text.line_mask@ == seq![0b10111110u8, 0b10110101, 0b10100101, 0b11111110],
            r.text.color_mask == 0b11000111,
            r.text.primary_color == 0x2020ff && r.text.secondary_color == 0xddddff,
            r.mirror_toggle,
    {
        let mut r = Self::new();
        r.mirror_toggle = true;
        r
    }

    /// Draws the mirror toggle for the stored setting.
    fn draw_mirror_toggle(&self, ctx: &mut SetupContext)
        ensures
            final(ctx).leds@ == old(ctx).leds@.push(mirror_command(old(ctx).mirror_enabled)),
            final(ctx).brightness == old(ctx).brightness,
            final(ctx).stored_brightness == old(ctx).stored_brightness,
            final(ctx).mirror_enabled == old(ctx).mirror_enabled,
    {
        let color: u32 = if ctx.mirror_enabled != 0 {
            0x10ff10
        } else {
            0xff1010
        };
        ctx.leds.push(LedCommand::Color { index: MIRROR_TOGGLE, color });
    }

    /// Draws the brightness selector for the current brightness.
    fn draw_brightness_selector(&self, ctx: &mut SetupContext)
        ensures
            final(ctx).leds@ == old(ctx).leds@ + selector_commands(old(ctx).brightness),
            final(ctx).brightness == old(ctx).brightness,
            final(ctx).stored_brightness == old(ctx).stored_brightness,
            final(ctx).mirror_enabled == old(ctx).mirror_enabled,
    {
        let brightness = if ctx.brightness < 7 {
            ctx.brightness
        } else {
            7
        };
        let ghost start = ctx.leds@;
        let mut level: u8 = 0;
        while level < 8
            invariant
                level <= 8,
                ctx.brightness == old(ctx).brightness,
                ctx.stored_brightness == old(ctx).stored_brightness,
                ctx.mirror_enabled == old(ctx).mirror_enabled,
                ctx.leds@ == start + Seq::new(
                    level as nat,
                    |l: int| LedCommand::Color { index: (31 + l) as u8, color: 0x101010 },
                ),
            decreases 8 - level,
        {
            ctx.leds.push(LedCommand::Color { index: BRIGHTNESS_START + level, color: 0x101010 });
            level += 1;
            assert(ctx.leds@ =~= start + Seq::new(
                level as nat,
                |l: int| LedCommand::Color { index: (31 + l) as u8, color: 0x101010 },
            ));
        }
        ctx.leds.push(LedCommand::Color { index: BRIGHTNESS_START + brightness, color: 0xccccff });
        assert(ctx.leds@ =~= start + selector_commands(old(ctx).brightness));
    }
}

impl Page for LedsPage {
    /// Draws the page: the setup button, the title, the selector and, where
    /// the page has it, the mirror toggle.
    fn on_enter(&mut self, ctx: &mut SetupContext)
        ensures
            final(ctx).leds@ == old(ctx).leds@ + seq![LedCommand::Color { index: 79, color: 0x0a0a55 }]
                + text_commands(old(self).text, 32) + selector_commands(old(ctx).brightness) + if old(
                self,
            ).mirror_toggle {
                seq![mirror_command(old(ctx).mirror_enabled)]
            } else {
                Seq::<LedCommand>::empty()
            },
            final(ctx).brightness == old(ctx).brightness,
            final(ctx).stored_brightness == old(ctx).stored_brightness,
            final(ctx).mirror_enabled == old(ctx).mirror_enabled,
    {
        let ghost start = ctx.leds@;
        ctx.leds.push(LedCommand::Color { index: 79, color: 0x0a0a55 });
        self.text.draw(&mut ctx.leds);
        self.draw_brightness_selector(ctx);
        let ghost drawn = ctx.leds@;
        assert(drawn =~= start + seq![LedCommand::Color { index: 79, color: 0x0a0a55 }]
            + text_commands(old(self).text, 32) + selector_commands(old(ctx).brightness));
        if self.mirror_toggle {
            self.draw_mirror_toggle(ctx);
            assert(ctx.leds@ =~= drawn + seq![mirror_command(old(ctx).mirror_enabled)]);
        } else {
            assert(ctx.leds@ =~= drawn + Seq::<LedCommand>::empty());
        }
    }

    /// A press on the mirror toggle, where the page has it, flips the stored
    /// setting and redraws the toggle; a press on a brightness level selects
    /// it: the device and the stored settings take it and the selector is
    /// redrawn.
    fn on_surface(&mut self, event: SurfaceEvent, ctx: &mut SetupContext)
        ensures
            (old(self).mirror_toggle && event.pressed && event.index == MIRROR_TOGGLE) ==> ({
                let m: u8 = if old(ctx).mirror_enabled != 0 {
                    0
                } else {
                    1
                };
                &&& final(ctx).mirror_enabled == m
                &&& final(ctx).leds@ == old(ctx).leds@.push(mirror_command(m))
                &&& final(ctx).brightness == old(ctx).brightness
                &&& final(ctx).stored_brightness == old(ctx).stored_brightness
            }),
            !(old(self).mirror_toggle && event.pressed && event.index == MIRROR_TOGGLE) ==> (
            final(ctx).mirror_enabled == old(ctx).mirror_enabled),
            (!event.pressed || event.index < BRIGHTNESS_START || event.index > BRIGHTNESS_END)
                && !(old(self).mirror_toggle && event.pressed && event.index == MIRROR_TOGGLE) ==> (
            final(ctx).leds@ == old(ctx).leds@ && final(ctx).brightness == old(ctx).brightness
                && final(ctx).stored_brightness == old(ctx).stored_brightness),
            (event.pressed && BRIGHTNESS_START <= event.index <= BRIGHTNESS_END) ==> ({
                let b = (event.index - BRIGHTNESS_START) as u8;
                &&& final(ctx).brightness == b
                &&& final(ctx).stored_brightness == Some(b)
                &&& final(ctx).leds@ == old(ctx).leds@ + selector_commands(b)
            }),
    {
        if self.mirror_toggle && event.pressed && event.index == MIRROR_TOGGLE {
            ctx.mirror_enabled = if ctx.mirror_enabled != 0 {
                0
            } else {
                1
            };
            self.draw_mirror_toggle(ctx);
            return;
        }
        if !event.pressed || event.index < BRIGHTNESS_START || event.index > BRIGHTNESS_END {
            return;
        }
        let brightness = event.index - BRIGHTNESS_START;
        ctx.brightness = brightness;
        ctx.stored_brightness = Some(brightness);
        self.draw_brightness_selector(ctx);
    }
}

} // verus!
