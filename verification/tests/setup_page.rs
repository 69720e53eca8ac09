use firmware_core::app::events::SurfaceEvent;
use firmware_core::app::setup::page::{Page, SetupContext};
use firmware_core::app::setup::page_leds::LedsPage;
use firmware_core::sys::led::LedCommand;

fn context(brightness: u8, mirror_enabled: u8) -> SetupContext {
    SetupContext { leds: Vec::new(), brightness, stored_brightness: None, mirror_enabled }
}

fn press(index: u8) -> SurfaceEvent {
    SurfaceEvent { pressed: true, index, value: 127 }
}

#[test]
fn leds_page_selects_brightness() {
    let mut page = LedsPage::new();
    let mut ctx = context(9, 0);
    page.on_enter(&mut ctx);
    assert_eq!(ctx.leds[0], LedCommand::Color { index: 79, color: 0x0a0a55 });
    assert_eq!(*ctx.leds.last().unwrap(), LedCommand::Color { index: 38, color: 0xccccff });
    ctx.leds.clear();
    page.on_surface(press(33), &mut ctx);
    assert_eq!(ctx.brightness, 2);
    assert_eq!(ctx.stored_brightness, Some(2));
    assert_eq!(ctx.leds.len(), 9);
    assert_eq!(ctx.leds[8], LedCommand::Color { index: 33, color: 0xccccff });
    ctx.leds.clear();
    page.on_surface(press(40), &mut ctx);
    page.on_surface(SurfaceEvent { pressed: false, index: 34, value: 0 }, &mut ctx);
    assert!(ctx.leds.is_empty());
    assert_eq!(ctx.brightness, 2);
}

#[test]
fn leds_page_mirror_toggle() {
    let mut page = LedsPage::with_mirror_toggle();
    let mut ctx = context(7, 0);
    page.on_enter(&mut ctx);
    assert_eq!(*ctx.leds.last().unwrap(), LedCommand::Color { index: 11, color: 0xff1010 });
    ctx.leds.clear();
    page.on_surface(press(11), &mut ctx);
    assert_eq!(ctx.mirror_enabled, 1);
    assert_eq!(ctx.leds, vec![LedCommand::Color { index: 11, color: 0x10ff10 }]);
    page.on_surface(press(11), &mut ctx);
    assert_eq!(ctx.mirror_enabled, 0);
    let mut plain = LedsPage::new();
    let mut ctx = context(7, 1);
    plain.on_surface(press(11), &mut ctx);
    assert_eq!(ctx.mirror_enabled, 1);
    assert!(ctx.leds.is_empty());
}
