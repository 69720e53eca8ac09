use firmware_core::app::host::{AppHost, HostEffect, SetupModes};
use firmware_core::app::{AftertouchEvent, App, AppId, MidiEvent, SurfaceEvent};
use firmware_core::sys::led::LedCommand;
use firmware_core::sys::midi::MidiPort;
use firmware_core::sys::sysex::{DefaultSysExHandler, SysExOutput};

#[derive(Default)]
struct Probe {
    entered: u32,
    exited: u32,
    surfaces: Vec<SurfaceEvent>,
    midi: Vec<MidiEvent>,
    ticks: u32,
    request: Option<AppId>,
    outgoing: Vec<MidiEvent>,
}

impl App for Probe {
    fn on_enter(&mut self, leds: &mut Vec<LedCommand>) {
        self.entered += 1;
        leds.push(LedCommand::Palette { index: 11, velocity: 5 });
    }
    fn on_exit(&mut self, _leds: &mut Vec<LedCommand>) {
        self.exited += 1;
    }
    fn on_surface(&mut self, event: SurfaceEvent, _leds: &mut Vec<LedCommand>) {
        self.surfaces.push(event);
    }
    fn on_midi(&mut self, event: MidiEvent, _leds: &mut Vec<LedCommand>) {
        self.midi.push(event);
    }
    fn on_aftertouch(&mut self, _event: AftertouchEvent, _leds: &mut Vec<LedCommand>) {}
    fn on_tick(&mut self, _leds: &mut Vec<LedCommand>) {
        self.ticks += 1;
    }
    fn take_requested_app_switch(&mut self) -> Option<AppId> {
        self.request.take()
    }
    fn take_outgoing_midi(&mut self) -> Vec<MidiEvent> {
        std::mem::take(&mut self.outgoing)
    }
}

#[derive(Default)]
struct Setup {
    probe: Probe,
    mode: Option<AppId>,
    finish: Option<AppId>,
}

impl App for Setup {
    fn on_enter(&mut self, leds: &mut Vec<LedCommand>) {
        self.probe.on_enter(leds)
    }
    fn on_exit(&mut self, leds: &mut Vec<LedCommand>) {
        self.probe.on_exit(leds)
    }
    fn on_surface(&mut self, event: SurfaceEvent, leds: &mut Vec<LedCommand>) {
        self.probe.on_surface(event, leds)
    }
    fn on_midi(&mut self, event: MidiEvent, leds: &mut Vec<LedCommand>) {
        self.probe.on_midi(event, leds)
    }
    fn on_aftertouch(&mut self, event: AftertouchEvent, leds: &mut Vec<LedCommand>) {
        self.probe.on_aftertouch(event, leds)
    }
    fn on_tick(&mut self, leds: &mut Vec<LedCommand>) {
        self.probe.on_tick(leds)
    }
}

impl SetupModes for Setup {
    fn set_current_mode(&mut self, mode: AppId) {
        self.mode = Some(mode);
    }
    fn finish_setup(&mut self) -> Option<AppId> {
        self.finish
    }
}

type Host = AppHost<Probe, Probe, Setup, Probe, Probe, Probe>;

fn host(current: AppId, hold: bool) -> Host {
    AppHost::new(
        current,
        Probe::default(),
        Probe::default(),
        Setup::default(),
        Probe::default(),
        Probe::default(),
        Probe::default(),
        hold,
    )
}

fn press(index: u8) -> SurfaceEvent {
    SurfaceEvent { pressed: true, index, value: 100 }
}

fn release(index: u8) -> SurfaceEvent {
    SurfaceEvent { pressed: false, index, value: 0 }
}

#[test]
fn switching_to_the_running_app_does_nothing() {
    let mut h = host(AppId::Live, false);
    let mut out = Vec::new();
    h.switch(AppId::Live, &mut out);
    assert!(out.is_empty());
    assert_eq!(h.current, AppId::Live);
}

#[test]
fn switching_exits_clears_and_enters() {
    let mut h = host(AppId::Live, false);
    let mut out = Vec::new();
    h.switch(AppId::Performance, &mut out);
    assert_eq!(h.current, AppId::Performance);
    assert_eq!(
        out,
        vec![
            HostEffect::Led(LedCommand::Clear),
            HostEffect::Led(LedCommand::Palette { index: 11, velocity: 5 }),
        ]
    );
}

#[test]
fn setup_button_enters_setup_and_returns() {
    let mut h = host(AppId::Live, false);
    let mut out = Vec::new();
    h.route_surface_event(press(0), &mut out);
    assert_eq!(h.current, AppId::Setup);
    h.route_surface_event(press(0), &mut out);
    assert_eq!(h.current, AppId::Live);
}

#[test]
fn setup_button_is_ignored_during_boot_and_on_release() {
    let mut h = host(AppId::Boot, false);
    let mut out = Vec::new();
    h.route_surface_event(press(0), &mut out);
    assert_eq!(h.current, AppId::Boot);
    assert!(out.is_empty());
    let mut h = host(AppId::Live, false);
    h.route_surface_event(release(0), &mut out);
    assert_eq!(h.current, AppId::Live);
    assert!(out.is_empty());
}

#[test]
fn setup_button_in_palette_editor_saves_first() {
    let mut h = host(AppId::PaletteEditor, false);
    let mut out = Vec::new();
    h.route_surface_event(press(0), &mut out);
    assert_eq!(h.current, AppId::Setup);
    assert_eq!(out[0], HostEffect::SaveSettings);
}

#[test]
fn surface_events_other_than_button_zero_reach_the_app() {
    let mut h = host(AppId::Live, false);
    let mut out = Vec::new();
    h.route_surface_event(press(11), &mut out);
    assert_eq!(h.current, AppId::Live);
}

#[test]
fn daw_midi_reaches_only_the_live_app() {
    let mut h = host(AppId::Performance, false);
    let mut out = Vec::new();
    let note = MidiEvent { port: MidiPort::Daw, status: 0x90, data1: 60, data2: 100 };
    h.route_midi_event(note, &mut out);
    assert!(out.is_empty());
    assert_eq!(h.current, AppId::Performance);
}

#[test]
fn transport_messages_drive_the_tempo() {
    let mut h = host(AppId::Live, false);
    let mut out = Vec::new();
    for (status, effect) in [
        (0xfa, HostEffect::TempoStart),
        (0xf8, HostEffect::TempoMidiClock),
        (0xfc, HostEffect::TempoStop),
    ] {
        out.clear();
        h.route_midi_event(MidiEvent { port: MidiPort::Midi, status, data1: 0, data2: 0 }, &mut out);
        assert_eq!(out, vec![effect]);
    }
}

#[test]
fn tick_advances_the_leds_first() {
    let mut h = host(AppId::Live, false);
    let mut out = Vec::new();
    h.route_tick_event(&mut out);
    assert_eq!(out[0], HostEffect::LedTick);
}

#[test]
fn holding_button_95_opens_setup() {
    let mut h = host(AppId::Live, true);
    let mut out = Vec::new();
    h.route_surface_event(press(95), &mut out);
    assert_eq!(h.current, AppId::Live);
    for _ in 0..499 {
        h.route_tick_event(&mut out);
    }
    assert_eq!(h.current, AppId::Live);
    h.route_tick_event(&mut out);
    assert_eq!(h.current, AppId::Setup);
}

#[test]
fn releasing_button_95_early_keeps_the_app() {
    let mut h = host(AppId::Live, true);
    let mut out = Vec::new();
    h.route_surface_event(press(95), &mut out);
    for _ in 0..100 {
        h.route_tick_event(&mut out);
    }
    h.route_surface_event(release(95), &mut out);
    for _ in 0..600 {
        h.route_tick_event(&mut out);
    }
    assert_eq!(h.current, AppId::Live);
}

#[test]
fn sysex_mode_switch_and_daw_port() {
    let mut h = host(AppId::Live, false);
    let mut out = Vec::new();
    let mut sysex = SysExOutput::new();
    h.receive_sysex::<DefaultSysExHandler>(MidiPort::Daw, &[0xf0, 0xf7], Some(AppId::Programmer), 1, &mut sysex, &mut out);
    assert_eq!(h.current, AppId::Live);
    h.receive_sysex::<DefaultSysExHandler>(MidiPort::Midi, &[0xf0, 0xf7], Some(AppId::Programmer), 1, &mut sysex, &mut out);
    assert_eq!(h.current, AppId::Programmer);
    let inquiry = [0xf0, 0x00, 0x20, 0x29, 0x02, 0x7f, 0x00, 0xf7];
    h.receive_sysex::<DefaultSysExHandler>(MidiPort::Midi, &inquiry, None, 3, &mut sysex, &mut out);
    assert_eq!(sysex.replies.len(), 1);
    assert_eq!(sysex.replies[0].data, vec![0xf0, 0x00, 0x20, 0x29, 0x02, 0x7f, 0x01, 3, 0, 1, 0, 0xf7]);
}
