//! The application host: it owns every application, routes each event to the
//! one that runs, and switches between them, on request of the running
//! application, of a SysEx message, or of the setup button.

use vstd::prelude::*;
use super::apptrait::App;
use super::events::{AftertouchEvent, AppId, MidiEvent, SurfaceEvent};
use crate::sys::led::LedCommand;
use crate::sys::midi::MidiPort;
use crate::sys::sysex::{SysExHandler, SysExOutput};

verus! {

/// The dedicated setup button, on devices that have one.
pub const SETUP_BUTTON_INDEX: u8 = 0;

/// The button held to enter setup, on devices without a setup button.
pub const SETUP_HOLD_BUTTON_INDEX: u8 = 95;

/// Ticks the hold button must stay pressed before setup opens.
pub const SETUP_HOLD_TICKS: u16 = 500;

/// MIDI start: tempo tracking begins.
pub const MIDI_START: u8 = 0xfa;

/// MIDI timing clock: one tempo tick.
pub const MIDI_CLOCK: u8 = 0xf8;

/// MIDI stop: tempo tracking ends.
pub const MIDI_STOP: u8 = 0xfc;

/// What the host asks of the device, in order.
#[derive(Copy, Clone, Debug, PartialEq, Eq, Structural)]
pub enum HostEffect {
    /// A request to the LEDs, from an application or from the host.
    Led(LedCommand),
    /// A short MIDI message an application sends.
    SendMidi(MidiEvent),
    /// Advance the LED animations by one tick.
    LedTick,
    /// Start following the MIDI tempo.
    TempoStart,
    /// One MIDI clock pulse.
    TempoMidiClock,
    /// Stop following the MIDI tempo.
    TempoStop,
    /// Store the settings.
    SaveSettings,
}

/// The LED requests of an application, as host effects.
pub open spec fn led_effects(s: Seq<LedCommand>) -> Seq<HostEffect> {
    s.map_values(|c: LedCommand| HostEffect::Led(c))
}

/// The MIDI messages of an application, as host effects.
pub open spec fn midi_effects(s: Seq<MidiEvent>) -> Seq<HostEffect> {
    s.map_values(|m: MidiEvent| HostEffect::SendMidi(m))
}

/// Effects an application can cause: LED requests and MIDI messages.
pub open spec fn app_made(s: Seq<HostEffect>) -> bool {
    forall|i: int| 0 <= i < s.len() ==> (#[trigger] s[i] is Led || s[i] is SendMidi)
}

/// `new` starts with all of `old`.
pub open spec fn extends(new: Seq<HostEffect>, old: Seq<HostEffect>) -> bool {
    new.len() >= old.len() && forall|i: int| 0 <= i < old.len() ==> #[trigger] new[i] == old[i]
}

/// The tempo effect of a MIDI status byte, if it is a transport message.
pub open spec fn tempo_effect(status: u8) -> Option<HostEffect> {
    if status == MIDI_START {
        Some(HostEffect::TempoStart)
    } else if status == MIDI_CLOCK {
        Some(HostEffect::TempoMidiClock)
    } else if status == MIDI_STOP {
        Some(HostEffect::TempoStop)
    } else {
        None
    }
}

/// The application that was left for setup: entering setup remembers the
/// application it leaves, except the palette editor.
pub open spec fn next_previous(current: AppId, previous: AppId, target: AppId) -> AppId {
    if target != current && target == AppId::Setup && current != AppId::PaletteEditor {
        current
    } else {
        previous
    }
}

/// A call the host made of an application, in the order made; the answers
/// that steer the host are recorded with the calls that gave them.
pub enum HostCall {
    Enter(AppId),
    Exit(AppId),
    Surface(AppId, SurfaceEvent),
    Midi(AppId, MidiEvent),
    Aftertouch(AppId, AftertouchEvent),
    Tick(AppId),
    /// The application was asked which application it wants to switch to.
    TakeSwitch(AppId, Option<AppId>),
    /// Setup was told the application it was entered from.
    SetSetupMode(AppId),
    /// Setup was ended, naming the application to run next or not.
    FinishSetup(Option<AppId>),
    /// A SysEx message went to the handler: the running application, the
    /// port, the device id and the message.
    SysEx(AppId, MidiPort, u8, Seq<u8>),
    /// The SysEx handler was asked which application to switch to.
    HandlerSwitch(Option<AppId>),
}

/// The calls of a switch from `current` to `target`, `previous` being the
/// application setup returns to: the running application is exited, setup
/// learns where it was entered from, and the target is entered. A switch to
/// the running application makes none.
pub open spec fn switch_calls(current: AppId, previous: AppId, target: AppId) -> Seq<HostCall> {
    if target == current {
        Seq::empty()
    } else {
        seq![HostCall::Exit(current)] + (if target == AppId::Setup {
            seq![HostCall::SetSetupMode(next_previous(current, previous, target))]
        } else {
            Seq::<HostCall>::empty()
        }) + seq![HostCall::Enter(target)]
    }
}

/// The calls of applying the switch an application asked for (`req`).
pub open spec fn requested_calls(current: AppId, previous: AppId, req: Option<AppId>) -> Seq<HostCall> {
    match req {
        Some(target) => switch_calls(current, previous, target),
        None => Seq::empty(),
    }
}

/// The application that runs after applying the switch asked for.
pub open spec fn after_request(current: AppId, req: Option<AppId>) -> AppId {
    match req {
        Some(target) => target,
        None => current,
    }
}

/// The application setup returns to after applying the switch asked for.
pub open spec fn previous_after_request(current: AppId, previous: AppId, req: Option<AppId>) -> AppId {
    match req {
        Some(target) => next_previous(current, previous, target),
        None => previous,
    }
}

/// What the setup application does beyond the common interface.
pub trait SetupModes: App {
    /// Tells setup which application it was entered from.
    fn set_current_mode(&mut self, mode: AppId);

    /// Ends setup, possibly naming the application to run next.
    fn finish_setup(&mut self) -> Option<AppId>;
}

/// One call of an application's interface.
#[derive(Copy, Clone)]
enum AppCall {
    Enter,
    Exit,
    Surface(SurfaceEvent),
    Midi(MidiEvent),
    Aftertouch(AftertouchEvent),
    Tick,
    TakeSwitch,
}

/// The record of `call` on application `id`, which answered `answer`.
spec fn call_record(id: AppId, call: AppCall, answer: Option<AppId>) -> HostCall {
    match call {
        AppCall::Enter => HostCall::Enter(id),
        AppCall::Exit => HostCall::Exit(id),
        AppCall::Surface(e) => HostCall::Surface(id, e),
        AppCall::Midi(e) => HostCall::Midi(id, e),
        AppCall::Aftertouch(e) => HostCall::Aftertouch(id, e),
        AppCall::Tick => HostCall::Tick(id),
        AppCall::TakeSwitch => HostCall::TakeSwitch(id, answer),
    }
}

/// Makes `call` on `app`, collecting its LED requests in `leds`, then takes
/// the MIDI messages it has to send.
fn call_one<A: App>(app: &mut A, call: AppCall, leds: &mut Vec<LedCommand>) -> (r: (
    Option<AppId>,
    Vec<MidiEvent>,
))
    ensures
        !(call is TakeSwitch) ==> r.0 is None,
{
    let req = call_one_inner(app, call, leds);
    let midi = app.take_outgoing_midi();
    (req, midi)
}

/// Makes `call` on `app`, collecting its LED requests in `leds`.
fn call_one_inner<A: App>(app: &mut A, call: AppCall, leds: &mut Vec<LedCommand>) -> (r: Option<
    AppId,
>)
    ensures
        !(call is TakeSwitch) ==> r is None,
{
    match call {
        AppCall::Enter => {
            app.on_enter(leds);
            None
        },
        AppCall::Exit => {
            app.on_exit(leds);
            None
        },
        AppCall::Surface(e) => {
            app.on_surface(e, leds);
            None
        },
        AppCall::Midi(e) => {
            app.on_midi(e, leds);
            None
        },
        AppCall::Aftertouch(e) => {
            app.on_aftertouch(e, leds);
            None
        },
        AppCall::Tick => {
            app.on_tick(leds);
            None
        },
        AppCall::TakeSwitch => app.take_requested_app_switch(),
    }
}

/// Appends `leds` to `out` as host effects.
fn push_leds(out: &mut Vec<HostEffect>, leds: &Vec<LedCommand>)
    ensures
        final(out)@ == old(out)@ + led_effects(leds@),
{
    let ghost start = out@;
    let mut i: usize = 0;
    while i < leds.len()
        invariant
            i <= leds.len(),
            out@ == start + led_effects(leds@.take(i as int)),
        decreases leds.len() - i,
    {
        out.push(HostEffect::Led(leds[i]));
        i = i + 1;
        assert(led_effects(leds@.take(i as int)) =~= led_effects(leds@.take(i - 1)).push(
            HostEffect::Led(leds@[i - 1]),
        ));
    }
    assert(leds@.take(i as int) =~= leds@);
}

/// Appends `midi` to `out` as host effects.
fn push_midi(out: &mut Vec<HostEffect>, midi: &Vec<MidiEvent>)
    ensures
        final(out)@ == old(out)@ + midi_effects(midi@),
{
    let ghost start = out@;
    let mut i: usize = 0;
    while i < midi.len()
        invariant
            i <= midi.len(),
            out@ == start + midi_effects(midi@.take(i as int)),
        decreases midi.len() - i,
    {
        out.push(HostEffect::SendMidi(midi[i]));
        i = i + 1;
        assert(midi_effects(midi@.take(i as int)) =~= midi_effects(midi@.take(i - 1)).push(
            HostEffect::SendMidi(midi@[i - 1]),
        ));
    }
    assert(midi@.take(i as int) =~= midi@);
}

/// Owns the applications and runs one of them at a time.
///
/// `hold_to_setup` selects how setup is reached: by holding button 95 for
/// `SETUP_HOLD_TICKS` ticks, or by pressing the dedicated button 0.
pub struct AppHost<B: App, L: App, S: SetupModes, P: App, G: App, E: App> {
    pub current: AppId,
    previous_app: AppId,
    boot: B,
    live: L,
    setup: S,
    performance: P,
    programmer: G,
    palette_editor: E,
    hold_to_setup: bool,
    setup_hold_ticks: u16,
    setup_hold_active: bool,
    call_log: Ghost<Seq<HostCall>>,
}

impl<B: App, L: App, S: SetupModes, P: App, G: App, E: App> AppHost<B, L, S, P, G, E> {
    /// The running application.
    pub closed spec fn running(self) -> AppId {
        self.current
    }

    /// The application that setup returns to.
    pub closed spec fn previous(self) -> AppId {
        self.previous_app
    }

    /// Whether setup is reached by holding button 95.
    pub closed spec fn hold_mode(self) -> bool {
        self.hold_to_setup
    }

    /// Whether button 95 is being held towards setup.
    pub closed spec fn hold_active(self) -> bool {
        self.setup_hold_active
    }

    /// Ticks button 95 has been held.
    pub closed spec fn hold_ticks(self) -> u16 {
        self.setup_hold_ticks
    }

    /// The applications, in the order boot, live, setup, performance,
    /// programmer, palette editor.
    pub closed spec fn apps(self) -> (B, L, S, P, G, E) {
        (self.boot, self.live, self.setup, self.performance, self.programmer, self.palette_editor)
    }

    /// The calls made of the applications so far, oldest first.
    pub closed spec fn calls(self) -> Seq<HostCall> {
        self.call_log@
    }

    /// `after` is the host after, with the calls `log` made, `running`
    /// running and `previous` to return to from setup, the running
    /// application was asked for the switch it wants and that switch was
    /// made.
    pub open spec fn switch_request_applied(
        log: Seq<HostCall>,
        running: AppId,
        previous: AppId,
        after: Self,
    ) -> bool {
        &&& after.calls().len() > log.len()
        &&& after.calls()[log.len() as int] matches HostCall::TakeSwitch(id, req) && id == running
            && after.calls() == log.push(HostCall::TakeSwitch(id, req)) + requested_calls(
            running,
            previous,
            req,
        ) && after.running() == after_request(running, req) && after.previous()
            == previous_after_request(running, previous, req)
    }

    /// Everything but the applications and the running one.
    pub open spec fn same_control(self, other: Self) -> bool {
        &&& self.previous() == other.previous()
        &&& self.hold_mode() == other.hold_mode()
        &&& self.hold_active() == other.hold_active()
        &&& self.hold_ticks() == other.hold_ticks()
    }

    /// A host that runs `current` and owns the given applications.
    pub fn new(
        current: AppId,
        boot: B,
        live: L,
        setup: S,
        performance: P,
        programmer: G,
        palette_editor: E,
        hold_to_setup: bool,
    ) -> (r: Self)
        ensures
            r.running() == current,
            r.previous() == current,
            r.hold_mode() == hold_to_setup,
            !r.hold_active(),
            r.hold_ticks() == 0,
            r.apps() == (boot, live, setup, performance, programmer, palette_editor),
            r.calls() == Seq::<HostCall>::empty(),
    {
        AppHost {
            current,
            previous_app: current,
            boot,
            live,
            setup,
            performance,
            programmer,
            palette_editor,
            hold_to_setup,
            setup_hold_ticks: 0,
            setup_hold_active: false,
            call_log: Ghost(Seq::empty()),
        }
    }

    /// Makes `call` on application `id` and passes on its LED requests and
    /// MIDI messages.
    fn call_app(&mut self, id: AppId, call: AppCall, out: &mut Vec<HostEffect>) -> (r: (
        Option<AppId>,
        Ghost<Seq<HostEffect>>,
    ))
        ensures
            final(self).running() == old(self).running(),
            final(self).same_control(*old(self)),
            final(out)@ == old(out)@ + r.1@,
            app_made(r.1@),
            !(call is TakeSwitch) ==> r.0 is None,
            final(self).calls() == old(self).calls().push(call_record(id, call, r.0)),
    {
        let mut leds: Vec<LedCommand> = Vec::new();
        let (r, midi) = match id {
            AppId::Boot => call_one(&mut self.boot, call, &mut leds),
            AppId::Setup => call_one(&mut self.setup, call, &mut leds),
            AppId::Performance => call_one(&mut self.performance, call, &mut leds),
            AppId::Live => call_one(&mut self.live, call, &mut leds),
            AppId::Programmer => call_one(&mut self.programmer, call, &mut leds),
            AppId::PaletteEditor => call_one(&mut self.palette_editor, call, &mut leds),
        };
        let ghost start = out@;
        push_leds(out, &leds);
        push_midi(out, &midi);
        let ghost made = led_effects(leds@) + midi_effects(midi@);
        assert(out@ =~= start + made);
        assert forall|i: int| 0 <= i < made.len() implies (#[trigger] made[i] is Led || made[i] is SendMidi) by {
            if i < leds@.len() {
                assert(made[i] == HostEffect::Led(leds@[i]));
            } else {
                assert(made[i] == HostEffect::SendMidi(midi@[i - leds@.len()]));
            }
        }
        proof {
            self.call_log@ = self.call_log@.push(call_record(id, call, r));
        }
        (r, Ghost(made))
    }

    /// Enters the running application and applies the switch it may ask for.
    pub fn init(&mut self, out: &mut Vec<HostEffect>)
        ensures
            final(self).hold_mode() == old(self).hold_mode(),
            final(self).hold_active() == old(self).hold_active(),
            final(self).hold_ticks() == old(self).hold_ticks(),
            extends(final(out)@, old(out)@),
            Self::switch_request_applied(
                old(self).calls().push(HostCall::Enter(old(self).running())),
                old(self).running(),
                old(self).previous(),
                *final(self),
            ),
    {
        let cur = self.current;
        self.call_app(cur, AppCall::Enter, out);
        self.apply_requested_app_switch(out);
    }

    /// Leaves the running application for `app`: the old one is exited, the
    /// LEDs are cleared, and the new one is entered. Setup is told which
    /// application it was entered from. Switching to the running application
    /// does nothing.
    pub fn switch(&mut self, app: AppId, out: &mut Vec<HostEffect>)
        ensures
            app == old(self).running() ==> *final(self) == *old(self) && final(out)@ == old(out)@,
            app != old(self).running() ==> exists|a: Seq<HostEffect>, b: Seq<HostEffect>|
                #![trigger app_made(a), app_made(b)]
                app_made(a) && app_made(b) && final(out)@ == old(out)@ + a + seq![
                    HostEffect::Led(LedCommand::Clear),
                ] + b,
            extends(final(out)@, old(out)@),
            final(self).running() == app,
            final(self).previous() == next_previous(old(self).running(), old(self).previous(), app),
            final(self).hold_mode() == old(self).hold_mode(),
            final(self).hold_active() == old(self).hold_active(),
            final(self).hold_ticks() == old(self).hold_ticks(),
            final(self).calls() == old(self).calls() + switch_calls(
                old(self).running(),
                old(self).previous(),
                app,
            ),
    {
        if app == self.current {
            assert(old(self).calls() + switch_calls(old(self).running(), old(self).previous(), app)
                =~= old(self).calls());
            return;
        }
        if app == AppId::Setup && self.current != AppId::PaletteEditor {
            self.previous_app = self.current;
        }
        let ghost out0 = out@;
        let cur = self.current;
        let (_, Ghost(a)) = self.call_app(cur, AppCall::Exit, out);
        self.current = app;
        out.push(HostEffect::Led(LedCommand::Clear));
        if app == AppId::Setup {
            let prev = self.previous_app;
            self.setup.set_current_mode(prev);
            proof {
                self.call_log@ = self.call_log@.push(HostCall::SetSetupMode(prev));
            }
        }
        let ghost out1 = out@;
        let (_, Ghost(b)) = self.call_app(app, AppCall::Enter, out);
        assert(out@ =~= out0 + a + seq![HostEffect::Led(LedCommand::Clear)] + b);
        assert(app_made(a) && app_made(b));
        assert(self.calls() =~= old(self).calls() + switch_calls(
            old(self).running(),
            old(self).previous(),
            app,
        ));
    }

    /// Applies the switch the running application asks for, if any: the
    /// application is asked, and a switch to the application it names
    /// follows.
    fn apply_requested_app_switch(&mut self, out: &mut Vec<HostEffect>)
        ensures
            extends(final(out)@, old(out)@),
            final(self).hold_mode() == old(self).hold_mode(),
            final(self).hold_active() == old(self).hold_active(),
            final(self).hold_ticks() == old(self).hold_ticks(),
            Self::switch_request_applied(
                old(self).calls(),
                old(self).running(),
                old(self).previous(),
                *final(self),
            ),
    {
        let cur = self.current;
        let (req, _) = self.call_app(cur, AppCall::TakeSwitch, out);
        let ghost mid = self.calls();
        if let Some(app) = req {
            self.switch(app, out);
        } else {
            assert(mid + requested_calls(cur, old(self).previous(), req) =~= mid);
        }
        assert(self.calls()[old(self).calls().len() as int] == HostCall::TakeSwitch(cur, req));
        assert(self.calls() =~= old(self).calls().push(HostCall::TakeSwitch(cur, req)) + requested_calls(
            cur,
            old(self).previous(),
            req,
        ));
    }

    /// Hands a surface event to the running application (never button 0)
    /// and lets the setup button, or the hold button, do its part.
    ///
    /// With the dedicated button: pressing it during boot or releasing it does
    /// nothing; pressing it in setup leaves setup; pressing it in the palette
    /// editor stores the settings and enters setup; anywhere else it enters
    /// setup. With the hold button: in boot it does nothing more; in setup a
    /// press leaves setup; outside the palette editor a press starts the hold
    /// count and a release stops it.
    pub fn route_surface_event(&mut self, event: SurfaceEvent, out: &mut Vec<HostEffect>)
        ensures
            final(self).hold_mode() == old(self).hold_mode(),
            !event.pressed ==> (final(self).hold_active() ==> old(self).hold_active()),
            !event.pressed ==> (final(self).hold_ticks() == old(self).hold_ticks()
                || final(self).hold_ticks() == 0),
            !old(self).hold_mode() ==> final(self).hold_active() == old(self).hold_active()
                && final(self).hold_ticks() == old(self).hold_ticks(),
            !old(self).hold_mode() && event.index == SETUP_BUTTON_INDEX && (old(self).running()
                == AppId::Boot || !event.pressed) ==> *final(self) == *old(self) && final(out)@
                == old(out)@,
            !old(self).hold_mode() && event.index == SETUP_BUTTON_INDEX && event.pressed
                && old(self).running() == AppId::Setup ==> final(self).previous() == old(self).previous(),
            !old(self).hold_mode() && event.index == SETUP_BUTTON_INDEX && event.pressed
                && old(self).running() == AppId::PaletteEditor ==> final(self).running()
                == AppId::Setup && final(self).previous() == old(self).previous()
                && final(out)@.len() > old(out)@.len() && final(out)@[old(out)@.len() as int]
                == HostEffect::SaveSettings,
            !old(self).hold_mode() && event.index == SETUP_BUTTON_INDEX && event.pressed
                && old(self).running() != AppId::Boot && old(self).running() != AppId::Setup
                && old(self).running() != AppId::PaletteEditor ==> final(self).running()
                == AppId::Setup && final(self).previous() == old(self).running(),
            old(self).hold_mode() && event.index == SETUP_HOLD_BUTTON_INDEX && (old(self).running()
                == AppId::Boot || (old(self).running() == AppId::Setup && !event.pressed)) ==> final(self).running() == old(self).running() && final(self).same_control(*old(self)),
            old(self).hold_mode() && event.index == SETUP_HOLD_BUTTON_INDEX && old(self).running()
                != AppId::Boot && old(self).running() != AppId::Setup && old(self).running()
                != AppId::PaletteEditor ==> final(self).running() == old(self).running()
                && final(self).previous() == old(self).previous() && final(self).hold_ticks() == 0
                && final(self).hold_active() == event.pressed,
            event.index != SETUP_BUTTON_INDEX && !(old(self).hold_mode() && event.index
                == SETUP_HOLD_BUTTON_INDEX && old(self).running() != AppId::PaletteEditor) ==> Self::switch_request_applied(
                old(self).calls().push(HostCall::Surface(old(self).running(), event)),
                old(self).running(),
                old(self).previous(),
                *final(self),
            ),
            event.index == SETUP_BUTTON_INDEX && old(self).hold_mode() ==> Self::switch_request_applied(
                old(self).calls(),
                old(self).running(),
                old(self).previous(),
                *final(self),
            ),
    {
        if event.index != 0 {
            let cur = self.current;
            self.call_app(cur, AppCall::Surface(event), out);
        }
        if self.hold_to_setup {
            if self.handle_setup_hold_button(&event, out) {
                return;
            }
        } else {
            if self.handle_setup_button(&event, out) {
                return;
            }
        }
        self.apply_requested_app_switch(out);
    }

    /// Routes a short MIDI message: DAW-port messages go to the live
    /// application only, and only while it runs; MIDI start, clock and stop
    /// drive the LED tempo and reach no application; anything else goes to
    /// the running application.
    pub fn route_midi_event(&mut self, event: MidiEvent, out: &mut Vec<HostEffect>)
        ensures
            final(self).hold_mode() == old(self).hold_mode(),
            final(self).hold_active() == old(self).hold_active(),
            final(self).hold_ticks() == old(self).hold_ticks(),
            event.port == MidiPort::Daw && old(self).running() != AppId::Live ==> *final(self) == *old(self) && final(out)@ == old(out)@,
            event.port != MidiPort::Daw && tempo_effect(event.status) is Some ==> *final(self)
                == *old(self) && final(out)@ == old(out)@.push(tempo_effect(event.status)->0),
            (event.port == MidiPort::Daw && old(self).running() == AppId::Live) || (event.port
                != MidiPort::Daw && tempo_effect(event.status) is None) ==> Self::switch_request_applied(
                old(self).calls().push(HostCall::Midi(old(self).running(), event)),
                old(self).running(),
                old(self).previous(),
                *final(self),
            ),
    {
        if event.port == MidiPort::Daw {
            if self.current == AppId::Live {
                let cur = self.current;
                self.call_app(cur, AppCall::Midi(event), out);
                self.apply_requested_app_switch(out);
            }
            return;
        }
        if Self::handle_led_tempo_event(&event, out) {
            return;
        }
        let cur = self.current;
        self.call_app(cur, AppCall::Midi(event), out);
        self.apply_requested_app_switch(out);
    }

    /// Hands an aftertouch event to the running application, then applies
    /// the switch it may ask for.
    pub fn route_aftertouch_event(&mut self, event: AftertouchEvent, out: &mut Vec<HostEffect>)
        ensures
            final(self).hold_mode() == old(self).hold_mode(),
            final(self).hold_active() == old(self).hold_active(),
            final(self).hold_ticks() == old(self).hold_ticks(),
            extends(final(out)@, old(out)@),
            Self::switch_request_applied(
                old(self).calls().push(HostCall::Aftertouch(old(self).running(), event)),
                old(self).running(),
                old(self).previous(),
                *final(self),
            ),
    {
        let cur = self.current;
        self.call_app(cur, AppCall::Aftertouch(event), out);
        self.apply_requested_app_switch(out);
    }

    /// Handles a SysEx message: DAW-port messages are ignored; a message that
    /// selects an application (`mode_switch`, as decoded from `data`)
    /// switches to it; any other goes to the SysEx handler, whose requested
    /// switch is then applied.
    pub fn receive_sysex<X: SysExHandler>(
        &mut self,
        port: MidiPort,
        data: &[u8],
        mode_switch: Option<AppId>,
        device_id: u8,
        sysex_out: &mut SysExOutput,
        out: &mut Vec<HostEffect>,
    )
        ensures
            final(self).hold_mode() == old(self).hold_mode(),
            final(self).hold_active() == old(self).hold_active(),
            final(self).hold_ticks() == old(self).hold_ticks(),
            port == MidiPort::Daw ==> *final(self) == *old(self) && final(out)@ == old(out)@,
            port != MidiPort::Daw && mode_switch is Some ==> final(self).running() == mode_switch->0
                && final(self).previous() == next_previous(
                old(self).running(),
                old(self).previous(),
                mode_switch->0,
            ) && final(self).calls() == old(self).calls() + switch_calls(
                old(self).running(),
                old(self).previous(),
                mode_switch->0,
            ),
            port != MidiPort::Daw && mode_switch is None ==> final(self).calls().len() > old(
                self,
            ).calls().len() + 1,
            port != MidiPort::Daw && mode_switch is None ==> (final(self).calls()[old(self).calls().len()
                + 1int] matches HostCall::HandlerSwitch(req) && call_ensures(
                X::take_requested_app_switch,
                (),
                req,
            ) && final(self).calls() == old(self).calls().push(
                HostCall::SysEx(old(self).running(), port, device_id, data@),
            ).push(HostCall::HandlerSwitch(req)) + requested_calls(
                old(self).running(),
                old(self).previous(),
                req,
            ) && final(self).running() == after_request(old(self).running(), req)
                && final(self).previous() == previous_after_request(
                old(self).running(),
                old(self).previous(),
                req,
            )),
    {
        if port == MidiPort::Daw {
            return;
        }
        if let Some(app) = mode_switch {
            self.switch(app, out);
            return;
        }
        let cur = self.current;
        X::execute(cur, port, device_id, data, sysex_out);
        proof {
            self.call_log@ = self.call_log@.push(HostCall::SysEx(cur, port, device_id, data@));
        }
        let req = X::take_requested_app_switch();
        proof {
            self.call_log@ = self.call_log@.push(HostCall::HandlerSwitch(req));
        }
        let ghost mid = self.calls();
        if let Some(app) = req {
            self.switch(app, out);
        } else {
            assert(mid + requested_calls(cur, old(self).previous(), req) =~= mid);
        }
        assert(self.calls()[old(self).calls().len() + 1int] == HostCall::HandlerSwitch(req));
    }

    /// One tick: the hold count advances (opening setup when it completes),
    /// the LED animations advance, and the running application ticks.
    pub fn route_tick_event(&mut self, out: &mut Vec<HostEffect>)
        ensures
            final(self).hold_mode() == old(self).hold_mode(),
            old(self).hold_mode() && old(self).hold_active() && old(self).hold_ticks() + 1
                < SETUP_HOLD_TICKS ==> final(self).hold_active() && final(self).hold_ticks()
                == old(self).hold_ticks() + 1,
            old(self).hold_mode() && old(self).hold_active() && old(self).hold_ticks() + 1
                >= SETUP_HOLD_TICKS ==> !final(self).hold_active() && final(self).hold_ticks()
                == 0,
            !(old(self).hold_mode() && old(self).hold_active()) ==> final(self).hold_active()
                == old(self).hold_active() && final(self).hold_ticks() == old(self).hold_ticks()
                && final(out)@.len() > old(out)@.len() && final(out)@[old(out)@.len() as int]
                == HostEffect::LedTick,
            !(old(self).hold_mode() && old(self).hold_active() && old(self).hold_ticks() + 1
                >= SETUP_HOLD_TICKS) ==> Self::switch_request_applied(
                old(self).calls().push(HostCall::Tick(old(self).running())),
                old(self).running(),
                old(self).previous(),
                *final(self),
            ),
    {
        if self.hold_to_setup {
            self.tick_setup_hold_button(out);
        }
        out.push(HostEffect::LedTick);
        let cur = self.current;
        self.call_app(cur, AppCall::Tick, out);
        self.apply_requested_app_switch(out);
    }

    /// Adds the tempo effect of a transport message, and says whether it was
    /// one.
    fn handle_led_tempo_event(event: &MidiEvent, out: &mut Vec<HostEffect>) -> (r: bool)
        ensures
            r == tempo_effect(event.status) is Some,
            r ==> final(out)@ == old(out)@.push(tempo_effect(event.status)->0),
            !r ==> final(out)@ == old(out)@,
    {
        match event.status {
            0xfa => {
                out.push(HostEffect::TempoStart);
                true
            },
            0xf8 => {
                out.push(HostEffect::TempoMidiClock);
                true
            },
            0xfc => {
                out.push(HostEffect::TempoStop);
                true
            },
            _ => false,
        }
    }

    /// Leaves setup for the application it names, or else for the one it
    /// was entered from.
    fn exit_setup(&mut self, out: &mut Vec<HostEffect>)
        requires
            old(self).running() == AppId::Setup,
        ensures
            final(self).previous() == old(self).previous(),
            final(self).hold_mode() == old(self).hold_mode(),
            final(self).hold_active() == old(self).hold_active(),
            final(self).hold_ticks() == old(self).hold_ticks(),
            extends(final(out)@, old(out)@),
            final(self).calls().len() > old(self).calls().len(),
            final(self).calls()[old(self).calls().len() as int] matches HostCall::FinishSetup(named)
                && final(self).running() == after_request(old(self).previous(), named)
                && final(self).calls() == old(self).calls().push(HostCall::FinishSetup(named))
                + switch_calls(AppId::Setup, old(self).previous(), after_request(old(self).previous(), named)),
    {
        let named = self.setup.finish_setup();
        proof {
            self.call_log@ = self.call_log@.push(HostCall::FinishSetup(named));
        }
        let app = match named {
            Some(a) => a,
            None => self.previous_app,
        };
        let ghost mid = self.calls();
        self.switch(app, out);
        assert(self.calls()[old(self).calls().len() as int] == HostCall::FinishSetup(named));
    }

    /// The hold button's part of a surface event; says whether it took it.
    fn handle_setup_hold_button(&mut self, event: &SurfaceEvent, out: &mut Vec<HostEffect>) -> (r:
        bool)
        ensures
            r == (event.index == SETUP_HOLD_BUTTON_INDEX && old(self).running()
                != AppId::PaletteEditor),
            !r ==> *final(self) == *old(self) && final(out)@ == old(out)@,
            final(self).hold_mode() == old(self).hold_mode(),
            !event.pressed ==> (final(self).hold_active() ==> old(self).hold_active()),
            !event.pressed ==> (final(self).hold_ticks() == old(self).hold_ticks()
                || final(self).hold_ticks() == 0),
            r && (old(self).running() == AppId::Boot || (old(self).running() == AppId::Setup
                && !event.pressed)) ==> *final(self) == *old(self) && final(out)@ == old(out)@,
            r && old(self).running() == AppId::Setup ==> final(self).hold_active() == old(self).hold_active() && final(self).hold_ticks() == old(self).hold_ticks()
                && final(self).previous() == old(self).previous(),
            r && old(self).running() != AppId::Boot && old(self).running() != AppId::Setup ==> final(self).running() == old(self).running() && final(self).previous() == old(self).previous()
                && final(self).hold_ticks() == 0 && final(self).hold_active() == event.pressed,
    {
        if event.index != SETUP_HOLD_BUTTON_INDEX {
            return false;
        }
        if self.current == AppId::PaletteEditor {
            return false;
        }
        if self.current == AppId::Boot {
            return true;
        }
        if self.current == AppId::Setup {
            if event.pressed {
                self.exit_setup(out);
            }
            return true;
        }
        if event.pressed {
            self.setup_hold_ticks = 0;
            self.setup_hold_active = true;
        } else {
            self.setup_hold_active = false;
            self.setup_hold_ticks = 0;
        }
        true
    }

    /// The setup button's part of a surface event; says whether it took it.
    fn handle_setup_button(&mut self, event: &SurfaceEvent, out: &mut Vec<HostEffect>) -> (r: bool)
        ensures
            r == (event.index == SETUP_BUTTON_INDEX),
            !r ==> *final(self) == *old(self) && final(out)@ == old(out)@,
            final(self).hold_mode() == old(self).hold_mode(),
            final(self).hold_active() == old(self).hold_active(),
            final(self).hold_ticks() == old(self).hold_ticks(),
            r && (old(self).running() == AppId::Boot || !event.pressed) ==> *final(self) == *old(self)
                && final(out)@ == old(out)@,
            r && event.pressed && old(self).running() == AppId::Setup ==> final(self).previous()
                == old(self).previous(),
            r && event.pressed && old(self).running() == AppId::PaletteEditor ==> final(self).running()
                == AppId::Setup && final(self).previous() == old(self).previous() && final(out)@.len() > old(out)@.len() && final(out)@[old(out)@.len() as int]
                == HostEffect::SaveSettings,
            r && event.pressed && old(self).running() != AppId::Boot && old(self).running()
                != AppId::Setup && old(self).running() != AppId::PaletteEditor ==> final(self).running() == AppId::Setup && final(self).previous() == old(self).running(),
    {
        if event.index != SETUP_BUTTON_INDEX {
            return false;
        }
        if self.current == AppId::Boot {
            return true;
        }
        if event.pressed {
            if self.current == AppId::Setup {
                self.exit_setup(out);
            } else if self.current == AppId::PaletteEditor {
                let ghost n = out@.len();
                out.push(HostEffect::SaveSettings);
                self.switch(AppId::Setup, out);
                assert(out@[n as int] == HostEffect::SaveSettings);
            } else {
                self.switch(AppId::Setup, out);
            }
        }
        true
    }

    /// Advances the hold count; when it completes, releases button 95 and
    /// opens setup.
    fn tick_setup_hold_button(&mut self, out: &mut Vec<HostEffect>)
        ensures
            final(self).hold_mode() == old(self).hold_mode(),
            old(self).hold_active() && old(self).hold_ticks() + 1 < SETUP_HOLD_TICKS ==> final(self).hold_active() && final(self).hold_ticks() == old(self).hold_ticks() + 1
                && final(self).running() == old(self).running() && final(out)@ == old(out)@
                && final(self).calls() == old(self).calls() && final(self).previous() == old(self).previous(),
            old(self).hold_active() && old(self).hold_ticks() + 1 >= SETUP_HOLD_TICKS ==> !final(self).hold_active() && final(self).hold_ticks() == 0,
            !old(self).hold_active() ==> *final(self) == *old(self) && final(out)@ == old(out)@,
    {
        if !self.setup_hold_active {
            return;
        }
        self.setup_hold_ticks = self.setup_hold_ticks.saturating_add(1);
        if self.setup_hold_ticks >= SETUP_HOLD_TICKS {
            self.setup_hold_active = false;
            self.setup_hold_ticks = 0;
            self.route_surface_event(
                SurfaceEvent { pressed: false, index: SETUP_HOLD_BUTTON_INDEX, value: 0 },
                out,
            );
            self.switch(AppId::Setup, out);
        }
    }
}

} // verus!
