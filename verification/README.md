# firmware_core

The shared logic of an alternative firmware for Novation Launchpad controllers
(Launchpad X, Mini MK3, Mini MK1, S, MK2, Pro, Pro MK3) and the Mystrix Pro,
written in Verus and proved against its contracts.

Layout:

- `src/sys` — MIDI ports, USB-MIDI packet framing, SysEx handling (device and
  version inquiries, LED messages, the M0 flashing protocol), surface rotation,
  the settings flash region, and the USB control logic of the STM32F1 devices.
- `src/app` — the application interface, the application host that routes
  surface, MIDI and tick events, the boot animation and the setup pages.
- `src/devices` — per-device scan scheduling, LED payloads, input debouncing and
  pressure processing, USB descriptors and SysEx handlers.
- `src/packaging.rs` — what the packaging tool builds for each device.
- `src/driver.rs` — the hardware interface as the shared logic sees it.
- `app/` — the packaging tool, and the glue that keeps the settings region on a
  NOR flash device.
- `tests/` — tests on concrete values.

The logic never touches hardware itself: it returns the LED requests, the
packets to send and the scan actions to perform. Performing them is the work
of each device's firmware runtime (interrupt handlers, USB stack, timers),
which is not part of this crate; the per-device `runloop` modules state what
its millisecond loop decides.
