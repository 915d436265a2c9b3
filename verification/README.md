# mxkeys-f4d

Gives the F4 key of a Logitech MX Keys back on macOS, without giving up F12.

The keyboard resolves Fn in its firmware and sends the same usage for bare F4
and for Fn+F12, so nothing that works on ordinary key events can tell them
apart. The HID++ vendor channel can: the F4 control is *diverted*, the keyboard
then names it in a notification, and the daemon posts F18 for it. The divert is
never made persistent. If the daemon is not running, F4 types F12 again.

## Layout

- `src/` is the library, in Verus: everything the daemon decides.
  - `hidpp.rs`: the wire format of requests, replies and notifications.
  - `numeral.rs`: reading and writing integers.
  - `config.rs`: the configuration and the command line.
  - `message.rs`: the lines of the log.
  - `state.rs`: the daemon's state and its steps. Each step takes what happened
    and hands back what to do and what to wait for.
  - `laws.rs`: what holds of the daemon whatever happens, and in what order.
- `app/` is the program round it: CoreFoundation, IOKit, CoreGraphics, the run
  loop and the clock.
- `tests/` runs the library on concrete reports, command lines and a keyboard
  made of a few lines of Rust.
