# window_actions

A launcher that runs actions when Wayland toplevel windows become active or
stop being active; the shipped action moves PulseAudio's loopback to a chosen
source with `pactl`.

- `src/` is the verified library (Verus): windows and the actions bound to
  them (`handle`, `wayland`), the action store (`actions`), pactl actions and
  their generator (`pactl`), the application state and its messages
  (`state`), text helpers (`text`), and laws proved over the specifications
  (`laws`).
- `app/` is the program around it: the iced GUI, the Wayland client, and the
  processes that `pactl` and the actions run.
- `tests/` runs the library on concrete values.
