# omablue_bt

A terminal Bluetooth manager for BlueZ, split into a verified library and a
thin program around it.

- `src/` (verified with Verus): the application state and its state machine
  (`app`), the events that drive it (`events`), the D-Bus calls that each
  operation makes and device paths (`bluetooth`), theme colours and their hex
  notation (`ui::theme`), and the texts and colours of the panels (`ui::layout`).
- `app/`: the tokio main loop, terminal set-up, BlueZ over zbus, the
  `colors.toml` reader and watcher, desktop notifications and ratatui drawing.
- `tests/`: tests of the library.
