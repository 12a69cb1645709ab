# clock_rs

The logic of a terminal clock, stopwatch and timer, verified with Verus.

- `src/` is the verified library: where the clock sits on the screen
  (`position`), the color cycle (`color`), refresh-interval stepping and the
  clock's settings (`clock`), the configuration and its file paths and edits
  (`config`), key bindings (`keys`), the state machine that keys, reloads and
  the status bar act on (`state`), small text helpers (`text`), the
  editable TOML document behind trusted wrappers of `toml_edit` (`toml_doc`),
  and how the saved settings read back from an edited document (`saved`).
- `app/` is the program around it: command-line arguments (clap), reading the
  configuration file (serde, toml), writing edits back to disk, the terminal
  event loop (crossterm) and the reload signal (signal-hook).
- `tests/` runs the library on concrete inputs.
