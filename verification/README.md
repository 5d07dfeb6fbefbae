# dloop

A terminal cockpit for Android development — build, install, run and stream logcat from
the keyboard — whose core is verified with Verus.

## Layout

- `src/` — the verified library.
  - `text.rs` — character-sequence helpers and their specifications.
  - `logcat.rs` — parsing `adb logcat -v threadtime` lines, crash detection, filters, colors.
  - `adb.rs`, `device.rs` — reading `adb` output: devices, properties, PIDs, battery, packages.
  - `project.rs` — inferring application ids, flavors and Gradle tasks from a build file.
  - `config.rs` — configuration values and where the project file is looked up.
  - `event.rs`, `action.rs` — key bindings per modal.
  - `app.rs`, `app/` — the application state machine: every key action and every report
    from the outside world is a transition with a contract, returning the outside work it
    asks for as `Effect`s; `app/laws.rs` states properties across transitions.
  - `pane.rs`, `screen.rs`, `ui.rs` — what the screen shows: log rows, info bar, status line.
  - `doctor.rs`, `tools.rs` — the `doctor` report and decisions around external tools.
- `tests/` — scenario tests of the library.
- `app/` — the program around the library: command line, terminal, child processes, files,
  drawing with ratatui. It performs the effects the library asks for and reports back.

Run the program in an Android project (or with `--project DIR`); the `init` subcommand
writes a `.byedroid.toml`, and `doctor` checks the tools and the project.
