# IzarraVM frontend

The frontend of the IzarraVM PC emulator: it settles what a run is, drives the
emulated machine through it, and reports what the run did.

* `src/` is the library, written in Verus. It holds what the frontend decides and
  computes: the run modes and their budgets, the schedules of injected keys and mouse
  packets and the state machine that plays them, the slicing of observed runs, the
  audio capture, the self-test verdicts, the screen samples and screenshots, the
  preferences and the start-up rules, and the reports of a run as JSON, text and
  picture files. Every function is proved against its contract.
* `tests/` runs the library.
* `app/` is the program around it: the command line, files and the environment, the
  loops that advance the machine, and the floating-point figures of the reports. It is
  built against the emulator's own crates (`izarravm_core`, `izarravm_cpu`,
  `izarravm_firmware`, `izarravm_machine`, `izarravm_video`), which `app/emulator.rs`,
  `app/snapshots.rs` and `app/sections.rs` alone speak to.

## The library by module

| Modules | What they hold |
| --- | --- |
| `launch`, `switches`, `startup`, `prefs`, `midi`, `preflight` | what a start settles |
| `keyboard`, `inject`, `mouse`, `run` | input schedules and the run that plays them |
| `stop`, `suite`, `console`, `lines`, `summary` | how a run ended, and its printed lines |
| `audio`, `picture`, `screendump`, `screenshot` | what a run is recorded as |
| `report` | the sections of a profile and of the mode census |
| `riprofile`, `rip_report`, `ranking`, `order`, `totals` | the sampling profiler's report |
| `text`, `json`, `document` | text, JSON values and TOML documents |

Values that only floating point can give (rates, percentages, gamma tables) come in as
ready text, as JSON numbers or as tables of bytes.

## Trusted items

The library calls `serde_json`, `toml` and `png`. What it believes of them stands in
`src/json.rs`, `src/document.rs` and `src/screenshot.rs`, in the functions marked
`#[verifier::external_body]`. Of the standard library it adds one fact to what Verus
knows: what `String::push` does, in `src/text.rs`. Everything else is proved.
