# Bouncer

An input debouncer: it suppresses keyboard and mouse *chatter* (a key or button
down that arrives faster than a human could re-press after that same key's release)
while letting everything else through, with a panic hotkey that drops it into full
pass-through.

The decision logic is a library verified with Verus; the operating-system shell is
ordinary Rust around it.

## Layout

- `src/` — the verified library.
  - `pure_core/` — the engine: the per-key, release-anchored debouncer, the
    edge-triggered panic-chord detector, mode gating, and the hotkey text format
    (`Ctrl+Alt+Shift+F12`) with its parse/display round trip.
  - `config.rs`, `toml_table.rs` — settings and their defensive TOML load/save;
    the TOML itself is read and written by the `toml` crate.
  - `stats.rs` — session counters, the diagnostic ring buffer and the gap
    histogram.
  - `messages.rs` — the commands and reports between the UI and the hook thread.
  - `platform/` — what every OS backend decides around the engine: native key
    codes (evdev, Windows virtual keys) to key identities, the per-event verdict
    and reports, command handling, and the hook-eviction watchdog.
  - `ui/` — the tray model, the settings form, the rebind capture, and the session
    that turns tray/window interactions into actions for the shell.
- `tests/` — tests of the library through its public interface.
- `app/` — the operating-system shell: on Linux a headless daemon (evdev grabs,
  uinput replay, `poll`); on Windows low-level hooks, the single-instance guard,
  start-on-login, and the tray + settings window driven by the library's session;
  on both, the settings file on disk and the tray icon's pixel rendering.

## What is proved

Every public function states its result over a mathematical model (`Seq`, `Set`,
`Map`, views of the data types), and the laws the design relies on are proof
functions: a down is suppressed exactly when it comes within the (capped) threshold
after that key's release; auto-repeat always passes; keys never affect each other;
an up is suppressed only as the pair of a suppressed down (also stated over any
history of calls, with thresholds changing between them); after any history of
calls on an engine, its verdict is its chord detector's and its debouncer's, the
debouncer fed exactly the events that reached it; the engine suppresses
only what it is certain about and passes everything but the chord in Paused and
Panic; the chord toggles once per press; a chord's display text parses back to the
same chord when every key has a name in that format; saved settings load back
unchanged when the thresholds are within the cap and the chord's keys all have
such names; the watchdog reports only on
transitions; the histogram accounts for every sample; and a tray interaction never
turns into an unsaved settings edit, nor persists Panic.
