# uptimebar

The core of UptimeBar, a menu-bar / system-tray uptime notifier, as a library
whose behaviour is specified with `requires` / `ensures` contracts and proved
with Verus.

UptimeBar polls monitoring services (Watch4.me, UptimeRobot, BetterStack,
Healthchecks.io, Uptime Kuma), shows their aggregate status in the tray and
the monitors in a popover, and notifies on every Up/Down edge.

## Layout

- `src/` — the verified library.
  - `state.rs` — the application state: monitor rows, failure counters, poll
    time and the per-provider detail cache, with the transition gate that
    decides which notifications fire. Every operation is stated over the
    state's view.
  - `laws.rs` — properties that span operations (silent first observation,
    edges only between Up and Down, failures never show Down, every table's
    keys stay unique, the detail cache replays and de-duplicates, a 304
    replays the last list, muted monitors' transitions are silenced, ...).
  - `providers/` — the normalized monitor model, errors, the adapter factory
    and one module per service: how its replies are judged and normalized,
    and the URLs it uses.
  - `config.rs`, `commands.rs`, `tray.rs`, `notify.rs`, `browser.rs` — the
    decisions behind settings, commands, the tray icon and tooltip,
    notifications and the browser picker.
  - `text.rs` — string specifications and their executable counterparts.
- `tests/` — tests run against the compiled library.
- `app/` — the Tauri shell: windows, tray, commands, HTTP, persistence and
  the poll loop. It calls the library for every decision.
