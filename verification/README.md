# power_plan_pro

A tray utility that switches the Windows power plan with the machine's load:
while the average CPU or GPU load over a window of one-second samples stays
above a threshold it selects a "high load" plan, otherwise a "low load" plan,
with a cooldown between switches, a debounce for requested switches, and a
pause of up to 30 minutes.

Layout:

- `src/` is the library, verified with Verus:
  - `engine.rs`: rule settings and their validation, plan selection, the
    sample window, and the engine state with one step function per event
    (poll, external change, requested switch, pause, evaluation, switch),
    together with the laws that relate them.
  - `power.rs`: reading `powercfg` output (plan lists, the active scheme),
    the guard that keeps one `powercfg` process at a time, error texts.
  - `metrics.rs`: counter paths in UTF-16, GPU engine types and their
    grouping, counter status errors.
  - `tray.rs`: icons, labels and tooltips per plan, and the menu entries.
  - `logging.rs`: calendar dates from day counts, time stamps, log lines.
  - `autostart.rs`, `system.rs`: registry value and scheduled-task commands.
  - `text.rs`: character-level helpers (lines, words, trimming, case,
    number formatting) stated over `Seq<char>`.
- `tests/`: tests of the library on concrete values.
- `app/`: the program around it: the Tauri window and tray, the background
  loop, running `powercfg`, reading performance counters, the registry, the
  log file and the configuration file. Floating-point load figures (averages
  and threshold comparisons) are handled here and handed to the engine as
  booleans.
