# macmon

A keyboard-driven system monitor for macOS: CPU, memory, processes, network and
disk activity in a terminal UI.

The library under `src/` is verified with Verus:

- `models/` — the figures shown (CPU ticks and usage, memory, disk, network,
  processes) and the orders of the process list, with a stable sort proved
  against its specification.
- `system/` — turning raw readings into figures: tick deltas, memory from page
  counts, storage and driver totals, interface totals, CPU time deltas per process.
- `ui/` — text of the panels, byte counts for display, row padding, the screen
  split (through ratatui's layout solver) and the kill confirmation.
- `app.rs` — the monitor's state: how keys move the selection, sort, open details
  and confirm a kill, and how due readings refresh what is shown.

`app/` is the program around it: it reads the kernel counters, computes the
floating-point percentages and rates, draws with ratatui and reads keys with
crossterm.
