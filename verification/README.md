# My Codex — verified core

`src/` is a Verus library with the rules of the My Codex desktop companion:
token arithmetic, settings validation, the session log parser and its
ingestion bookkeeping, quota classification, refresh scheduling and
notification thresholds. Every public function carries a contract that
Verus proves; the laws of the parser, the scheduler and the notifications
are proof functions next to the code they speak of.

`app/` is the Tauri application around the library: windows, tray, SQLite,
the `codex app-server` child process, floating-point percentages and the
background tasks. `tests/` runs the library with the real outside crates.
