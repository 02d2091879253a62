# Aegis Guardian

A desktop security monitor: a core daemon that watches processes, files,
local ports and the clipboard, and two dashboard back ends that list
incidents, manage a port whitelist, check file integrity, quarantine files
and stop processes.

The decisions are a Verus-verified library (`src/`); reading the system and
talking to the user is a thin program around it (`app/`).

## Layout

- `src/text.rs` — verified text helpers (decimal rendering and parsing,
  search, line splitting).
- `src/bindings.rs` — the contracts of the calls into std, `regex`, `sha2`,
  `hex`, `sysinfo`, `dirs` and `chrono`.
- `src/guardian_core/` — the core: incidents, process and port scans,
  clipboard rules, the file baseline, quarantine destinations.
- `src/guardian_ui/` — the guardian dashboard: `lsof` parsing, the whitelist
  clean-up, the quarantine move, process termination, the incident log, and
  merging configuration updates into `config.yaml`.
- `src/ui/` — the security console: protected process termination with
  audit records, directory checksums, the file-integrity baseline and
  report, configuration with custom paths, process mitigation.
- `app/` — `aegis core` runs the daemon; `aegis dashboard <command>` and
  `aegis console <command>` run one dashboard command and print JSON.
- `tests/` — tests of the library on concrete values.
