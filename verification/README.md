# MuZap

MuZap manages a DPI-bypass setup on Windows: the `winws.exe` service and its
strategy, the settings in `muzap.ini`, the IP and domain lists, a managed block
in the system `hosts` file, release updates, diagnostics and fixes, and a
tester that ranks the strategies.

## Layout

- `src/` — the library, verified with Verus. Every public function states its
  result in its contract, error messages included; where a result comes from
  an outside crate (text decoding, SHA-256, version order) the contract names
  it. The laws of the library are public proof functions.
  - `text`, `fmt` — string and number formatting the rest is built on.
  - `ini`, `ini_laws` — reading and writing `key=value` entries; a written
    value reads back, and every other entry reads as before.
  - `config_files`, `app`, `params`, `process` — strategies, targets, settings,
    parameter placeholders and command-line splitting.
  - `hosts`, `hosts_laws` — the managed `hosts` block and file encodings; an
    update is undone by a removal and repeating it changes nothing.
  - `muzap` — the manager's screens and commands: settings, strategies, the IP
    list modes, the service, downloads, diagnostics, fixes and menus.
  - `tester` — counting test outcomes, the best strategy, the report, the
    `winws.exe` snapshot and telemetry.
  - `updater`, `updater_laws` — the release updater's decisions.
  - `winws_service` — what the Windows service launches, logs and when it stops.
  - `paths` — finding the MuZap folder.
- `tests/` — tests on concrete values.
- `app/` — the programs around the library: terminal, files, network,
  processes, the registry and the Windows service manager.
