# airbattery

A local-first Bluetooth battery monitor whose core is verified with Verus.
Missing values stay unavailable, stale values are labelled, and one
aggregate percentage is never split into invented left, right or case values.

## Layout

- `src/` — the verified library:
  - protocol parsing: `airpods` (proximity-pairing advertisements),
    `accessory` (exact accessory notifications), `accessory_link` (the
    accessory channel session), `providers`;
  - normalization: `resolver`, `freshness`, `registry`, `processor`,
    `engine`, `classification`, and `replay` (why delivering the same
    observations twice leaves the registry where the first delivery left it);
  - platforms: `bluez` (snapshots, correlation, monitors), `windows`
    (paired devices and advertisements), `platform` (backend failures and
    collections);
  - presentation and state: `tray`, `tray_icon`, `desktop`, `state`,
    `settings`, `dbus`, `export`, `cli`, `diagnostics`;
  - supporting collections and text: `store`, `companies` (manufacturer
    payloads in a `BTreeMap` by company), `entries`, `text`, `timestamp`.
- `tests/` — behaviour tests run against the compiled library.
- `app/` — the host program: command-line diagnostics, the headless runtime
  with its `BlueZ` backend and session-bus service, settings files and JSON
  shapes of library values.
