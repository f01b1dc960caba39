# pointeuse

The logic of a desktop and mobile time tracker for Odoo: a timer whose runs
are logged as Odoo timesheet lines, an offline queue that syncs them later,
attendance check-in and check-out, an idle reminder, and live sessions shared
between the user's devices.

- `src/` is the library, written in Verus. Its functions carry contracts
  that Verus proves, except the few small wrappers that call outside code
  (the clock, the OS credential store, chrono, quick-xml, serde_json), whose
  contracts are trusted and explained in their doc comments. The proved
  contracts cover the XML-RPC values sent to Odoo and the reading
  of its replies, the timer engine, the queue's retry and duplicate rules, the
  cross-device session markers and the decisions of the sync loop, the idle
  reminder's cadence, the manual-entry checks, and the caches' freshness.
  `src/laws.rs` gathers the properties that span several calls.
- `tests/` runs the library on concrete values.
- `app/` is the Tauri application around it: commands, SQLite storage, HTTP,
  windows, tray and notifications. It hands the library plain values and acts
  on what comes back.
