# diskpulse

The logic of DiskPulse, a disk-space monitor and cleaner, as a Verus library.
The functions in `src/` are verified by Verus; most carry `requires`/`ensures`
contracts that pin down their results, and the properties that span several
calls stand as public `law_*` proof functions beside the code they speak of.

## Layout

- `src/` — the verified library.
  - scanning and analysis: `scanner`, `largefiles`, `duplicates`, `aging`,
    `fileclass`, `fragmentation`, `mft`, `recommendations`
  - cleanup: `risk` (the built-in rules and user overrides), `cleaner`
    (preview, the per-item stop/skip/delete decision, tallies)
  - watching: `watcher` (snapshot diffs, batching), `notify` (Windows,
    inotify and FSEvents change records)
  - forecasting and alerts: `prediction`, `anomaly`, `alert`, `model_manager`
  - scheduling and settings: `scheduler`, `calendar`, `settings`, `service`
  - the hub: `pairing`, `tokens`, `registry`, `hub`, `relay`, `report`
  - storage and platform helpers: `storage`, `platform`, `db`, `cli`,
    `order`, `text`
- `tests/` — tests of the library on concrete values.
- `app/` — the program around the library: file and network I/O, the
  database, the walk of the file system, threads and timers. It hands the
  library plain values and acts on what comes back.

Calls into the Rust standard library or outside crates that Verus cannot read
stand behind small trusted wrappers, each with a doc comment saying what its
contract claims.
