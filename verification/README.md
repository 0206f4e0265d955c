# backup_tool

A home-directory backup manager for Linux desktops: rsync snapshots
(`full-…` copies and hardlinked `inc-…` incrementals) on an external drive,
run daily by a systemd user timer, with a GTK4 setup wizard and manager
window.

The decisions and texts of the tool are a Verus-verified library (`src/`);
the program around it (`app/`) runs the processes, touches the files and
draws the windows.

## Layout

- `src/backup.rs` — the snapshot policy: which kind of backup to take, the
  latest snapshot, retention, the space check before a full copy, the rsync
  command line, the summary, and the step-by-step state machines of one run
  (`BackupRun`) and of reaching the destination (`DestResolver`).
- `src/properties.rs` — what holds of every run and of the policy as a
  whole (the run lock comes first, snapshots are atomic and a failed copy's
  staging directory is removed, every run ends, a deferred full snapshot is
  recorded and retried until one succeeds, full snapshots are never pruned
  by age, the newest full snapshots are the ones kept, …).
- `src/config.rs` — the settings, their defaults and the tool's paths.
- `src/drives.rs` — which partitions can hold backups, and the output of
  `lsblk`, `df`, `du`, `findmnt`, `udisksctl` and `id`.
- `src/pending_full.rs`, `src/run_lock.rs` — the retry state of a deferred
  full backup and the run lock.
- `src/systemd.rs` — unit files, launcher entry, bookmark, timer status.
- `src/forms.rs` — what the windows show and read back.
- `src/year_end.rs`, `src/clock.rs` — the new-year archive reminder, dates
  and timestamps.
- `src/size.rs` — human-readable sizes and the space estimate, reproducing
  the floating-point results exactly with integers.
- `src/text.rs`, `src/scan.rs`, `src/split.rs`, `src/order.rs`,
  `src/paths.rs` — character-level text, numbers, lines, ordering and paths.
- `app/` — `main`, the command line (clap), the TOML and JSON files, the
  system tools, and the GTK windows.
