//! Verified core of a snapshot-based home-directory backup tool.

pub mod backup;
pub mod clock;
pub mod config;
pub mod drives;
pub mod forms;
pub mod order;
pub mod paths;
pub mod pending_full;
pub mod properties;
pub mod run_lock;
pub mod scan;
pub mod size;
pub mod split;
pub mod systemd;
pub mod text;
pub mod year_end;

