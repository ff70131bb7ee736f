//! Verified core of the HFSS file manager: schedule policies and their next
//! run times, the path rules by which scans find `.aedt` projects and
//! backups copy them, backup bookkeeping and retention, due schedules, and
//! content checksums.

pub mod backup;
pub mod calendar;
pub mod clock;
pub mod digest;
pub mod paths;
pub mod repository;
pub mod scan;
pub mod schema;
pub mod schedule;
pub mod text;
pub mod types;

pub use backup::backup_snapshot_path;
pub use scan::should_enter_scan;
pub use schedule::{compute_next_run, parse_hhmm};
pub use types::{
    BackupRecord, Project, Repository, SaveScheduleInput, ScanProgress, SchedulePolicy, Timestamp,
};
