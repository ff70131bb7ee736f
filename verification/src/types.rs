//! The records the file manager keeps: repositories, projects, backups,
//! schedules, schedule input and scan progress. Instants are UTC seconds and
//! nanoseconds since the Unix epoch.

use vstd::prelude::*;
use uuid::Uuid;

verus! {

/// An instant: seconds since the Unix epoch (UTC) and the nanoseconds past
/// that second.
#[derive(Clone, Copy, Debug, PartialEq, Eq, Structural)]
pub struct Timestamp {
    pub seconds: i64,
    pub nanos: u32,
}

impl Timestamp {
    /// `self` is not later than `other`.
    pub open spec fn not_after(self, other: Timestamp) -> bool {
        self.seconds < other.seconds || (self.seconds == other.seconds && self.nanos
            <= other.nanos)
    }

    /// The instant at a whole second.
    pub fn at_second(seconds: i64) -> (t: Timestamp)
        ensures
            t.seconds == seconds,
            t.nanos == 0,
    {
        Timestamp { seconds, nanos: 0 }
    }

    /// `self` is not later than `other`.
    pub fn is_not_after(&self, other: &Timestamp) -> (r: bool)
        ensures
            r == self.not_after(*other),
    {
        self.seconds < other.seconds || (self.seconds == other.seconds && self.nanos
            <= other.nanos)
    }
}

/// A folder that holds HFSS projects.
#[derive(Clone, Debug)]
pub struct Repository {
    pub id: String,
    pub name: String,
    pub root_path: String,
    pub created_at: Timestamp,
}

/// A scanned `.aedt` project and the size of its results folder.
#[derive(Clone, Debug)]
pub struct Project {
    pub id: String,
    pub repo_id: String,
    pub project_name: String,
    pub aedt_path: String,
    pub aedt_size_bytes: i64,
    pub results_dir_path: Option<String>,
    pub results_size_bytes: i64,
    pub total_size_bytes: i64,
    pub note: String,
    pub status: String,
    pub last_modified_at: Timestamp,
    pub last_scanned_at: Timestamp,
}

/// One backup snapshot of a repository.
#[derive(Clone, Debug)]
pub struct BackupRecord {
    pub id: String,
    pub repo_id: String,
    pub backup_root: String,
    pub snapshot_name: String,
    pub status: String,
    pub started_at: Timestamp,
    pub finished_at: Option<Timestamp>,
    pub file_count: i64,
    pub total_bytes: i64,
}

/// A backup schedule of a repository.
#[derive(Clone, Debug)]
pub struct SchedulePolicy {
    pub id: String,
    pub repo_id: String,
    pub backup_root: String,
    pub enabled: bool,
    pub policy_type: String,
    pub policy_value: String,
    pub retention_count: i64,
    pub last_run_at: Option<Timestamp>,
    pub last_status: Option<String>,
    pub next_run_at: Option<Timestamp>,
}

/// What a user submits to create or replace a repository's schedule.
#[derive(Clone, Debug)]
pub struct SaveScheduleInput {
    pub repo_id: String,
    pub backup_root: String,
    pub enabled: bool,
    pub policy_type: String,
    pub policy_value: String,
    pub retention_count: i64,
}

/// The outcome of a scan of a repository.
#[derive(Clone, Debug)]
pub struct ScanProgress {
    pub task_id: String,
    pub repo_id: String,
    pub scanned: usize,
    pub total_hint: usize,
    pub done: bool,
    pub message: String,
}

/// `c` is a lowercase hexadecimal digit.
pub open spec fn is_lower_hex(c: char) -> bool {
    ('0' <= c && c <= '9') || ('a' <= c && c <= 'f')
}

/// `s` is a version-4 UUID in its hyphenated lowercase form: 32 lowercase
/// hexadecimal digits in groups of 8-4-4-4-12, version digit `4`, variant
/// digit one of `8`, `9`, `a`, `b`.
pub open spec fn is_uuid_v4_text(s: Seq<char>) -> bool {
    &&& s.len() == 36
    &&& forall|i: int|
        0 <= i < 36 ==> (if i == 8 || i == 13 || i == 18 || i == 23 {
            #[trigger] s[i] == '-'
        } else {
            is_lower_hex(s[i])
        })
    &&& s[14] == '4'
    &&& (s[19] == '8' || s[19] == '9' || s[19] == 'a' || s[19] == 'b')
}

/// A fresh random identifier, `uuid::Uuid::new_v4()` written by its
/// `Display` (hyphenated, lowercase). It is random, so the contract claims
/// what holds of every outcome: the hyphenated form, with the version and
/// variant digits `new_v4` sets.
#[verifier::external_body]
pub(crate) fn new_id() -> (id: String)
    ensures
        is_uuid_v4_text(id@),
{
    Uuid::new_v4().to_string()
}

/// `existing` when there is one, else a fresh random identifier.
pub fn existing_or_new_id(existing: Option<String>) -> (id: String)
    ensures
        existing matches Some(e) ==> id@ == e@,
        existing is None ==> is_uuid_v4_text(id@),
{
    match existing {
        Some(e) => e,
        None => new_id(),
    }
}

} // verus!
