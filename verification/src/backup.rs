//! Backups: which files go into a snapshot and where, where a backup may
//! live, what a backup record says, and which old snapshots the retention
//! rule removes.

use vstd::prelude::*;
use crate::paths::{
    path_extension, path_strip_prefix, path_join, path_starts_with, extension_chars,
    strip_path_prefix, join_paths, path_has_prefix,
};
use crate::scan::aedt_extension;
use crate::text::{
    same_chars, same_text, string_of, decimal, decimal_chars, zero_pad, zero_padded, is_ascii_digit,
    lemma_decimal_len, lemma_decimal_digits, digits_value, NumberError, lemma_digits_value_decimal,
    lemma_leading_zero,
};
use crate::clock::{LocalNow, read_local_clock};
use crate::types::{BackupRecord, Timestamp};

verus! {

broadcast use vstd::string::group_string_axioms;

/// Why a backup step was refused.
#[derive(Clone, Copy, Debug, PartialEq, Eq, Structural)]
pub enum BackupError {
    /// A walked file does not lie under the repository root.
    PrefixNotFound,
    /// The backup folder lies inside the repository it backs up.
    InsideRepository,
}

/// The status text `success`.
pub open spec fn success_text() -> Seq<char> {
    seq!['s', 'u', 'c', 'c', 'e', 's', 's']
}

/// The status text `failed`.
pub open spec fn failed_text() -> Seq<char> {
    seq!['f', 'a', 'i', 'l', 'e', 'd']
}

/// The status recorded for a run that succeeded or failed.
pub open spec fn status_text(succeeded: bool) -> Seq<char> {
    if succeeded {
        success_text()
    } else {
        failed_text()
    }
}

/// `success` or `failed`.
pub fn run_status(succeeded: bool) -> (s: String)
    ensures
        s@ == status_text(succeeded),
{
    if succeeded {
        let v = vec!['s', 'u', 'c', 'c', 'e', 's', 's'];
        assert(v@ =~= success_text());
        string_of(&v)
    } else {
        let v = vec!['f', 'a', 'i', 'l', 'e', 'd'];
        assert(v@ =~= failed_text());
        string_of(&v)
    }
}

/// A backup copies the file at `p` when its extension is exactly `aedt`.
pub open spec fn is_backup_source_path(p: Seq<char>) -> bool {
    path_extension(p) == Some(aedt_extension())
}

/// What a backup does with a walked entry: nothing for a folder or a file
/// that is not an `.aedt` file; for an `.aedt` file, the copy's path, which
/// keeps the file's place relative to the repository root inside the
/// snapshot folder.
pub open spec fn backup_step_spec(
    repo_root: Seq<char>,
    snapshot_dir: Seq<char>,
    p: Seq<char>,
    is_file: bool,
) -> Result<Option<Seq<char>>, BackupError> {
    if !is_file || !is_backup_source_path(p) {
        Ok(None)
    } else {
        match path_strip_prefix(p, repo_root) {
            None => Err(BackupError::PrefixNotFound),
            Some(rel) => Ok(Some(path_join(snapshot_dir, rel))),
        }
    }
}

/// Whether the file at `path` is one a backup copies (extension exactly
/// `aedt`).
pub fn is_backup_source(path: &str) -> (r: bool)
    ensures
        r == is_backup_source_path(path@),
{
    match extension_chars(path) {
        Some(e) => {
            let lit = vec!['a', 'e', 'd', 't'];
            assert(lit@ =~= aedt_extension());
            same_chars(&e, &lit)
        },
        None => false,
    }
}

/// Where a backup of `repo_root` into `snapshot_dir` copies the walked
/// entry at `path`, if it copies it.
pub fn backup_target(repo_root: &str, snapshot_dir: &str, path: &str, is_file: bool) -> (r: Result<
    Option<String>,
    BackupError,
>)
    ensures
        r matches Ok(Some(t)) ==> backup_step_spec(repo_root@, snapshot_dir@, path@, is_file)
            == Ok::<Option<Seq<char>>, BackupError>(Some(t@)),
        r matches Ok(None) ==> backup_step_spec(repo_root@, snapshot_dir@, path@, is_file)
            == Ok::<Option<Seq<char>>, BackupError>(None),
        r matches Err(e) ==> backup_step_spec(repo_root@, snapshot_dir@, path@, is_file) == Err::<
            Option<Seq<char>>,
            BackupError,
        >(e),
{
    if !is_file || !is_backup_source(path) {
        return Ok(None);
    }
    match strip_path_prefix(path, repo_root) {
        None => Err(BackupError::PrefixNotFound),
        Some(rel) => Ok(Some(join_paths(snapshot_dir, rel.as_str()))),
    }
}

/// Refuses a backup folder inside the repository: both paths as the file
/// system resolves them.
pub fn check_backup_location(repo_root: &str, backup_root: &str) -> (r: Result<(), BackupError>)
    ensures
        r is Err <==> path_starts_with(backup_root@, repo_root@),
        r matches Err(e) ==> e == BackupError::InsideRepository,
{
    if path_has_prefix(backup_root, repo_root) {
        Err(BackupError::InsideRepository)
    } else {
        Ok(())
    }
}

/// The folder of snapshot `snapshot_name` under `backup_root`.
pub fn backup_snapshot_path(backup_root: &str, snapshot_name: &str) -> (p: String)
    ensures
        p@ == path_join(backup_root@, snapshot_name@),
{
    join_paths(backup_root, snapshot_name)
}

/// chrono's `%Y`: the year zero-padded to four digits, with a sign when
/// it is before year 0 or after 9999.
pub open spec fn year_text(y: int) -> Seq<char> {
    if 0 <= y <= 9999 {
        zero_padded(decimal(y as nat), 4)
    } else if y < 0 {
        seq!['-'] + zero_padded(decimal((-y) as nat), 4)
    } else {
        seq!['+'] + zero_padded(decimal(y as nat), 4)
    }
}

/// chrono's `%m`, `%d`, `%H`, `%M`, `%S`: two digits.
pub open spec fn two_digits(n: int) -> Seq<char> {
    zero_padded(decimal(n as nat), 2)
}

/// `HFSS_Backup_`.
pub open spec fn snapshot_prefix() -> Seq<char> {
    seq!['H', 'F', 'S', 'S', '_', 'B', 'a', 'c', 'k', 'u', 'p', '_']
}

/// The local date and time of a clock reading as `%Y%m%d_%H%M%S`.
pub open spec fn snapshot_stamp(now: LocalNow) -> Seq<char> {
    year_text(now.year as int) + two_digits(now.month as int) + two_digits(now.day as int) + seq![
        '_',
    ] + two_digits(now.hour as int) + two_digits(now.minute as int) + two_digits(
        now.second as int,
    )
}

/// The name of the snapshot taken at the clock reading `now`.
pub open spec fn snapshot_name_of(now: LocalNow) -> Seq<char> {
    snapshot_prefix() + snapshot_stamp(now)
}

/// A two-digit field of the stamp.
fn two_digit_chars(n: u32) -> (v: Vec<char>)
    ensures
        v@ == two_digits(n as int),
{
    zero_pad(decimal_chars(n), 2)
}

/// The year field of the stamp.
fn year_chars(y: i32) -> (v: Vec<char>)
    requires
        y > i32::MIN,
    ensures
        v@ == year_text(y as int),
{
    if 0 <= y && y <= 9999 {
        zero_pad(decimal_chars(y as u32), 4)
    } else if y < 0 {
        let digits = zero_pad(decimal_chars((-y) as u32), 4);
        let mut v = vec!['-'];
        let mut i: usize = 0;
        while i < digits.len()
            invariant
                i <= digits.len(),
                v@ == seq!['-'] + digits@.take(i as int),
            decreases digits.len() - i,
        {
            v.push(digits[i]);
            i += 1;
            assert(v@ =~= seq!['-'] + digits@.take(i as int));
        }
        assert(digits@.take(digits.len() as int) =~= digits@);
        v
    } else {
        let digits = zero_pad(decimal_chars(y as u32), 4);
        let mut v = vec!['+'];
        let mut i: usize = 0;
        while i < digits.len()
            invariant
                i <= digits.len(),
                v@ == seq!['+'] + digits@.take(i as int),
            decreases digits.len() - i,
        {
            v.push(digits[i]);
            i += 1;
            assert(v@ =~= seq!['+'] + digits@.take(i as int));
        }
        assert(digits@.take(digits.len() as int) =~= digits@);
        v
    }
}

/// `a` followed by `b`.
fn append_chars(a: &mut Vec<char>, b: Vec<char>)
    ensures
        final(a)@ == old(a)@ + b@,
{
    let ghost start = a@;
    let mut i: usize = 0;
    while i < b.len()
        invariant
            i <= b.len(),
            a@ == start + b@.take(i as int),
        decreases b.len() - i,
    {
        a.push(b[i]);
        i += 1;
        assert(a@ =~= start + b@.take(i as int));
    }
    assert(b@.take(b.len() as int) =~= b@);
}

/// The name of the snapshot taken at the clock reading `now`:
/// `HFSS_Backup_` and the local date and time as `YYYYmmdd_HHMMSS` (chrono's
/// `%Y%m%d_%H%M%S`).
pub fn snapshot_name_at(now: &LocalNow) -> (name: String)
    requires
        now.wf(),
    ensures
        name@ == snapshot_name_of(*now),
{
    let mut v = vec!['H', 'F', 'S', 'S', '_', 'B', 'a', 'c', 'k', 'u', 'p', '_'];
    assert(v@ =~= snapshot_prefix());
    append_chars(&mut v, year_chars(now.year));
    append_chars(&mut v, two_digit_chars(now.month));
    append_chars(&mut v, two_digit_chars(now.day));
    append_chars(&mut v, vec!['_']);
    append_chars(&mut v, two_digit_chars(now.hour));
    append_chars(&mut v, two_digit_chars(now.minute));
    append_chars(&mut v, two_digit_chars(now.second));
    assert(v@ =~= snapshot_name_of(*now));
    string_of(&v)
}

/// The name of a snapshot taken now: the name for a reading of the local
/// clock.
pub fn new_snapshot_name() -> (name: String)
    ensures
        exists|now: LocalNow| now.wf() && name@ == snapshot_name_of(now),
{
    let now = read_local_clock();
    snapshot_name_at(&now)
}

/// For a year from 1000 to 9999 the name is `HFSS_Backup_` and 15
/// characters: eight digits, `_`, six digits.
pub proof fn lemma_snapshot_name_layout(now: LocalNow)
    requires
        now.wf(),
        1000 <= now.year <= 9999,
    ensures
        snapshot_name_of(now).len() == 27,
        snapshot_name_of(now).subrange(0, 12) == snapshot_prefix(),
        snapshot_name_of(now)[20] == '_',
        forall|i: int| 12 <= i < 27 && i != 20 ==> is_ascii_digit(#[trigger] snapshot_name_of(now)[i]),
{
    lemma_decimal_len(now.year as nat);
    lemma_decimal_len(now.month as nat);
    lemma_decimal_len(now.day as nat);
    lemma_decimal_len(now.hour as nat);
    lemma_decimal_len(now.minute as nat);
    lemma_decimal_len(now.second as nat);
    lemma_two_digits(now.month as nat);
    lemma_two_digits(now.day as nat);
    lemma_two_digits(now.hour as nat);
    lemma_two_digits(now.minute as nat);
    lemma_two_digits(now.second as nat);
    lemma_decimal_digits(now.year as nat);
    let name = snapshot_name_of(now);
    let y = year_text(now.year as int);
    assert(y == decimal(now.year as nat));
    assert forall|i: int| 12 <= i < 27 && i != 20 implies is_ascii_digit(#[trigger] name[i]) by {
        if i < 16 {
            assert(name[i] == y[i - 12]);
        } else if i < 18 {
            assert(name[i] == two_digits(now.month as int)[i - 16]);
        } else if i < 20 {
            assert(name[i] == two_digits(now.day as int)[i - 18]);
        } else if i < 23 {
            assert(name[i] == two_digits(now.hour as int)[i - 21]);
        } else if i < 25 {
            assert(name[i] == two_digits(now.minute as int)[i - 23]);
        } else {
            assert(name[i] == two_digits(now.second as int)[i - 25]);
        }
    }
    assert(name.subrange(0, 12) =~= snapshot_prefix());
}

/// Reading the stamp's fields back as decimal numbers gives the clock
/// reading it was made from: for a year from 1000 to 9999, the characters
/// after `HFSS_Backup_` are the year, month, day, `_`, hour, minute and
/// second of the reading, in that order.
pub proof fn lemma_snapshot_stamp_reads_back(now: LocalNow)
    requires
        now.wf(),
        1000 <= now.year <= 9999,
    ensures
        ({
            let name = snapshot_name_of(now);
            &&& digits_value(name.subrange(12, 16)) == Ok::<u32, NumberError>(now.year as u32)
            &&& digits_value(name.subrange(16, 18)) == Ok::<u32, NumberError>(now.month)
            &&& digits_value(name.subrange(18, 20)) == Ok::<u32, NumberError>(now.day)
            &&& name[20] == '_'
            &&& digits_value(name.subrange(21, 23)) == Ok::<u32, NumberError>(now.hour)
            &&& digits_value(name.subrange(23, 25)) == Ok::<u32, NumberError>(now.minute)
            &&& digits_value(name.subrange(25, 27)) == Ok::<u32, NumberError>(now.second)
        }),
{
    lemma_snapshot_name_layout(now);
    lemma_decimal_len(now.year as nat);
    lemma_digits_value_decimal(now.year as u32);
    lemma_two_digits_value(now.month);
    lemma_two_digits_value(now.day);
    lemma_two_digits_value(now.hour);
    lemma_two_digits_value(now.minute);
    lemma_two_digits_value(now.second);
    let name = snapshot_name_of(now);
    let y = year_text(now.year as int);
    assert(y == decimal(now.year as nat));
    assert(name.subrange(12, 16) =~= y);
    assert(name.subrange(16, 18) =~= two_digits(now.month as int));
    assert(name.subrange(18, 20) =~= two_digits(now.day as int));
    assert(name.subrange(21, 23) =~= two_digits(now.hour as int));
    assert(name.subrange(23, 25) =~= two_digits(now.minute as int));
    assert(name.subrange(25, 27) =~= two_digits(now.second as int));
}

/// A two-digit field reads back as its number.
proof fn lemma_two_digits_value(n: u32)
    requires
        n < 100,
    ensures
        digits_value(two_digits(n as int)) == Ok::<u32, NumberError>(n),
{
    lemma_decimal_len(n as nat);
    lemma_digits_value_decimal(n);
    let d = decimal(n as nat);
    if d.len() == 1 {
        assert(two_digits(n as int) =~= seq!['0'] + d);
        lemma_leading_zero(d);
    } else {
        assert(two_digits(n as int) == d);
    }
}

/// Two-digit fields are two digits.
proof fn lemma_two_digits(n: nat)
    requires
        n < 100,
    ensures
        two_digits(n as int).len() == 2,
        forall|i: int| 0 <= i < 2 ==> is_ascii_digit(#[trigger] two_digits(n as int)[i]),
{
    lemma_decimal_len(n);
    lemma_decimal_digits(n);
    let d = decimal(n);
    let t = two_digits(n as int);
    assert forall|i: int| 0 <= i < 2 implies is_ascii_digit(#[trigger] t[i]) by {
        if d.len() == 1 && i == 1 {
            assert(t[i] == d[0]);
        } else if d.len() == 2 {
            assert(t[i] == d[i]);
        }
    }
}

/// The running count of a backup: files copied and bytes copied.
#[derive(Clone, Copy, Debug, PartialEq, Eq, Structural)]
pub struct BackupTally {
    pub file_count: i64,
    pub total_bytes: i64,
}

impl BackupTally {
    /// Nothing copied yet.
    pub fn new() -> (t: BackupTally)
        ensures
            t.file_count == 0,
            t.total_bytes == 0,
    {
        BackupTally { file_count: 0, total_bytes: 0 }
    }

    /// Whether one more file of `size` bytes can be counted without
    /// overflowing either count.
    pub open spec fn can_add(self, size: i64) -> bool {
        &&& self.file_count < i64::MAX
        &&& i64::MIN <= self.total_bytes + size <= i64::MAX
    }

    /// Whether one more file of `size` bytes can be counted.
    pub fn has_room_for(&self, size: i64) -> (r: bool)
        ensures
            r == self.can_add(size),
    {
        self.file_count < i64::MAX && (if size >= 0 {
            self.total_bytes <= i64::MAX - size
        } else {
            self.total_bytes >= i64::MIN - size
        })
    }

    /// Counts one more copied file of `size` bytes.
    pub fn add_file(&mut self, size: i64)
        requires
            old(self).can_add(size),
        ensures
            final(self).file_count == old(self).file_count + 1,
            final(self).total_bytes == old(self).total_bytes + size,
    {
        self.file_count = self.file_count + 1;
        self.total_bytes = self.total_bytes + size;
    }
}

/// One copied file as the snapshot's index lists it.
#[derive(Clone, Debug)]
pub struct ManifestEntry {
    /// The file copied.
    pub src: String,
    /// Its copy in the snapshot.
    pub dst: String,
    pub size_bytes: i64,
    /// The copy's SHA-256 checksum, when checksums were asked for.
    pub sha256: Option<String>,
}

/// The total size of the listed files.
pub open spec fn sizes_total(files: Seq<ManifestEntry>) -> int
    decreases files.len(),
{
    if files.len() == 0 {
        0
    } else {
        sizes_total(files.drop_last()) + files.last().size_bytes
    }
}

/// A backup in progress: the files copied so far, listed in copy order, and
/// their count and total size.
pub struct BackupProgress {
    pub tally: BackupTally,
    pub files: Vec<ManifestEntry>,
    /// Whether each copy's checksum is recorded.
    pub with_checksum: bool,
}

impl BackupProgress {
    /// The count is the number of listed files, the total their total size,
    /// and a listed file has a checksum exactly when checksums were asked
    /// for.
    pub open spec fn wf(&self) -> bool {
        &&& self.files@.len() == self.tally.file_count
        &&& self.tally.total_bytes == sizes_total(self.files@)
        &&& forall|i: int|
            0 <= i < self.files@.len() ==> ((#[trigger] self.files@[i]).sha256 is Some
                <==> self.with_checksum)
    }

    /// Nothing copied yet.
    pub fn new(with_checksum: bool) -> (p: BackupProgress)
        ensures
            p.wf(),
            p.files@.len() == 0,
            p.tally == (BackupTally { file_count: 0, total_bytes: 0 }),
            p.with_checksum == with_checksum,
    {
        BackupProgress { tally: BackupTally::new(), files: Vec::new(), with_checksum }
    }

    /// Whether a checksum is to be recorded for each copy.
    pub fn wants_checksum(&self) -> (r: bool)
        ensures
            r == self.with_checksum,
    {
        self.with_checksum
    }

    /// Whether one more file of `size` bytes can be counted.
    pub fn has_room_for(&self, size: i64) -> (r: bool)
        ensures
            r == self.tally.can_add(size),
    {
        self.tally.has_room_for(size)
    }

    /// Records the copy of `src` to `dst`, `size_bytes` long, with its
    /// checksum when checksums were asked for.
    pub fn record_copy(&mut self, src: String, dst: String, size_bytes: i64, sha256: Option<String>)
        requires
            old(self).wf(),
            old(self).tally.can_add(size_bytes),
            sha256 is Some <==> old(self).with_checksum,
        ensures
            final(self).wf(),
            final(self).with_checksum == old(self).with_checksum,
            final(self).tally.file_count == old(self).tally.file_count + 1,
            final(self).tally.total_bytes == old(self).tally.total_bytes + size_bytes,
            final(self).files@.len() == old(self).files@.len() + 1,
            forall|i: int| 0 <= i < old(self).files@.len() ==> final(self).files@[i] == old(self).files@[i],
            final(self).files@.last().src@ == src@,
            final(self).files@.last().dst@ == dst@,
            final(self).files@.last().size_bytes == size_bytes,
            final(self).files@.last().sha256 == sha256,
    {
        let ghost old_files = self.files@;
        self.tally.add_file(size_bytes);
        self.files.push(ManifestEntry { src, dst, size_bytes, sha256 });
        assert(self.files@.drop_last() =~= old_files);
    }
}

/// The heading of a snapshot's index: the backup, its repository and
/// snapshot, when the index was written, and the count and total size of
/// the files it lists.
#[derive(Clone, Debug)]
pub struct ManifestSummary {
    pub id: String,
    pub repo_id: String,
    pub snapshot_name: String,
    pub created_at: Timestamp,
    pub file_count: i64,
    pub total_bytes: i64,
}

/// The heading of the index of the backup `progress` describes.
pub fn manifest_summary(
    id: &str,
    repo_id: &str,
    snapshot_name: &str,
    created_at: Timestamp,
    progress: &BackupProgress,
) -> (m: ManifestSummary)
    requires
        progress.wf(),
    ensures
        m.id@ == id@,
        m.repo_id@ == repo_id@,
        m.snapshot_name@ == snapshot_name@,
        m.created_at == created_at,
        m.file_count == progress.files@.len(),
        m.total_bytes == sizes_total(progress.files@),
{
    ManifestSummary {
        id: id.to_string(),
        repo_id: repo_id.to_string(),
        snapshot_name: snapshot_name.to_string(),
        created_at,
        file_count: progress.tally.file_count,
        total_bytes: progress.tally.total_bytes,
    }
}

/// The record of a backup run: `success` when the run succeeded, `failed`
/// otherwise, with the counts it reached.
pub fn backup_record(
    id: String,
    repo_id: &str,
    backup_root: &str,
    snapshot_name: String,
    succeeded: bool,
    started_at: Timestamp,
    finished_at: Timestamp,
    tally: BackupTally,
) -> (r: BackupRecord)
    ensures
        r.id@ == id@,
        r.repo_id@ == repo_id@,
        r.backup_root@ == backup_root@,
        r.snapshot_name@ == snapshot_name@,
        r.status@ == status_text(succeeded),
        r.started_at == started_at,
        r.finished_at == Some(finished_at),
        r.file_count == tally.file_count,
        r.total_bytes == tally.total_bytes,
{
    BackupRecord {
        id,
        repo_id: repo_id.to_string(),
        backup_root: backup_root.to_string(),
        snapshot_name,
        status: run_status(succeeded),
        started_at,
        finished_at: Some(finished_at),
        file_count: tally.file_count,
        total_bytes: tally.total_bytes,
    }
}

// ---------------------------------------------------------------------------
// Retention
// ---------------------------------------------------------------------------

/// A record counts towards the retention of snapshots of `repo_id` under
/// `backup_root`: it belongs to both and its backup succeeded.
pub open spec fn counts_for_retention(r: BackupRecord, repo_id: Seq<char>, backup_root: Seq<char>) -> bool {
    &&& r.repo_id@ == repo_id
    &&& r.backup_root@ == backup_root
    &&& r.status@ == success_text()
}

/// How many of the first `i` records count towards the retention.
pub open spec fn counted_before(
    recs: Seq<BackupRecord>,
    i: int,
    repo_id: Seq<char>,
    backup_root: Seq<char>,
) -> nat
    decreases i,
{
    if i <= 0 {
        0
    } else {
        counted_before(recs, i - 1, repo_id, backup_root) + (if counts_for_retention(
            recs[i - 1],
            repo_id,
            backup_root,
        ) {
            1nat
        } else {
            0nat
        })
    }
}

/// Record `i` of a newest-first list is an expired snapshot: it counts
/// towards the retention and `retention_count` (at least 1) newer counted
/// records come before it.
pub open spec fn is_expired(
    recs: Seq<BackupRecord>,
    i: int,
    repo_id: Seq<char>,
    backup_root: Seq<char>,
    retention_count: i64,
) -> bool {
    &&& retention_count >= 1
    &&& 0 <= i < recs.len()
    &&& counts_for_retention(recs[i], repo_id, backup_root)
    &&& counted_before(recs, i, repo_id, backup_root) >= retention_count
}

/// The positions, in increasing order, of the expired snapshots among
/// `records` (newest first): of the successful backups of `repo_id` under
/// `backup_root`, all but the newest `retention_count`; none when
/// `retention_count` is below 1.
pub fn expired_backup_indices(
    records: &Vec<BackupRecord>,
    repo_id: &str,
    backup_root: &str,
    retention_count: i64,
) -> (r: Vec<usize>)
    ensures
        forall|k: int| 0 <= k < r@.len() ==> is_expired(records@, #[trigger] r@[k] as int, repo_id@, backup_root@, retention_count),
        forall|i: int| is_expired(records@, i, repo_id@, backup_root@, retention_count) ==> r@.contains(i as usize),
        forall|k: int, l: int| 0 <= k < l < r@.len() ==> r@[k] < r@[l],
{
    let mut r: Vec<usize> = Vec::new();
    if retention_count < 1 {
        return r;
    }
    let ok = run_status(true);
    let mut counted: u64 = 0;
    let mut i: usize = 0;
    while i < records.len()
        invariant
            retention_count >= 1,
            ok@ == success_text(),
            i <= records.len(),
            counted == counted_before(records@, i as int, repo_id@, backup_root@),
            counted <= i,
            forall|k: int| 0 <= k < r@.len() ==> is_expired(records@, #[trigger] r@[k] as int, repo_id@, backup_root@, retention_count),
            forall|k: int| 0 <= k < r@.len() ==> #[trigger] r@[k] < i,
            forall|j: int| 0 <= j < i && is_expired(records@, j, repo_id@, backup_root@, retention_count) ==> r@.contains(j as usize),
            forall|k: int, l: int| 0 <= k < l < r@.len() ==> r@[k] < r@[l],
        decreases records.len() - i,
    {
        let rec = &records[i];
        let counts = same_text(rec.repo_id.as_str(), repo_id) && same_text(
            rec.backup_root.as_str(),
            backup_root,
        ) && same_text(rec.status.as_str(), ok.as_str());
        assert(counts == counts_for_retention(records@[i as int], repo_id@, backup_root@));
        if counts {
            if counted >= retention_count as u64 {
                let ghost before = r@;
                r.push(i);
                assert forall|j: int| 0 <= j < i + 1 && is_expired(records@, j, repo_id@, backup_root@, retention_count) implies r@.contains(j as usize) by {
                    if j < i {
                        let w = choose|w: int| 0 <= w < before.len() && before[w] == j as usize;
                        assert(r@[w] == j as usize);
                    } else {
                        assert(r@[before.len() as int] == i);
                    }
                }
            }
            counted = counted + 1;
        } else {
            assert forall|j: int| 0 <= j < i + 1 && is_expired(records@, j, repo_id@, backup_root@, retention_count) implies r@.contains(j as usize) by {
                if j == i {
                    assert(!counts_for_retention(records@[i as int], repo_id@, backup_root@));
                }
            }
        }
        i += 1;
    }
    r
}

/// How many records count towards the retention.
pub open spec fn counted_total(recs: Seq<BackupRecord>, repo_id: Seq<char>, backup_root: Seq<char>) -> nat {
    counted_before(recs, recs.len() as int, repo_id, backup_root)
}

/// The number of expired snapshots among the first `i` records.
pub open spec fn expired_before(
    recs: Seq<BackupRecord>,
    i: int,
    repo_id: Seq<char>,
    backup_root: Seq<char>,
    retention_count: i64,
) -> nat
    decreases i,
{
    if i <= 0 {
        0
    } else {
        expired_before(recs, i - 1, repo_id, backup_root, retention_count) + (if is_expired(
            recs,
            i - 1,
            repo_id,
            backup_root,
            retention_count,
        ) {
            1nat
        } else {
            0nat
        })
    }
}

/// Retention keeps exactly the newest `retention_count` successful
/// snapshots: of `n` of them, `n - retention_count` expire when there are
/// more, none otherwise, and none at all when `retention_count` is below 1.
pub proof fn lemma_retention_count(
    recs: Seq<BackupRecord>,
    repo_id: Seq<char>,
    backup_root: Seq<char>,
    retention_count: i64,
)
    ensures
        retention_count < 1 ==> expired_before(recs, recs.len() as int, repo_id, backup_root, retention_count) == 0,
        retention_count >= 1 ==> expired_before(recs, recs.len() as int, repo_id, backup_root, retention_count)
            == if counted_total(recs, repo_id, backup_root) > retention_count {
                counted_total(recs, repo_id, backup_root) - retention_count
            } else {
                0
            },
{
    lemma_expired_prefix(recs, recs.len() as int, repo_id, backup_root, retention_count);
}

proof fn lemma_expired_prefix(
    recs: Seq<BackupRecord>,
    i: int,
    repo_id: Seq<char>,
    backup_root: Seq<char>,
    retention_count: i64,
)
    requires
        0 <= i <= recs.len(),
    ensures
        retention_count < 1 ==> expired_before(recs, i, repo_id, backup_root, retention_count) == 0,
        retention_count >= 1 ==> expired_before(recs, i, repo_id, backup_root, retention_count)
            == if counted_before(recs, i, repo_id, backup_root) > retention_count {
                counted_before(recs, i, repo_id, backup_root) - retention_count
            } else {
                0
            },
    decreases i,
{
    if i > 0 {
        lemma_expired_prefix(recs, i - 1, repo_id, backup_root, retention_count);
    }
}

/// Every expired snapshot is at most as new as every kept one: in a
/// newest-first list, no expired record started after a counted record
/// that retention keeps.
pub proof fn lemma_retention_keeps_newest(
    recs: Seq<BackupRecord>,
    repo_id: Seq<char>,
    backup_root: Seq<char>,
    retention_count: i64,
    kept: int,
    expired: int,
)
    requires
        forall|a: int, b: int|
            #![trigger recs[a], recs[b]]
            0 <= a < b < recs.len() ==> recs[b].started_at.not_after(recs[a].started_at),
        0 <= kept < recs.len(),
        counts_for_retention(recs[kept], repo_id, backup_root),
        !is_expired(recs, kept, repo_id, backup_root, retention_count),
        is_expired(recs, expired, repo_id, backup_root, retention_count),
    ensures
        recs[expired].started_at.not_after(recs[kept].started_at),
{
    if expired <= kept {
        lemma_counted_monotone(recs, expired, kept, repo_id, backup_root);
        assert(expired == kept) by {
            if expired < kept {
                assert(counted_before(recs, expired + 1, repo_id, backup_root) == counted_before(recs, expired, repo_id, backup_root) + 1);
                lemma_counted_monotone(recs, expired + 1, kept, repo_id, backup_root);
            }
        }
    }
}

/// The records left after removing the expired ones among the first `i`,
/// in their order.
pub open spec fn kept_after_cleanup(
    recs: Seq<BackupRecord>,
    i: int,
    repo_id: Seq<char>,
    backup_root: Seq<char>,
    retention_count: i64,
) -> Seq<BackupRecord>
    decreases i,
{
    if i <= 0 {
        Seq::<BackupRecord>::empty()
    } else {
        let prev = kept_after_cleanup(recs, i - 1, repo_id, backup_root, retention_count);
        if is_expired(recs, i - 1, repo_id, backup_root, retention_count) {
            prev
        } else {
            prev.push(recs[i - 1])
        }
    }
}

/// Counting over a prefix does not look past it.
proof fn lemma_counted_push(
    s: Seq<BackupRecord>,
    x: BackupRecord,
    j: int,
    repo_id: Seq<char>,
    backup_root: Seq<char>,
)
    requires
        0 <= j <= s.len(),
    ensures
        counted_before(s.push(x), j, repo_id, backup_root) == counted_before(s, j, repo_id, backup_root),
    decreases j,
{
    if j > 0 {
        lemma_counted_push(s, x, j - 1, repo_id, backup_root);
        assert(s.push(x)[j - 1] == s[j - 1]);
    }
}

proof fn lemma_kept_prefix(
    recs: Seq<BackupRecord>,
    i: int,
    repo_id: Seq<char>,
    backup_root: Seq<char>,
    retention_count: i64,
)
    requires
        0 <= i <= recs.len(),
    ensures
        ({
            let kept = kept_after_cleanup(recs, i, repo_id, backup_root, retention_count);
            &&& retention_count >= 1 ==> counted_before(kept, kept.len() as int, repo_id, backup_root)
                == if counted_before(recs, i, repo_id, backup_root) < retention_count {
                counted_before(recs, i, repo_id, backup_root) as int
            } else {
                retention_count as int
            }
            &&& forall|j: int| !is_expired(kept, j, repo_id, backup_root, retention_count)
        }),
    decreases i,
{
    if i > 0 {
        lemma_kept_prefix(recs, i - 1, repo_id, backup_root, retention_count);
        let prev = kept_after_cleanup(recs, i - 1, repo_id, backup_root, retention_count);
        let x = recs[i - 1];
        if !is_expired(recs, i - 1, repo_id, backup_root, retention_count) {
            let kept = prev.push(x);
            assert(kept == kept_after_cleanup(recs, i, repo_id, backup_root, retention_count));
            lemma_counted_push(prev, x, prev.len() as int, repo_id, backup_root);
            assert forall|j: int| !is_expired(kept, j, repo_id, backup_root, retention_count) by {
                if 0 <= j < prev.len() {
                    lemma_counted_push(prev, x, j, repo_id, backup_root);
                    assert(kept[j] == prev[j]);
                    assert(!is_expired(prev, j, repo_id, backup_root, retention_count));
                }
            }
        }
    }
}

/// Cleaning up twice removes nothing the second time: among the records
/// left after the expired ones are removed, none is expired.
pub proof fn lemma_cleanup_idempotent(
    recs: Seq<BackupRecord>,
    repo_id: Seq<char>,
    backup_root: Seq<char>,
    retention_count: i64,
)
    ensures
        forall|j: int|
            !is_expired(
                kept_after_cleanup(recs, recs.len() as int, repo_id, backup_root, retention_count),
                j,
                repo_id,
                backup_root,
                retention_count,
            ),
{
    lemma_kept_prefix(recs, recs.len() as int, repo_id, backup_root, retention_count);
}

proof fn lemma_counted_monotone(
    recs: Seq<BackupRecord>,
    a: int,
    b: int,
    repo_id: Seq<char>,
    backup_root: Seq<char>,
)
    requires
        0 <= a <= b <= recs.len(),
    ensures
        counted_before(recs, a, repo_id, backup_root) <= counted_before(recs, b, repo_id, backup_root),
    decreases b - a,
{
    if a < b {
        lemma_counted_monotone(recs, a, b - 1, repo_id, backup_root);
    }
}

} // verus!
