//! Snapshot policy: which kind of backup to take, which snapshot is the
//! latest, what retention removes, whether there is room for a full copy,
//! and how one backup run proceeds from step to step.

use vstd::prelude::*;
use crate::order::{lex_le, utf8_prefix};
use crate::paths::path_join;
use crate::scan::{ascii_lowercase, eq_ignore_ascii_case};
use crate::split::{index_of, starts_with};
use crate::config::Config;
use crate::text::{chars_of, push_str};

verus! {

/// Which kind of snapshot to create.
#[derive(Debug, Clone, Copy, PartialEq, Eq, Structural)]
pub enum BackupKind {
    /// A fresh snapshot: no `--link-dest`, every file is copied.
    Full,
    /// Uses `--link-dest` pointing at the latest snapshot, hardlinking
    /// unchanged files so only deltas consume additional space.
    Incremental,
    /// Decide automatically: full on the configured day-of-week or when no
    /// full snapshot exists yet; incremental otherwise.
    Auto,
    /// The incremental period has not elapsed since the last snapshot;
    /// exit cleanly without creating a new snapshot.
    Skip,
}

/// The kind a command-line word names, compared without ASCII case.
pub open spec fn backup_kind_named(s: Seq<char>) -> Option<BackupKind> {
    let l = ascii_lowercase(s);
    if l == "full"@ {
        Some(BackupKind::Full)
    } else if l == "incremental"@ || l == "inc"@ {
        Some(BackupKind::Incremental)
    } else if l == "auto"@ {
        Some(BackupKind::Auto)
    } else {
        None
    }
}

/// A word that names no backup kind.
#[derive(Debug, Clone)]
pub struct UnknownBackupKind {
    /// The rejected word, in ASCII lower case.
    pub given: String,
}

impl UnknownBackupKind {
    /// `unknown backup kind '<word>'; use full, incremental, or auto`.
    pub fn message(&self) -> (r: String)
        ensures
            r@ == "unknown backup kind '"@ + self.given@ + "'; use full, incremental, or auto"@,
    {
        let mut r = String::from_str("unknown backup kind '");
        push_str(&mut r, self.given.as_str());
        push_str(&mut r, "'; use full, incremental, or auto");
        r
    }
}

impl BackupKind {
    /// Reads `full`, `incremental` / `inc` or `auto`, in any ASCII case.
    pub fn parse(s: &str) -> (r: Result<BackupKind, UnknownBackupKind>)
        ensures
            match backup_kind_named(s@) {
                Some(k) => r == Ok::<BackupKind, UnknownBackupKind>(k),
                None => r matches Err(e) && e.given@ == ascii_lowercase(s@),
            },
    {
        let v = chars_of(s);
        let l = crate::scan::ascii_lowercase_chars(v.as_slice());
        if crate::text::chars_eq_str(l.as_slice(), "full") {
            Ok(BackupKind::Full)
        } else if crate::text::chars_eq_str(l.as_slice(), "incremental")
            || crate::text::chars_eq_str(l.as_slice(), "inc") {
            Ok(BackupKind::Incremental)
        } else if crate::text::chars_eq_str(l.as_slice(), "auto") {
            Ok(BackupKind::Auto)
        } else {
            Err(UnknownBackupKind { given: crate::text::string_of(l.as_slice()) })
        }
    }
}

impl std::str::FromStr for BackupKind {
    type Err = UnknownBackupKind;

    /// Reads `full`, `incremental` / `inc` or `auto`, in any ASCII case.
    fn from_str(s: &str) -> (r: Result<BackupKind, UnknownBackupKind>)
        ensures
            match backup_kind_named(s@) {
                Some(k) => r == Ok::<BackupKind, UnknownBackupKind>(k),
                None => r matches Err(e) && e.given@ == ascii_lowercase(s@),
            },
    {
        BackupKind::parse(s)
    }
}

// ── Snapshots on the drive ──────────────────────────────────────────────────

/// A directory entry of the backup destination.
#[derive(Debug, Clone)]
pub struct DirEntryInfo {
    /// The entry's file name.
    pub name: String,
    /// Whether the entry is a directory (following symlinks).
    pub is_dir: bool,
}

/// Names of snapshot directories: `full-…` or `inc-…`.
pub open spec fn is_snapshot_name(n: Seq<char>) -> bool {
    starts_with(n, "full-"@) || starts_with(n, "inc-"@)
}

/// An entry that `--link-dest` may point at: a snapshot directory.
pub open spec fn is_snapshot_dir(e: DirEntryInfo) -> bool {
    e.is_dir && is_snapshot_name(e.name@)
}

/// The latest snapshot among `entries`: the greatest name (timestamps sort
/// by name) of a snapshot directory, joined to `dest_root`.
pub open spec fn latest_snapshot_spec(dest_root: Seq<char>, entries: Seq<DirEntryInfo>, r: Option<String>) -> bool {
    match r {
        None => forall|i: int| 0 <= i < entries.len() ==> !is_snapshot_dir(#[trigger] entries[i]),
        Some(p) => exists|i: int| 0 <= i < entries.len() && is_snapshot_dir(#[trigger] entries[i])
            && p@ == path_join(dest_root, entries[i].name@)
            && forall|j: int| 0 <= j < entries.len() && is_snapshot_dir(#[trigger] entries[j])
                ==> lex_le(entries[j].name@, entries[i].name@),
    }
}

fn is_snapshot_name_exec(n: &str) -> (b: bool)
    ensures
        b == is_snapshot_name(n@),
{
    let v = chars_of(n);
    let full = chars_of("full-");
    let inc = chars_of("inc-");
    crate::split::starts_with_exec(v.as_slice(), full.as_slice())
        || crate::split::starts_with_exec(v.as_slice(), inc.as_slice())
}

/// Index of the snapshot directory with the greatest name.
fn latest_index(entries: &Vec<DirEntryInfo>) -> (r: Option<usize>)
    ensures
        r is None ==> forall|i: int| 0 <= i < entries@.len() ==> !is_snapshot_dir(#[trigger] entries@[i]),
        r matches Some(k) ==> k < entries@.len() && is_snapshot_dir(entries@[k as int])
            && forall|j: int| 0 <= j < entries@.len() && is_snapshot_dir(#[trigger] entries@[j])
                ==> lex_le(entries@[j].name@, entries@[k as int].name@),
{
    let mut best: Option<usize> = None;
    let mut i: usize = 0;
    while i < entries.len()
        invariant
            i <= entries@.len(),
            best is None ==> forall|j: int| 0 <= j < i ==> !is_snapshot_dir(#[trigger] entries@[j]),
            best matches Some(k) ==> k < i && is_snapshot_dir(entries@[k as int])
                && forall|j: int| 0 <= j < i && is_snapshot_dir(#[trigger] entries@[j])
                    ==> lex_le(entries@[j].name@, entries@[k as int].name@),
        decreases entries@.len() - i,
    {
        let e = &entries[i];
        if e.is_dir && is_snapshot_name_exec(e.name.as_str()) {
            match best {
                None => {
                    proof { crate::order::lemma_lex_reflexive(e.name@); }
                    best = Some(i);
                }
                Some(k) => {
                    let a = chars_of(entries[k].name.as_str());
                    let b = chars_of(e.name.as_str());
                    if crate::order::lex_le_exec(a.as_slice(), b.as_slice()) {
                        proof {
                            assert forall|j: int| 0 <= j <= i && is_snapshot_dir(#[trigger] entries@[j])
                                implies lex_le(entries@[j].name@, entries@[i as int].name@) by {
                                if j < i {
                                    crate::order::lemma_lex_transitive(entries@[j].name@, entries@[k as int].name@, entries@[i as int].name@);
                                } else {
                                    crate::order::lemma_lex_reflexive(entries@[i as int].name@);
                                }
                            }
                        }
                        best = Some(i);
                    } else {
                        proof { crate::order::lemma_lex_total(a@, b@); }
                    }
                }
            }
        }
        i = i + 1;
    }
    best
}

/// The latest snapshot directory under `dest_root`, for `--link-dest`.
pub fn resolve_latest(dest_root: &str, entries: &Vec<DirEntryInfo>) -> (r: Option<String>)
    ensures
        latest_snapshot_spec(dest_root@, entries@, r),
{
    match latest_index(entries) {
        None => None,
        Some(k) => Some(crate::paths::join_path(dest_root, entries[k].name.as_str())),
    }
}

/// Whether some entry (of any type) is named `full-…`.
pub open spec fn has_full_snapshot(entries: Seq<DirEntryInfo>) -> bool {
    exists|i: int| 0 <= i < entries.len() && starts_with(#[trigger] entries[i].name@, "full-"@)
}

/// Whether a full snapshot exists under the destination.
pub fn full_snapshot_exists(entries: &Vec<DirEntryInfo>) -> (b: bool)
    ensures
        b == has_full_snapshot(entries@),
{
    let full = chars_of("full-");
    let mut i: usize = 0;
    while i < entries.len()
        invariant
            i <= entries@.len(),
            forall|j: int| 0 <= j < i ==> !starts_with(#[trigger] entries@[j].name@, "full-"@),
            full@ == "full-"@,
        decreases entries@.len() - i,
    {
        let v = chars_of(entries[i].name.as_str());
        if crate::split::starts_with_exec(v.as_slice(), full.as_slice()) {
            return true;
        }
        i = i + 1;
    }
    false
}

// ── Automatic choice between full and incremental ───────────────────────────

/// The ten characters of a snapshot name after its first `-` that take ten
/// bytes (`name.get(start..start + 10)` for the date `YYYY-MM-DD`).
pub open spec fn snapshot_date_text(name: Seq<char>) -> Option<Seq<char>> {
    let i = index_of(name, '-');
    if i < name.len() {
        utf8_prefix(name.skip(i as int + 1), 10)
    } else {
        None
    }
}

/// The day number (days since the start of the common era, 0001-01-01 being
/// day 1) of the date chrono reads from `text` in the format `%Y-%m-%d`.
pub uninterp spec fn chrono_ymd_day(text: Seq<char>) -> Option<i32>;

/// `chrono::NaiveDate::parse_from_str(text, "%Y-%m-%d")`; the date is
/// handed back as its day number (`Datelike::num_days_from_ce`), which
/// identifies it.  Nothing is claimed about which texts chrono accepts.
#[verifier::external_body]
fn parse_ymd_day(text: &str) -> (r: Option<i32>)
    ensures
        r == chrono_ymd_day(text@),
{
    chrono::NaiveDate::parse_from_str(text, "%Y-%m-%d").ok().map(|d| chrono::Datelike::num_days_from_ce(&d))
}

/// The date in a snapshot name (`full-YYYY-MM-DD_HHmmss`), as a day number.
pub fn snapshot_day(name: &str) -> (r: Option<i32>)
    ensures
        r == (match snapshot_date_text(name@) {
            Some(t) => chrono_ymd_day(t),
            None => None,
        }),
{
    let v = chars_of(name);
    let i = crate::split::index_of_from(v.as_slice(), '-', 0);
    assert(v@.skip(0) =~= v@);
    if i == v.len() {
        return None;
    }
    match crate::order::utf8_prefix_from(v.as_slice(), i + 1, 10) {
        None => None,
        Some(t) => {
            let text = crate::text::string_of(t.as_slice());
            parse_ymd_day(text.as_str())
        }
    }
}

/// Today as the backup sees it.
#[derive(Debug, Clone, Copy, PartialEq, Eq, Structural)]
pub struct Today {
    /// Day number of today's date (days since the start of the common era,
    /// 0001-01-01 being day 1).
    pub day: i32,
}

/// The full English name of the weekday of day number `day`, as `%A`
/// prints it: day 1 (0001-01-01) is a Monday.
pub open spec fn weekday_of_day(day: int) -> Seq<char> {
    crate::forms::weekdays()[(day - 1) % 7]
}

/// The weekday name of a day number.
pub fn weekday_name(day: i32) -> (r: &'static str)
    ensures
        r@ == weekday_of_day(day as int),
{
    let shifted: i64 = day as i64 - 1 + 2147483653;
    let k: u64 = (shifted as u64) % 7;
    assert((shifted as int) % 7 == ((day as int) - 1) % 7) by {
        vstd::arithmetic::div_mod::lemma_mod_multiples_vanish(306783379, (day as int) - 1, 7);
        assert(7 * 306783379 + ((day as int) - 1) == shifted as int);
    }
    let names = crate::forms::weekday_names();
    names[k as usize]
}

/// The automatic choice: full on the configured weekday, when there is no
/// full snapshot yet, or while an earlier full snapshot is still owed
/// (`pending_full`: it was deferred for lack of space); otherwise skip while
/// the latest snapshot is younger than the incremental period (at least one
/// day), else incremental.
pub open spec fn auto_decision(is_full_day: bool, full_exists: bool, pending_full: bool, latest_day: Option<i32>, today: i32, period: u32) -> BackupKind {
    if is_full_day || !full_exists || pending_full {
        BackupKind::Full
    } else {
        match latest_day {
            Some(d) => if (today as int) - (d as int) < (if period < 1 { 1 } else { period as int }) {
                BackupKind::Skip
            } else {
                BackupKind::Incremental
            },
            None => BackupKind::Incremental,
        }
    }
}

/// The automatic choice, from what was observed.
pub fn decide_auto_kind(is_full_day: bool, full_exists: bool, pending_full: bool, latest_day: Option<i32>, today: i32, period: u32) -> (k: BackupKind)
    ensures
        k == auto_decision(is_full_day, full_exists, pending_full, latest_day, today, period),
{
    if is_full_day || !full_exists || pending_full {
        return BackupKind::Full;
    }
    let p: i64 = if period < 1 { 1 } else { period as i64 };
    match latest_day {
        Some(d) => {
            let days_since = today as i64 - d as i64;
            if days_since < p { BackupKind::Skip } else { BackupKind::Incremental }
        }
        None => BackupKind::Incremental,
    }
}

/// `entries[k]` is a snapshot directory with the greatest name.
pub open spec fn is_latest(entries: Seq<DirEntryInfo>, k: int) -> bool {
    0 <= k < entries.len() && is_snapshot_dir(entries[k])
        && forall|j: int| 0 <= j < entries.len() && is_snapshot_dir(#[trigger] entries[j])
            ==> lex_le(entries[j].name@, entries[k].name@)
}

/// The date of the latest snapshot, as chrono reads it from its name.
pub open spec fn latest_snapshot_day(entries: Seq<DirEntryInfo>) -> Option<i32> {
    if exists|k: int| is_latest(entries, k) {
        let k = choose|k: int| is_latest(entries, k);
        match snapshot_date_text(entries[k].name@) {
            Some(t) => chrono_ymd_day(t),
            None => None,
        }
    } else {
        None
    }
}

/// Decide the backup kind from the day of week, the snapshots present,
/// whether a deferred full snapshot is still owed, and the configured
/// incremental period.
pub fn auto_kind(config: &Config, today: &Today, entries: &Vec<DirEntryInfo>, pending_full: bool) -> (k: BackupKind)
    ensures
        k == auto_decision(
            eq_ignore_ascii_case(weekday_of_day(today.day as int), config.full_backup_day@),
            has_full_snapshot(entries@),
            pending_full,
            latest_snapshot_day(entries@),
            today.day,
            config.incremental_every_n_days,
        ),
{
    let is_full_day = crate::scan::str_eq_ignore_ascii_case(weekday_name(today.day), config.full_backup_day.as_str());
    let full_exists = full_snapshot_exists(entries);
    let latest = match latest_index(entries) {
        None => None,
        Some(i) => {
            proof {
                assert(is_latest(entries@, i as int));
                let k = choose|k: int| is_latest(entries@, k);
                crate::order::lemma_lex_antisymmetric(entries@[k].name@, entries@[i as int].name@);
            }
            snapshot_day(entries[i].name.as_str())
        }
    };
    decide_auto_kind(is_full_day, full_exists, pending_full, latest, today.day, config.incremental_every_n_days)
}

// ── Retention ───────────────────────────────────────────────────────────────

/// A destination entry with its modification time, for retention.
#[derive(Debug, Clone)]
pub struct EntryAge {
    /// The entry's file name.
    pub name: String,
    /// Modification time in nanoseconds since the Unix epoch, `None` when
    /// the metadata could not be read.
    pub modified_ns: Option<i128>,
}

/// Retention removes an entry when it is an incremental snapshot (`inc-…`)
/// whose modification time is known and earlier than the cutoff.
pub open spec fn retention_removes(e: EntryAge, cutoff_ns: i128) -> bool {
    &&& starts_with(e.name@, "inc-"@)
    &&& (e.modified_ns matches Some(m) && m < cutoff_ns)
}

/// Names of the entries retention removes, in directory order.
pub open spec fn retention_victims_spec(entries: Seq<EntryAge>, cutoff_ns: i128) -> Seq<Seq<char>>
    decreases entries.len(),
{
    if entries.len() == 0 {
        seq![]
    } else {
        let rest = retention_victims_spec(entries.drop_last(), cutoff_ns);
        if retention_removes(entries.last(), cutoff_ns) {
            rest.push(entries.last().name@)
        } else {
            rest
        }
    }
}

/// The incremental snapshots older than the cutoff; full snapshots are
/// never chosen.
pub fn retention_victims(entries: &Vec<EntryAge>, cutoff_ns: i128) -> (r: Vec<String>)
    ensures
        crate::config::string_views(r@) == retention_victims_spec(entries@, cutoff_ns),
{
    let inc = chars_of("inc-");
    let mut r: Vec<String> = Vec::new();
    let mut i: usize = 0;
    while i < entries.len()
        invariant
            i <= entries@.len(),
            inc@ == "inc-"@,
            crate::config::string_views(r@) == retention_victims_spec(entries@.take(i as int), cutoff_ns),
        decreases entries@.len() - i,
    {
        let e = &entries[i];
        let v = chars_of(e.name.as_str());
        let old_i = i;
        let is_inc = crate::split::starts_with_exec(v.as_slice(), inc.as_slice());
        let old_enough = match e.modified_ns {
            Some(m) => m < cutoff_ns,
            None => false,
        };
        proof {
            assert(entries@.take(i + 1).drop_last() =~= entries@.take(i as int));
            assert(entries@.take(i + 1).last() == entries@[i as int]);
        }
        if is_inc && old_enough {
            let ghost old_r = r@;
            r.push(e.name.clone());
            assert(crate::config::string_views(r@) =~= crate::config::string_views(old_r).push(e.name@));
        }
        i = i + 1;
    }
    assert(entries@.take(entries@.len() as int) =~= entries@);
    r
}

/// Log line for a snapshot that retention removed, or failed to remove.
pub fn retention_log_line(ts: &str, name: &str, error: &Option<String>) -> (r: String)
    ensures
        r@ == (match *error {
            None => "["@ + ts@ + "] Retention: removed "@ + name@,
            Some(e) => "["@ + ts@ + "] WARNING: could not remove old snapshot "@ + name@ + ": "@ + e@,
        }),
{
    let mut r = String::from_str("[");
    push_str(&mut r, ts);
    match error {
        None => {
            push_str(&mut r, "] Retention: removed ");
            push_str(&mut r, name);
        }
        Some(e) => {
            push_str(&mut r, "] WARNING: could not remove old snapshot ");
            push_str(&mut r, name);
            push_str(&mut r, ": ");
            push_str(&mut r, e.as_str());
        }
    }
    r
}

// ── After a full snapshot ───────────────────────────────────────────────────

/// A full snapshot directory.
pub open spec fn is_full_dir(e: DirEntryInfo) -> bool {
    e.is_dir && starts_with(e.name@, "full-"@)
}

/// An incremental snapshot directory.
pub open spec fn is_inc_dir(e: DirEntryInfo) -> bool {
    e.is_dir && starts_with(e.name@, "inc-"@)
}

/// How many full snapshot directories among `entries` sort after `name`
/// (are newer: the names carry the timestamps).
pub open spec fn newer_fulls(entries: Seq<DirEntryInfo>, name: Seq<char>) -> nat
    decreases entries.len(),
{
    if entries.len() == 0 {
        0
    } else {
        newer_fulls(entries.drop_last(), name)
            + (if is_full_dir(entries.last()) && crate::order::lex_lt(name, entries.last().name@) { 1nat } else { 0nat })
    }
}

/// Once a full snapshot succeeded, the incrementals of the cycle it closes
/// go; and with a positive limit, so does every full snapshot that has at
/// least `keep_full` newer ones (0 keeps them all).
pub open spec fn after_full_removes(entries: Seq<DirEntryInfo>, e: DirEntryInfo, keep_full: u32) -> bool {
    is_inc_dir(e) || (keep_full > 0 && is_full_dir(e) && newer_fulls(entries, e.name@) >= keep_full)
}

/// Names of the first `n` entries that go after a full snapshot, in order.
pub open spec fn after_full_victims_upto(entries: Seq<DirEntryInfo>, n: nat, keep_full: u32) -> Seq<Seq<char>>
    decreases n,
{
    if n == 0 || n > entries.len() {
        seq![]
    } else {
        let rest = after_full_victims_upto(entries, (n - 1) as nat, keep_full);
        if after_full_removes(entries, entries[n - 1], keep_full) {
            rest.push(entries[n - 1].name@)
        } else {
            rest
        }
    }
}

fn count_newer_fulls(entries: &Vec<DirEntryInfo>, name: &[char]) -> (r: u64)
    requires
        entries@.len() < u64::MAX,
    ensures
        r == newer_fulls(entries@, name@),
{
    let full = chars_of("full-");
    let mut c: u64 = 0;
    let mut j: usize = 0;
    while j < entries.len()
        invariant
            j <= entries@.len(),
            entries@.len() < u64::MAX,
            full@ == "full-"@,
            c == newer_fulls(entries@.take(j as int), name@),
            c <= j,
        decreases entries@.len() - j,
    {
        proof {
            assert(entries@.take(j + 1).drop_last() =~= entries@.take(j as int));
            assert(entries@.take(j + 1).last() == entries@[j as int]);
        }
        let e = &entries[j];
        let v = chars_of(e.name.as_str());
        if e.is_dir && crate::split::starts_with_exec(v.as_slice(), full.as_slice()) {
            let le = crate::order::lex_le_exec(name, v.as_slice());
            let same = crate::text::chars_eq(name, v.as_slice());
            if le && !same {
                c = c + 1;
            }
        }
        j = j + 1;
    }
    assert(entries@.take(entries@.len() as int) =~= entries@);
    c
}

/// The snapshot directories to remove after a full snapshot succeeded:
/// every incremental, and the full snapshots beyond the newest `keep_full`
/// (none when `keep_full` is 0).
pub fn after_full_victims(entries: &Vec<DirEntryInfo>, keep_full: u32) -> (r: Vec<String>)
    requires
        entries@.len() < u64::MAX,
    ensures
        crate::config::string_views(r@) == after_full_victims_upto(entries@, entries@.len(), keep_full),
{
    let full = chars_of("full-");
    let inc = chars_of("inc-");
    let mut r: Vec<String> = Vec::new();
    let mut i: usize = 0;
    while i < entries.len()
        invariant
            i <= entries@.len(),
            entries@.len() < u64::MAX,
            full@ == "full-"@,
            inc@ == "inc-"@,
            crate::config::string_views(r@) == after_full_victims_upto(entries@, i as nat, keep_full),
        decreases entries@.len() - i,
    {
        let e = &entries[i];
        let v = chars_of(e.name.as_str());
        let goes = if e.is_dir && crate::split::starts_with_exec(v.as_slice(), inc.as_slice()) {
            true
        } else if keep_full > 0 && e.is_dir && crate::split::starts_with_exec(v.as_slice(), full.as_slice()) {
            count_newer_fulls(entries, v.as_slice()) >= keep_full as u64
        } else {
            false
        };
        if goes {
            let ghost old_r = r@;
            r.push(e.name.clone());
            assert(crate::config::string_views(r@) =~= crate::config::string_views(old_r).push(e.name@));
        }
        i = i + 1;
    }
    r
}

// ── The operational log ─────────────────────────────────────────────────────

/// A line the tool itself wrote to its log: it starts with `[` and a timestamp.
pub open spec fn is_operational_line(l: Seq<char>) -> bool {
    l.len() > 0 && l[0] == '['
}

/// The operational lines of `ls`, each followed by a newline, in order.
pub open spec fn operational_text(ls: Seq<Seq<char>>) -> Seq<char>
    decreases ls.len(),
{
    if ls.len() == 0 {
        seq![]
    } else if is_operational_line(ls.last()) {
        operational_text(ls.drop_last()) + ls.last() + seq!['\n']
    } else {
        operational_text(ls.drop_last())
    }
}

/// What a successful full snapshot archives of the active log: its
/// operational lines (rsync's per-file detail is left out).
pub fn archived_log_text(log: &str) -> (r: String)
    ensures
        r@ == operational_text(crate::split::lines(log@)),
{
    let v = chars_of(log);
    let ls = crate::split::lines_exec(v.as_slice());
    let ghost lv = crate::split::views(ls@);
    let mut r = String::new();
    let mut i: usize = 0;
    while i < ls.len()
        invariant
            i <= ls@.len(),
            lv == crate::split::views(ls@),
            r@ == operational_text(lv.take(i as int)),
        decreases ls@.len() - i,
    {
        proof {
            assert(lv.take(i + 1).drop_last() =~= lv.take(i as int));
            assert(lv.take(i + 1).last() == ls@[i as int]@);
        }
        if ls[i].len() > 0 && ls[i][0] == '[' {
            crate::text::push_chars(&mut r, ls[i].as_slice());
            crate::text::push_char(&mut r, '\n');
        }
        i = i + 1;
    }
    assert(lv.take(ls@.len() as int) =~= lv);
    r
}

/// Where a full snapshot keeps the log of the cycle it closes:
/// `.backup-tool/backup.log` inside the snapshot.
pub fn archived_log_path(final_dir: &str) -> (p: String)
    ensures
        p@ == path_join(path_join(final_dir@, ".backup-tool"@), "backup.log"@),
{
    let d = crate::paths::join_path(final_dir, ".backup-tool");
    crate::paths::join_path(d.as_str(), "backup.log")
}

/// What a successful full snapshot does with the active log: where the
/// archive goes and what it holds, and what the active log holds after.
#[derive(Debug)]
pub struct LogRotation {
    /// `.backup-tool/backup.log` inside the new full snapshot.
    pub archive_path: String,
    /// The operational lines of the active log.
    pub archive_text: String,
    /// The new contents of the active log.
    pub active_text: String,
}

/// Log rotation after a full snapshot in `final_dir`, given the text of the
/// active log: its operational lines are archived inside the snapshot and
/// the active log is truncated.
pub fn rotate_log(log: &str, final_dir: &str) -> (r: LogRotation)
    ensures
        r.archive_path@ == path_join(path_join(final_dir@, ".backup-tool"@), "backup.log"@),
        r.archive_text@ == operational_text(crate::split::lines(log@)),
        r.active_text@ == Seq::<char>::empty(),
{
    LogRotation {
        archive_path: archived_log_path(final_dir),
        archive_text: archived_log_text(log),
        active_text: String::new(),
    }
}

/// The scratch file that receives rsync's per-file detail during a copy;
/// it is discarded afterwards and is never the active log.
pub fn rsync_detail_log_in(data_dir: &str) -> (p: String)
    ensures
        p@ == path_join(data_dir@, "rsync-detail.log.tmp"@),
{
    crate::paths::join_path(data_dir, "rsync-detail.log.tmp")
}

/// The exclude list handed to rsync, written to the data directory.
pub fn exclude_file_in(data_dir: &str) -> (p: String)
    ensures
        p@ == path_join(data_dir@, "excludes.tmp"@),
{
    crate::paths::join_path(data_dir, "excludes.tmp")
}

/// The rsync arguments of a copy: the exclude file and the detail log in
/// the data directory (so that rsync's per-file detail stays out of the
/// active log), `--link-dest` when given, the source and the staging
/// directory.
pub fn copy_rsync_args(data_dir: &str, link_dest: &Option<String>, source_dir: &str, staging_dir: &str) -> (r: Vec<String>)
    ensures
        crate::config::string_views(r@) == rsync_args_spec(path_join(data_dir@, "excludes.tmp"@),
            path_join(data_dir@, "rsync-detail.log.tmp"@), crate::config::opt_view(*link_dest), source_dir@, staging_dir@),
{
    let exclude = exclude_file_in(data_dir);
    let detail = rsync_detail_log_in(data_dir);
    rsync_args(exclude.as_str(), detail.as_str(), link_dest, source_dir, staging_dir)
}

// ── Room for a full snapshot ────────────────────────────────────────────────

/// What to do about a scheduled full backup after pruning.
#[derive(Debug, Clone, Copy, PartialEq, Eq, Structural)]
pub enum FullPrep {
    /// There is room: take the full snapshot.
    Proceed,
    /// Not enough room, but a snapshot exists to link against: take an
    /// incremental instead.
    DeferredToIncremental { available: u64, needed: u64 },
    /// Not enough room and nothing to link against: take nothing.
    Blocked { available: u64, needed: u64 },
}

/// The space check before a full snapshot.
pub open spec fn full_prep_spec(available: u64, needed: u64, has_latest: bool) -> FullPrep {
    if available >= needed {
        FullPrep::Proceed
    } else if has_latest {
        FullPrep::DeferredToIncremental { available, needed }
    } else {
        FullPrep::Blocked { available, needed }
    }
}

/// Decide whether a full snapshot fits in the free space.
pub fn decide_full_prep(available: u64, needed: u64, has_latest: bool) -> (r: FullPrep)
    ensures
        r == full_prep_spec(available, needed, has_latest),
{
    if available >= needed {
        FullPrep::Proceed
    } else if has_latest {
        FullPrep::DeferredToIncremental { available, needed }
    } else {
        FullPrep::Blocked { available, needed }
    }
}

/// Log line of the space check.
pub fn space_check_log_line(ts: &str, available: u64, needed: u64) -> (r: String)
    ensures
        r@ == "["@ + ts@ + (if available >= needed { "] Space check passed: "@ } else { "] Space check failed: "@ })
            + crate::size::format_bytes_text(available as nat) + " free, "@
            + crate::size::format_bytes_text(needed as nat) + " required"@,
{
    let mut r = String::from_str("[");
    push_str(&mut r, ts);
    if available >= needed {
        push_str(&mut r, "] Space check passed: ");
    } else {
        push_str(&mut r, "] Space check failed: ");
    }
    let a = crate::size::format_bytes(available);
    push_str(&mut r, a.as_str());
    push_str(&mut r, " free, ");
    let n = crate::size::format_bytes(needed);
    push_str(&mut r, n.as_str());
    push_str(&mut r, " required");
    r
}

/// Log line written before pruning for a full backup.
pub fn full_scheduled_log_line(ts: &str, retention_days: u32) -> (r: String)
    ensures
        r@ == "["@ + ts@ + "] Full backup scheduled — pruning incrementals older than "@
            + crate::text::decimal(retention_days as nat) + "d first"@,
{
    let mut r = String::from_str("[");
    push_str(&mut r, ts);
    push_str(&mut r, "] Full backup scheduled — pruning incrementals older than ");
    crate::text::push_decimal(&mut r, retention_days as u64);
    push_str(&mut r, "d first");
    r
}

// ── One snapshot ────────────────────────────────────────────────────────────

/// Name prefix of a snapshot of this kind: `full` or `inc`.
pub open spec fn kind_prefix(k: BackupKind) -> Seq<char> {
    if k == BackupKind::Full { "full"@ } else { "inc"@ }
}

pub fn snapshot_prefix(k: BackupKind) -> (r: &'static str)
    ensures
        r@ == kind_prefix(k),
{
    if k == BackupKind::Full { "full" } else { "inc" }
}

/// Name of the finished snapshot directory: `<prefix>-<stamp>`.
pub fn snapshot_dir_name(k: BackupKind, stamp: &str) -> (r: String)
    ensures
        r@ == kind_prefix(k) + "-"@ + stamp@,
{
    let mut r = String::from_str(snapshot_prefix(k));
    push_str(&mut r, "-");
    push_str(&mut r, stamp);
    r
}

/// Name of the staging directory: `.inprogress-<prefix>-<stamp>`.
pub fn staging_dir_name(k: BackupKind, stamp: &str) -> (r: String)
    ensures
        r@ == ".inprogress-"@ + kind_prefix(k) + "-"@ + stamp@,
{
    let mut r = String::from_str(".inprogress-");
    push_str(&mut r, snapshot_prefix(k));
    push_str(&mut r, "-");
    push_str(&mut r, stamp);
    r
}

/// The rsync command line (without the program name).
pub open spec fn rsync_args_spec(exclude_file: Seq<char>, log_file: Seq<char>, link_dest: Option<Seq<char>>,
    source_dir: Seq<char>, staging_dir: Seq<char>) -> Seq<Seq<char>>
{
    let fixed = seq!["--archive"@, "--delete"@, "--numeric-ids"@, "--human-readable"@, "--stats"@,
        "--exclude-from="@ + exclude_file, "--log-file="@ + log_file];
    let link = match link_dest {
        Some(l) => seq!["--link-dest="@ + l],
        None => seq![],
    };
    fixed + link + seq![source_dir + "/"@, staging_dir]
}

/// Arguments for rsync: archive mode with deletions, numeric ids, stats,
/// the exclude file, the log file, `--link-dest` when given, then the
/// source (with a trailing `/`) and the staging directory.  `--inplace`
/// and `--partial` are never passed: with `--link-dest` they could write
/// through a hardlink into an older snapshot.
pub fn rsync_args(exclude_file: &str, log_file: &str, link_dest: &Option<String>, source_dir: &str,
    staging_dir: &str) -> (r: Vec<String>)
    ensures
        crate::config::string_views(r@) == rsync_args_spec(exclude_file@, log_file@,
            crate::config::opt_view(*link_dest), source_dir@, staging_dir@),
{
    let mut r: Vec<String> = Vec::new();
    r.push(String::from_str("--archive"));
    r.push(String::from_str("--delete"));
    r.push(String::from_str("--numeric-ids"));
    r.push(String::from_str("--human-readable"));
    r.push(String::from_str("--stats"));
    r.push(crate::text::concat2("--exclude-from=", exclude_file));
    r.push(crate::text::concat2("--log-file=", log_file));
    match link_dest {
        Some(l) => r.push(crate::text::concat2("--link-dest=", l.as_str())),
        None => {}
    }
    r.push(crate::text::concat2(source_dir, "/"));
    r.push(String::from_str(staging_dir));
    assert(crate::config::string_views(r@) =~= rsync_args_spec(exclude_file@, log_file@,
        crate::config::opt_view(*link_dest), source_dir@, staging_dir@));
    r
}

/// The snapshot an rsync run hardlinks against: the latest one, and only
/// for an incremental; a full snapshot is a complete copy.
pub fn link_dest_for(kind: BackupKind, latest: Option<String>) -> (r: Option<String>)
    ensures
        r == (if kind == BackupKind::Incremental { latest } else { None::<String> }),
{
    if kind == BackupKind::Incremental { latest } else { None }
}

/// rsync finished well: exit 0, or exit 24 (source files vanished during
/// the transfer, normal for a live home directory).
pub open spec fn rsync_accepted(exit_code: i32) -> bool {
    exit_code == 0 || exit_code == 24
}

/// Lines of rsync's `--stats` output that the summary keeps.
pub open spec fn is_stats_line(l: Seq<char>) -> bool {
    ||| crate::split::contains(l, "Number of files"@)
    ||| crate::split::contains(l, "Number of created files"@)
    ||| crate::split::contains(l, "Number of deleted files"@)
    ||| crate::split::contains(l, "Total file size"@)
    ||| crate::split::contains(l, "Total transferred"@)
    ||| crate::split::contains(l, "Literal data"@)
}

/// The lines of `ls` that satisfy `is_stats_line`, in order.
pub open spec fn stats_lines(ls: Seq<Seq<char>>) -> Seq<Seq<char>>
    decreases ls.len(),
{
    if ls.len() == 0 {
        seq![]
    } else if is_stats_line(ls.last()) {
        stats_lines(ls.drop_last()).push(ls.last())
    } else {
        stats_lines(ls.drop_last())
    }
}

/// `ls` joined with `\n`.
pub open spec fn join_lines(ls: Seq<Seq<char>>) -> Seq<char>
    decreases ls.len(),
{
    if ls.len() == 0 {
        seq![]
    } else if ls.len() == 1 {
        ls[0]
    } else {
        join_lines(ls.drop_last()) + "\n"@ + ls.last()
    }
}

/// The summary shown after a snapshot.
pub open spec fn summary_text(prefix: Seq<char>, final_dir: Seq<char>, rsync_stdout: Seq<char>) -> Seq<char> {
    let name = match crate::paths::path_file_name(final_dir) {
        Some(n) => n,
        None => seq![],
    };
    "✅  "@ + prefix + " snapshot complete\nSnapshot: "@ + name + "\n\n"@
        + join_lines(stats_lines(crate::split::lines(rsync_stdout)))
}

fn is_stats_line_exec(l: &[char]) -> (b: bool)
    ensures
        b == is_stats_line(l@),
{
    let a = chars_of("Number of files");
    let b = chars_of("Number of created files");
    let c = chars_of("Number of deleted files");
    let d = chars_of("Total file size");
    let e = chars_of("Total transferred");
    let f = chars_of("Literal data");
    crate::split::contains_exec(l, a.as_slice()) || crate::split::contains_exec(l, b.as_slice())
        || crate::split::contains_exec(l, c.as_slice()) || crate::split::contains_exec(l, d.as_slice())
        || crate::split::contains_exec(l, e.as_slice()) || crate::split::contains_exec(l, f.as_slice())
}

/// Summary of a finished snapshot for the GUI: its name and the key lines
/// of rsync's statistics.
pub fn build_summary(prefix: &str, final_dir: &str, rsync_stdout: &str) -> (r: String)
    ensures
        r@ == summary_text(prefix@, final_dir@, rsync_stdout@),
{
    let fd = chars_of(final_dir);
    let name = match crate::paths::file_name(fd.as_slice()) {
        Some(n) => n,
        None => Vec::new(),
    };
    let out = chars_of(rsync_stdout);
    let ls = crate::split::lines_exec(out.as_slice());
    let ghost lv = crate::split::views(ls@);
    let mut stats = String::new();
    let mut kept: usize = 0;
    let mut i: usize = 0;
    while i < ls.len()
        invariant
            i <= ls@.len(),
            lv == crate::split::views(ls@),
            stats@ == join_lines(stats_lines(lv.take(i as int))),
            kept == stats_lines(lv.take(i as int)).len(),
            kept <= i,
        decreases ls@.len() - i,
    {
        let ghost before = stats_lines(lv.take(i as int));
        proof {
            assert(lv.take(i + 1).drop_last() =~= lv.take(i as int));
            assert(lv.take(i + 1).last() == ls@[i as int]@);
        }
        if is_stats_line_exec(ls[i].as_slice()) {
            if kept > 0 {
                push_str(&mut stats, "\n");
            }
            crate::text::push_chars(&mut stats, ls[i].as_slice());
            proof {
                let after = before.push(ls@[i as int]@);
                assert(after.drop_last() =~= before);
                if kept == 0 {
                    assert(stats@ =~= join_lines(after));
                } else {
                    assert(stats@ =~= join_lines(after));
                }
            }
            kept = kept + 1;
        }
        i = i + 1;
    }
    assert(lv.take(ls@.len() as int) =~= lv);
    let mut r = String::from_str("✅  ");
    push_str(&mut r, prefix);
    push_str(&mut r, " snapshot complete\nSnapshot: ");
    crate::text::push_chars(&mut r, name.as_slice());
    push_str(&mut r, "\n\n");
    push_str(&mut r, stats.as_str());
    proof {
        match crate::paths::path_file_name(fd@) {
            Some(n) => {}
            None => { assert(name@ =~= Seq::<char>::empty()); }
        }
    }
    r
}

// ── One backup run, step by step ────────────────────────────────────────────

/// Text of a run that ended without a snapshot because the kind was `Skip`.
pub open spec fn skip_requested_text() -> Seq<char> {
    "Backup skipped (called with Skip kind directly)."@
}

/// Text of a run that the incremental period skipped.
pub open spec fn skip_period_text(period: u32) -> Seq<char> {
    "Backup skipped (incremental period "@ + crate::text::decimal(period as nat)
        + "d — last snapshot is recent enough)."@
}

/// Text of a run whose full snapshot had no room and nothing to fall back on.
pub open spec fn blocked_text(available: u64, needed: u64) -> Seq<char> {
    "Full backup deferred: need "@ + crate::size::format_bytes_text(needed as nat) + " free but only "@
        + crate::size::format_bytes_text(available as nat)
        + " available.\nOld incrementals were pruned; remove old full-* snapshots or free space on the drive."@
}

/// Log text of a full snapshot deferred to an incremental.
pub open spec fn deferred_text(available: u64, needed: u64) -> Seq<char> {
    "Full backup deferred ("@ + crate::size::format_bytes_text(available as nat) + " free, "@
        + crate::size::format_bytes_text(needed as nat) + " needed) — running incremental instead."@
}

/// The summary of a snapshot taken in place of a deferred full one.
pub open spec fn deferred_summary_text(summary: Seq<char>) -> Seq<char> {
    "⚠️  Scheduled full backup deferred (insufficient space after pruning).\n\n"@ + summary
}

/// Error text of a failed rsync.
pub open spec fn rsync_failed_text(exit_code: i32) -> Seq<char> {
    "rsync failed with exit code "@ + crate::text::signed_decimal(exit_code as int)
}

/// Log text of a full snapshot deferred to an incremental.
pub fn deferred_message(available: u64, needed: u64) -> (r: String)
    ensures
        r@ == deferred_text(available, needed),
{
    let mut r = String::from_str("Full backup deferred (");
    let a = crate::size::format_bytes(available);
    push_str(&mut r, a.as_str());
    push_str(&mut r, " free, ");
    let n = crate::size::format_bytes(needed);
    push_str(&mut r, n.as_str());
    push_str(&mut r, " needed) — running incremental instead.");
    r
}

/// Log line noting that rsync reported vanished source files.
pub fn vanished_log_line(ts: &str) -> (r: String)
    ensures
        r@ == "["@ + ts@ + "] WARNING: exit 24 — some files vanished during transfer (non-fatal)"@,
{
    crate::text::concat3("[", ts, "] WARNING: exit 24 — some files vanished during transfer (non-fatal)")
}

/// Log line of a completed snapshot.
pub fn completed_log_line(ts: &str, k: BackupKind, name: &str) -> (r: String)
    ensures
        r@ == "["@ + ts@ + "] Completed "@ + kind_prefix(k) + " snapshot: "@ + name@,
{
    let mut r = crate::text::concat3("[", ts, "] Completed ");
    push_str(&mut r, snapshot_prefix(k));
    push_str(&mut r, " snapshot: ");
    push_str(&mut r, name);
    r
}

/// How long a run waits for the run lock: a scheduled (automatic) run
/// waits up to an hour for a run already under way, any other gives up at
/// once.
pub open spec fn lock_wait_ms(requested: BackupKind) -> u64 {
    if requested == BackupKind::Auto { 3_600_000 } else { 0 }
}

/// Error text of a run that found another run holding the run lock.
pub open spec fn lock_busy_text() -> Seq<char> {
    "another backup is already running"@
}

/// The settings a run follows: the incremental period (days), the age in
/// days beyond which incrementals are removed, and how many full snapshots
/// to keep (0: all).
#[derive(Debug, Clone, Copy, PartialEq, Eq, Structural)]
pub struct RunSettings {
    pub period: u32,
    pub retention_days: u32,
    pub keep_full_snapshots: u32,
}

impl RunSettings {
    /// The settings of a configuration.
    pub fn of(config: &Config) -> (s: RunSettings)
        ensures
            s.period == config.incremental_every_n_days,
            s.retention_days == config.retention_days,
            s.keep_full_snapshots == config.keep_full_snapshots,
    {
        RunSettings {
            period: config.incremental_every_n_days,
            retention_days: config.retention_days,
            keep_full_snapshots: config.keep_full_snapshots,
        }
    }
}

/// The outside work a run asks for next.
#[derive(Debug)]
pub enum RunStep {
    /// Take the run lock, waiting up to `wait_ms` for another run to end;
    /// it is held until the run is finished.
    AcquireLock { wait_ms: u64 },
    /// Make sure the destination is reachable (mounting the drive if needed).
    ResolveDestination,
    /// Read the pending-full flag, look at the destination and the date,
    /// and choose with [`auto_kind`].
    ChooseKind,
    /// Prune old incrementals, measure free and needed space, and decide
    /// with [`decide_full_prep`].
    PrepareFull,
    /// Persist that the scheduled full snapshot is still owed, so that later
    /// automatic runs retry it (best effort).
    RecordDeferral,
    /// Copy with rsync into a staging directory; `deferred` when this
    /// incremental stands in for a full snapshot that had no room.
    Copy { kind: BackupKind, deferred: bool },
    /// Remove this staging directory of a copy that rsync did not complete.
    RemoveStaging(String),
    /// Rename `staging_dir` to `final_dir` (logging first when rsync
    /// reported vanished files).
    Commit { kind: BackupKind, vanished: bool, staging_dir: String, final_dir: String },
    /// Replace the `latest` link of the destination by one to `final_dir`,
    /// and log the completed snapshot.
    UpdateLatest { final_dir: String },
    /// Remove incrementals older than `retention_days` days
    /// ([`retention_victims`]).
    ApplyRetention { retention_days: u32 },
    /// Remove the incrementals of the cycle that the new full snapshot
    /// closes and the full snapshots beyond `keep_full`
    /// ([`after_full_victims`]), best effort.
    PruneAfterFull { keep_full: u32 },
    /// Archive the operational log inside `final_dir` and truncate it
    /// ([`rotate_log`]), best effort.
    RotateLog { final_dir: String },
    /// Tell the desktop that a snapshot of this kind was created (best effort).
    Notify { kind: BackupKind },
    /// Clear every record of a deferred full snapshot: one was just taken
    /// (best effort).
    ClearPending,
    /// The run is over: `Ok` with the text for the user, or `Err`.
    Finish(Result<String, String>),
}

/// What the outside work reported.
#[derive(Debug)]
pub enum RunEvent {
    /// The run starts.
    Begin,
    /// Whether the run lock was taken (`false`: another run holds it).
    LockAcquired(bool),
    /// The destination is reachable.
    DestinationReady,
    /// The automatic choice.
    KindChosen(BackupKind),
    /// The space check before a full snapshot.
    SpaceChecked(FullPrep),
    /// The deferral was recorded (or recording it failed, which the run
    /// tolerates).
    DeferralRecorded,
    /// rsync exited with `exit_code` (-1 when killed) after writing
    /// `stdout`, copying into `staging_dir`; the snapshot is to be named
    /// `final_dir`.
    CopyFinished { exit_code: i32, staging_dir: String, final_dir: String, stdout: String },
    /// The staging directory is gone (or removing it failed).
    StagingRemoved,
    /// The snapshot is in place under its final name.
    Committed,
    /// `latest` points at the new snapshot.
    LatestUpdated,
    /// Old incrementals are removed.
    RetentionApplied,
    /// The pruning after a full snapshot is done (or failed, which the run
    /// tolerates).
    Pruned,
    /// The log is rotated (or rotating it failed).
    LogRotated,
    /// The desktop was told (or could not be).
    Notified,
    /// The pending-full records are cleared (or clearing them failed).
    PendingCleared,
    /// Outside work failed with this error.
    Failed(String),
}

/// Where a run stands.
#[derive(Debug)]
pub enum RunPhase {
    NotStarted,
    Locking,
    Resolving,
    Choosing,
    Preparing,
    /// Recording a deferral; `blocked` holds the free and needed bytes when
    /// nothing can be copied instead.
    RecordingDeferral { blocked: Option<(u64, u64)> },
    Copying { kind: BackupKind, deferred: bool },
    RemovingStaging { exit_code: i32 },
    Committing { kind: BackupKind, final_dir: String, summary: String },
    UpdatingLatest { kind: BackupKind, final_dir: String, summary: String },
    ApplyingRetention { kind: BackupKind, final_dir: String, summary: String },
    PruningAfterFull { final_dir: String, summary: String },
    RotatingLog { summary: String },
    Notifying { kind: BackupKind, summary: String },
    ClearingPending { summary: String },
    Finished,
}

/// One backup run: what was asked for, the settings it follows, and where
/// the run stands.
#[derive(Debug)]
pub struct BackupRun {
    pub requested: BackupKind,
    pub settings: RunSettings,
    pub phase: RunPhase,
}

/// A [`RunStep`] with its texts as character sequences.
pub ghost enum StepView {
    AcquireLock { wait_ms: u64 },
    ResolveDestination,
    ChooseKind,
    PrepareFull,
    RecordDeferral,
    Copy { kind: BackupKind, deferred: bool },
    RemoveStaging(Seq<char>),
    Commit { kind: BackupKind, vanished: bool, staging_dir: Seq<char>, final_dir: Seq<char> },
    UpdateLatest { final_dir: Seq<char> },
    ApplyRetention { retention_days: u32 },
    PruneAfterFull { keep_full: u32 },
    RotateLog { final_dir: Seq<char> },
    Notify { kind: BackupKind },
    ClearPending,
    Finish(Result<Seq<char>, Seq<char>>),
}

/// A [`RunEvent`] with its texts as character sequences.
pub ghost enum EventView {
    Begin,
    LockAcquired(bool),
    DestinationReady,
    KindChosen(BackupKind),
    SpaceChecked(FullPrep),
    DeferralRecorded,
    CopyFinished { exit_code: i32, staging_dir: Seq<char>, final_dir: Seq<char>, stdout: Seq<char> },
    StagingRemoved,
    Committed,
    LatestUpdated,
    RetentionApplied,
    Pruned,
    LogRotated,
    Notified,
    PendingCleared,
    Failed(Seq<char>),
}

/// A [`RunPhase`] with its texts as character sequences.
pub ghost enum PhaseView {
    NotStarted,
    Locking,
    Resolving,
    Choosing,
    Preparing,
    RecordingDeferral { blocked: Option<(u64, u64)> },
    Copying { kind: BackupKind, deferred: bool },
    RemovingStaging { exit_code: i32 },
    Committing { kind: BackupKind, final_dir: Seq<char>, summary: Seq<char> },
    UpdatingLatest { kind: BackupKind, final_dir: Seq<char>, summary: Seq<char> },
    ApplyingRetention { kind: BackupKind, final_dir: Seq<char>, summary: Seq<char> },
    PruningAfterFull { final_dir: Seq<char>, summary: Seq<char> },
    RotatingLog { summary: Seq<char> },
    Notifying { kind: BackupKind, summary: Seq<char> },
    ClearingPending { summary: Seq<char> },
    Finished,
}

impl View for RunStep {
    type V = StepView;

    open spec fn view(&self) -> StepView {
        match self {
            RunStep::AcquireLock { wait_ms } => StepView::AcquireLock { wait_ms: *wait_ms },
            RunStep::ResolveDestination => StepView::ResolveDestination,
            RunStep::ChooseKind => StepView::ChooseKind,
            RunStep::PrepareFull => StepView::PrepareFull,
            RunStep::RecordDeferral => StepView::RecordDeferral,
            RunStep::Copy { kind, deferred } => StepView::Copy { kind: *kind, deferred: *deferred },
            RunStep::RemoveStaging(d) => StepView::RemoveStaging(d@),
            RunStep::Commit { kind, vanished, staging_dir, final_dir } =>
                StepView::Commit { kind: *kind, vanished: *vanished, staging_dir: staging_dir@, final_dir: final_dir@ },
            RunStep::UpdateLatest { final_dir } => StepView::UpdateLatest { final_dir: final_dir@ },
            RunStep::ApplyRetention { retention_days } => StepView::ApplyRetention { retention_days: *retention_days },
            RunStep::PruneAfterFull { keep_full } => StepView::PruneAfterFull { keep_full: *keep_full },
            RunStep::RotateLog { final_dir } => StepView::RotateLog { final_dir: final_dir@ },
            RunStep::Notify { kind } => StepView::Notify { kind: *kind },
            RunStep::ClearPending => StepView::ClearPending,
            RunStep::Finish(Ok(t)) => StepView::Finish(Ok(t@)),
            RunStep::Finish(Err(t)) => StepView::Finish(Err(t@)),
        }
    }
}

impl View for RunEvent {
    type V = EventView;

    open spec fn view(&self) -> EventView {
        match self {
            RunEvent::Begin => EventView::Begin,
            RunEvent::LockAcquired(b) => EventView::LockAcquired(*b),
            RunEvent::DestinationReady => EventView::DestinationReady,
            RunEvent::KindChosen(k) => EventView::KindChosen(*k),
            RunEvent::SpaceChecked(p) => EventView::SpaceChecked(*p),
            RunEvent::DeferralRecorded => EventView::DeferralRecorded,
            RunEvent::CopyFinished { exit_code, staging_dir, final_dir, stdout } =>
                EventView::CopyFinished { exit_code: *exit_code, staging_dir: staging_dir@, final_dir: final_dir@, stdout: stdout@ },
            RunEvent::StagingRemoved => EventView::StagingRemoved,
            RunEvent::Committed => EventView::Committed,
            RunEvent::LatestUpdated => EventView::LatestUpdated,
            RunEvent::RetentionApplied => EventView::RetentionApplied,
            RunEvent::Pruned => EventView::Pruned,
            RunEvent::LogRotated => EventView::LogRotated,
            RunEvent::Notified => EventView::Notified,
            RunEvent::PendingCleared => EventView::PendingCleared,
            RunEvent::Failed(t) => EventView::Failed(t@),
        }
    }
}

impl View for RunPhase {
    type V = PhaseView;

    open spec fn view(&self) -> PhaseView {
        match self {
            RunPhase::NotStarted => PhaseView::NotStarted,
            RunPhase::Locking => PhaseView::Locking,
            RunPhase::Resolving => PhaseView::Resolving,
            RunPhase::Choosing => PhaseView::Choosing,
            RunPhase::Preparing => PhaseView::Preparing,
            RunPhase::RecordingDeferral { blocked } => PhaseView::RecordingDeferral { blocked: *blocked },
            RunPhase::Copying { kind, deferred } => PhaseView::Copying { kind: *kind, deferred: *deferred },
            RunPhase::RemovingStaging { exit_code } => PhaseView::RemovingStaging { exit_code: *exit_code },
            RunPhase::Committing { kind, final_dir, summary } =>
                PhaseView::Committing { kind: *kind, final_dir: final_dir@, summary: summary@ },
            RunPhase::UpdatingLatest { kind, final_dir, summary } =>
                PhaseView::UpdatingLatest { kind: *kind, final_dir: final_dir@, summary: summary@ },
            RunPhase::ApplyingRetention { kind, final_dir, summary } =>
                PhaseView::ApplyingRetention { kind: *kind, final_dir: final_dir@, summary: summary@ },
            RunPhase::PruningAfterFull { final_dir, summary } =>
                PhaseView::PruningAfterFull { final_dir: final_dir@, summary: summary@ },
            RunPhase::RotatingLog { summary } => PhaseView::RotatingLog { summary: summary@ },
            RunPhase::Notifying { kind, summary } => PhaseView::Notifying { kind: *kind, summary: summary@ },
            RunPhase::ClearingPending { summary } => PhaseView::ClearingPending { summary: summary@ },
            RunPhase::Finished => PhaseView::Finished,
        }
    }
}

/// The events a run in this phase expects.  The best-effort steps
/// (recording a deferral, removing a staging directory, pruning after a
/// full snapshot, rotating the log, notifying, clearing the pending
/// records) always report back as done.
pub open spec fn accepts(phase: PhaseView, ev: EventView) -> bool {
    match phase {
        PhaseView::NotStarted => ev is Begin,
        PhaseView::Locking => ev is LockAcquired || ev is Failed,
        PhaseView::Resolving => ev is DestinationReady || ev is Failed,
        PhaseView::Choosing => ev is KindChosen || ev is Failed,
        PhaseView::Preparing => ev is SpaceChecked || ev is Failed,
        PhaseView::RecordingDeferral { .. } => ev is DeferralRecorded,
        PhaseView::Copying { .. } => ev is CopyFinished || ev is Failed,
        PhaseView::RemovingStaging { .. } => ev is StagingRemoved,
        PhaseView::Committing { .. } => ev is Committed || ev is Failed,
        PhaseView::UpdatingLatest { .. } => ev is LatestUpdated || ev is Failed,
        PhaseView::ApplyingRetention { .. } => ev is RetentionApplied || ev is Failed,
        PhaseView::PruningAfterFull { .. } => ev is Pruned,
        PhaseView::RotatingLog { .. } => ev is LogRotated,
        PhaseView::Notifying { .. } => ev is Notified,
        PhaseView::ClearingPending { .. } => ev is PendingCleared,
        PhaseView::Finished => false,
    }
}

/// The step that comes once the kind of snapshot is known.
pub open spec fn step_for_kind(k: BackupKind, period: u32) -> (PhaseView, StepView) {
    if k == BackupKind::Skip {
        (PhaseView::Finished, StepView::Finish(Ok(skip_period_text(period))))
    } else if k == BackupKind::Full {
        (PhaseView::Preparing, StepView::PrepareFull)
    } else {
        (PhaseView::Copying { kind: k, deferred: false }, StepView::Copy { kind: k, deferred: false })
    }
}

/// The summary of a committed copy.
pub open spec fn copy_summary(kind: BackupKind, deferred: bool, final_dir: Seq<char>, stdout: Seq<char>) -> Seq<char> {
    let summary = summary_text(kind_prefix(kind), final_dir, stdout);
    if deferred { deferred_summary_text(summary) } else { summary }
}

/// The end of a run that reached an unexpected event.
pub open spec fn run_misstep() -> (PhaseView, StepView) {
    (PhaseView::Finished, StepView::Finish(Err(seq![])))
}

/// How a run proceeds: the next phase and the next step after an event.
/// After the commit every run points `latest` at the new snapshot and
/// applies retention; a full snapshot then prunes, rotates the log, and
/// (after the notice) clears the pending-full records.
pub open spec fn run_next(requested: BackupKind, settings: RunSettings, phase: PhaseView, ev: EventView) -> (PhaseView, StepView) {
    match ev {
        EventView::Failed(e) => (PhaseView::Finished, StepView::Finish(Err(e))),
        EventView::Begin => (PhaseView::Locking, StepView::AcquireLock { wait_ms: lock_wait_ms(requested) }),
        EventView::LockAcquired(got) => if got {
            (PhaseView::Resolving, StepView::ResolveDestination)
        } else {
            (PhaseView::Finished, StepView::Finish(Err(lock_busy_text())))
        },
        EventView::DestinationReady => {
            if requested == BackupKind::Skip {
                (PhaseView::Finished, StepView::Finish(Ok(skip_requested_text())))
            } else if requested == BackupKind::Auto {
                (PhaseView::Choosing, StepView::ChooseKind)
            } else {
                step_for_kind(requested, settings.period)
            }
        }
        EventView::KindChosen(k) => step_for_kind(k, settings.period),
        EventView::SpaceChecked(p) => match p {
            FullPrep::Proceed => (PhaseView::Copying { kind: BackupKind::Full, deferred: false },
                StepView::Copy { kind: BackupKind::Full, deferred: false }),
            FullPrep::DeferredToIncremental { .. } =>
                (PhaseView::RecordingDeferral { blocked: None }, StepView::RecordDeferral),
            FullPrep::Blocked { available, needed } =>
                (PhaseView::RecordingDeferral { blocked: Some((available, needed)) }, StepView::RecordDeferral),
        },
        EventView::DeferralRecorded => match phase {
            PhaseView::RecordingDeferral { blocked: Some((available, needed)) } =>
                (PhaseView::Finished, StepView::Finish(Ok(blocked_text(available, needed)))),
            PhaseView::RecordingDeferral { blocked: None } =>
                (PhaseView::Copying { kind: BackupKind::Incremental, deferred: true },
                    StepView::Copy { kind: BackupKind::Incremental, deferred: true }),
            _ => run_misstep(),
        },
        EventView::CopyFinished { exit_code, staging_dir, final_dir, stdout } => match phase {
            PhaseView::Copying { kind, deferred } => if rsync_accepted(exit_code) {
                (PhaseView::Committing { kind, final_dir, summary: copy_summary(kind, deferred, final_dir, stdout) },
                    StepView::Commit { kind, vanished: exit_code == 24, staging_dir, final_dir })
            } else {
                (PhaseView::RemovingStaging { exit_code }, StepView::RemoveStaging(staging_dir))
            },
            _ => run_misstep(),
        },
        EventView::StagingRemoved => match phase {
            PhaseView::RemovingStaging { exit_code } =>
                (PhaseView::Finished, StepView::Finish(Err(rsync_failed_text(exit_code)))),
            _ => run_misstep(),
        },
        EventView::Committed => match phase {
            PhaseView::Committing { kind, final_dir, summary } =>
                (PhaseView::UpdatingLatest { kind, final_dir, summary }, StepView::UpdateLatest { final_dir }),
            _ => run_misstep(),
        },
        EventView::LatestUpdated => match phase {
            PhaseView::UpdatingLatest { kind, final_dir, summary } =>
                (PhaseView::ApplyingRetention { kind, final_dir, summary },
                    StepView::ApplyRetention { retention_days: settings.retention_days }),
            _ => run_misstep(),
        },
        EventView::RetentionApplied => match phase {
            PhaseView::ApplyingRetention { kind, final_dir, summary } => if kind == BackupKind::Full {
                (PhaseView::PruningAfterFull { final_dir, summary },
                    StepView::PruneAfterFull { keep_full: settings.keep_full_snapshots })
            } else {
                (PhaseView::Notifying { kind, summary }, StepView::Notify { kind })
            },
            _ => run_misstep(),
        },
        EventView::Pruned => match phase {
            PhaseView::PruningAfterFull { final_dir, summary } =>
                (PhaseView::RotatingLog { summary }, StepView::RotateLog { final_dir }),
            _ => run_misstep(),
        },
        EventView::LogRotated => match phase {
            PhaseView::RotatingLog { summary } =>
                (PhaseView::Notifying { kind: BackupKind::Full, summary }, StepView::Notify { kind: BackupKind::Full }),
            _ => run_misstep(),
        },
        EventView::Notified => match phase {
            PhaseView::Notifying { kind, summary } => if kind == BackupKind::Full {
                (PhaseView::ClearingPending { summary }, StepView::ClearPending)
            } else {
                (PhaseView::Finished, StepView::Finish(Ok(summary)))
            },
            _ => run_misstep(),
        },
        EventView::PendingCleared => match phase {
            PhaseView::ClearingPending { summary } => (PhaseView::Finished, StepView::Finish(Ok(summary))),
            _ => run_misstep(),
        },
    }
}

impl BackupRun {
    /// A run of the given kind that has not started.
    pub fn new(requested: BackupKind, settings: RunSettings) -> (r: BackupRun)
        ensures
            r.requested == requested,
            r.settings == settings,
            r.phase@ == PhaseView::NotStarted,
    {
        BackupRun { requested, settings, phase: RunPhase::NotStarted }
    }

    fn finish_ok(&mut self, t: String) -> (s: RunStep)
        ensures
            final(self).requested == old(self).requested,
            final(self).settings == old(self).settings,
            final(self).phase@ == PhaseView::Finished,
            s@ == StepView::Finish(Ok(t@)),
    {
        self.phase = RunPhase::Finished;
        RunStep::Finish(Ok(t))
    }

    fn finish_err(&mut self, t: String) -> (s: RunStep)
        ensures
            final(self).requested == old(self).requested,
            final(self).settings == old(self).settings,
            final(self).phase@ == PhaseView::Finished,
            s@ == StepView::Finish(Err(t@)),
    {
        self.phase = RunPhase::Finished;
        RunStep::Finish(Err(t))
    }

    fn after_kind(&mut self, k: BackupKind) -> (s: RunStep)
        ensures
            final(self).requested == old(self).requested,
            final(self).settings == old(self).settings,
            (final(self).phase@, s@) == step_for_kind(k, old(self).settings.period),
    {
        if k == BackupKind::Skip {
            let mut t = String::from_str("Backup skipped (incremental period ");
            crate::text::push_decimal(&mut t, self.settings.period as u64);
            push_str(&mut t, "d — last snapshot is recent enough).");
            self.finish_ok(t)
        } else if k == BackupKind::Full {
            self.phase = RunPhase::Preparing;
            RunStep::PrepareFull
        } else {
            self.phase = RunPhase::Copying { kind: k, deferred: false };
            RunStep::Copy { kind: k, deferred: false }
        }
    }

    fn blocked(&mut self, available: u64, needed: u64) -> (s: RunStep)
        ensures
            final(self).requested == old(self).requested,
            final(self).settings == old(self).settings,
            final(self).phase@ == PhaseView::Finished,
            s@ == StepView::Finish(Ok(blocked_text(available, needed))),
    {
        let mut t = String::from_str("Full backup deferred: need ");
        let n = crate::size::format_bytes(needed);
        push_str(&mut t, n.as_str());
        push_str(&mut t, " free but only ");
        let a = crate::size::format_bytes(available);
        push_str(&mut t, a.as_str());
        push_str(&mut t, " available.\nOld incrementals were pruned; remove old full-* snapshots or free space on the drive.");
        self.finish_ok(t)
    }

    /// The run after a snapshot is in place: everything that follows the
    /// commit, one event at a time.
    fn after_commit(&mut self, ev: RunEvent) -> (s: RunStep)
        requires
            ev is Committed || ev is LatestUpdated || ev is RetentionApplied || ev is Pruned
                || ev is LogRotated || ev is Notified || ev is PendingCleared,
        ensures
            final(self).requested == old(self).requested,
            final(self).settings == old(self).settings,
            (final(self).phase@, s@) == run_next(old(self).requested, old(self).settings, old(self).phase@, ev@),
    {
        let mut phase = RunPhase::Finished;
        std::mem::swap(&mut phase, &mut self.phase);
        match (ev, phase) {
            (RunEvent::Committed, RunPhase::Committing { kind, final_dir, summary }) => {
                let target = final_dir.clone();
                self.phase = RunPhase::UpdatingLatest { kind, final_dir, summary };
                RunStep::UpdateLatest { final_dir: target }
            }
            (RunEvent::LatestUpdated, RunPhase::UpdatingLatest { kind, final_dir, summary }) => {
                self.phase = RunPhase::ApplyingRetention { kind, final_dir, summary };
                RunStep::ApplyRetention { retention_days: self.settings.retention_days }
            }
            (RunEvent::RetentionApplied, RunPhase::ApplyingRetention { kind, final_dir, summary }) => {
                if kind == BackupKind::Full {
                    self.phase = RunPhase::PruningAfterFull { final_dir, summary };
                    RunStep::PruneAfterFull { keep_full: self.settings.keep_full_snapshots }
                } else {
                    self.phase = RunPhase::Notifying { kind, summary };
                    RunStep::Notify { kind }
                }
            }
            (RunEvent::Pruned, RunPhase::PruningAfterFull { final_dir, summary }) => {
                self.phase = RunPhase::RotatingLog { summary };
                RunStep::RotateLog { final_dir }
            }
            (RunEvent::LogRotated, RunPhase::RotatingLog { summary }) => {
                self.phase = RunPhase::Notifying { kind: BackupKind::Full, summary };
                RunStep::Notify { kind: BackupKind::Full }
            }
            (RunEvent::Notified, RunPhase::Notifying { kind, summary }) => {
                if kind == BackupKind::Full {
                    self.phase = RunPhase::ClearingPending { summary };
                    RunStep::ClearPending
                } else {
                    RunStep::Finish(Ok(summary))
                }
            }
            (RunEvent::PendingCleared, RunPhase::ClearingPending { summary }) => RunStep::Finish(Ok(summary)),
            _ => RunStep::Finish(Err(String::new())),
        }
    }

    /// Advance the run with what the outside work reported; returns the
    /// next step to perform.
    pub fn next(&mut self, ev: RunEvent) -> (s: RunStep)
        requires
            accepts(old(self).phase@, ev@),
        ensures
            final(self).requested == old(self).requested,
            final(self).settings == old(self).settings,
            (final(self).phase@, s@) == run_next(old(self).requested, old(self).settings, old(self).phase@, ev@),
    {
        match ev {
            RunEvent::Failed(e) => self.finish_err(e),
            RunEvent::Begin => {
                self.phase = RunPhase::Locking;
                let wait_ms: u64 = if self.requested == BackupKind::Auto { 3_600_000 } else { 0 };
                RunStep::AcquireLock { wait_ms }
            }
            RunEvent::LockAcquired(got) => {
                if got {
                    self.phase = RunPhase::Resolving;
                    RunStep::ResolveDestination
                } else {
                    self.finish_err(String::from_str("another backup is already running"))
                }
            }
            RunEvent::DestinationReady => {
                if self.requested == BackupKind::Skip {
                    self.finish_ok(String::from_str("Backup skipped (called with Skip kind directly)."))
                } else if self.requested == BackupKind::Auto {
                    self.phase = RunPhase::Choosing;
                    RunStep::ChooseKind
                } else {
                    let k = self.requested;
                    self.after_kind(k)
                }
            }
            RunEvent::KindChosen(k) => self.after_kind(k),
            RunEvent::SpaceChecked(p) => match p {
                FullPrep::Proceed => {
                    self.phase = RunPhase::Copying { kind: BackupKind::Full, deferred: false };
                    RunStep::Copy { kind: BackupKind::Full, deferred: false }
                }
                FullPrep::DeferredToIncremental { .. } => {
                    self.phase = RunPhase::RecordingDeferral { blocked: None };
                    RunStep::RecordDeferral
                }
                FullPrep::Blocked { available, needed } => {
                    self.phase = RunPhase::RecordingDeferral { blocked: Some((available, needed)) };
                    RunStep::RecordDeferral
                }
            },
            RunEvent::DeferralRecorded => match self.phase {
                RunPhase::RecordingDeferral { blocked: Some((available, needed)) } => self.blocked(available, needed),
                RunPhase::RecordingDeferral { blocked: None } => {
                    self.phase = RunPhase::Copying { kind: BackupKind::Incremental, deferred: true };
                    RunStep::Copy { kind: BackupKind::Incremental, deferred: true }
                }
                _ => self.finish_err(String::new()),
            },
            RunEvent::CopyFinished { exit_code, staging_dir, final_dir, stdout } => {
                match self.phase {
                    RunPhase::Copying { kind, deferred } => {
                        if exit_code == 0 || exit_code == 24 {
                            let summary = build_summary(snapshot_prefix(kind), final_dir.as_str(), stdout.as_str());
                            let text = if deferred {
                                let mut t = String::from_str("⚠️  Scheduled full backup deferred (insufficient space after pruning).\n\n");
                                push_str(&mut t, summary.as_str());
                                t
                            } else {
                                summary
                            };
                            let target = final_dir.clone();
                            self.phase = RunPhase::Committing { kind, final_dir: target, summary: text };
                            RunStep::Commit { kind, vanished: exit_code == 24, staging_dir, final_dir }
                        } else {
                            self.phase = RunPhase::RemovingStaging { exit_code };
                            RunStep::RemoveStaging(staging_dir)
                        }
                    }
                    _ => self.finish_err(String::new()),
                }
            }
            RunEvent::StagingRemoved => match self.phase {
                RunPhase::RemovingStaging { exit_code } => {
                    let mut t = String::from_str("rsync failed with exit code ");
                    crate::text::push_signed_decimal(&mut t, exit_code as i64);
                    self.finish_err(t)
                }
                _ => self.finish_err(String::new()),
            },
            RunEvent::Committed => self.after_commit(RunEvent::Committed),
            RunEvent::LatestUpdated => self.after_commit(RunEvent::LatestUpdated),
            RunEvent::RetentionApplied => self.after_commit(RunEvent::RetentionApplied),
            RunEvent::Pruned => self.after_commit(RunEvent::Pruned),
            RunEvent::LogRotated => self.after_commit(RunEvent::LogRotated),
            RunEvent::Notified => self.after_commit(RunEvent::Notified),
            RunEvent::PendingCleared => self.after_commit(RunEvent::PendingCleared),
        }
    }
}

// ── Reaching the destination ────────────────────────────────────────────────

/// Error text when the destination cannot be reached.
pub open spec fn unreachable_text(dest: Seq<char>) -> Seq<char> {
    "Backup destination '"@ + dest
        + "' is not accessible and could not be auto-mounted.\nPlease plug in the backup drive and try again."@
}

/// `dest` without its leading slashes: the part of an absolute path below the root.
pub open spec fn below_root(dest: Seq<char>) -> Seq<char>
    decreases dest.len(),
{
    if dest.len() > 0 && dest[0] == '/' { below_root(dest.drop_first()) } else { dest }
}

/// Where `dest` lies when the drive is mounted at `mountpoint`; it is only
/// probed for existence.
pub open spec fn candidate_path(mountpoint: Seq<char>, dest: Seq<char>) -> Seq<char> {
    path_join(mountpoint, if dest.len() > 0 && dest[0] == '/' { below_root(dest) } else { dest })
}

/// Outside work while reaching the destination.
#[derive(Debug)]
pub enum DestStep {
    /// Report whether this path exists.
    CheckExists(String),
    /// Look up where the partition with this UUID is mounted.
    FindMount(String),
    /// Create this directory and its parents.
    CreateDir(String),
    /// Mount the partition with this UUID.
    Mount(String),
    /// Done: the destination directory, or an error text.
    Finish(Result<String, String>),
}

/// What the outside work reported while reaching the destination.
#[derive(Debug)]
pub enum DestEvent {
    Begin,
    Exists(bool),
    MountFound(Option<String>),
    Created(Result<(), String>),
    Mounted(Result<String, String>),
}

/// Where reaching the destination stands.
#[derive(Debug, Clone, Copy, PartialEq, Eq, Structural)]
pub enum DestPhase {
    NotStarted,
    CheckingDest,
    FindingMount,
    CheckingCandidate,
    CreatingOnMounted,
    Mounting,
    CreatingAfterMount,
    RecheckingDest,
    Finished,
}

/// A [`DestStep`] with its texts as character sequences.
pub ghost enum DestStepView {
    CheckExists(Seq<char>),
    FindMount(Seq<char>),
    CreateDir(Seq<char>),
    Mount(Seq<char>),
    Finish(Result<Seq<char>, Seq<char>>),
}

/// A [`DestEvent`] with its texts as character sequences.
pub ghost enum DestEventView {
    Begin,
    Exists(bool),
    MountFound(Option<Seq<char>>),
    Created(Result<(), Seq<char>>),
    Mounted(Result<Seq<char>, Seq<char>>),
}

impl View for DestStep {
    type V = DestStepView;

    open spec fn view(&self) -> DestStepView {
        match self {
            DestStep::CheckExists(p) => DestStepView::CheckExists(p@),
            DestStep::FindMount(u) => DestStepView::FindMount(u@),
            DestStep::CreateDir(p) => DestStepView::CreateDir(p@),
            DestStep::Mount(u) => DestStepView::Mount(u@),
            DestStep::Finish(Ok(p)) => DestStepView::Finish(Ok(p@)),
            DestStep::Finish(Err(e)) => DestStepView::Finish(Err(e@)),
        }
    }
}

impl View for DestEvent {
    type V = DestEventView;

    open spec fn view(&self) -> DestEventView {
        match self {
            DestEvent::Begin => DestEventView::Begin,
            DestEvent::Exists(b) => DestEventView::Exists(*b),
            DestEvent::MountFound(m) => DestEventView::MountFound(crate::config::opt_view(*m)),
            DestEvent::Created(Ok(())) => DestEventView::Created(Ok(())),
            DestEvent::Created(Err(e)) => DestEventView::Created(Err(e@)),
            DestEvent::Mounted(Ok(m)) => DestEventView::Mounted(Ok(m@)),
            DestEvent::Mounted(Err(e)) => DestEventView::Mounted(Err(e@)),
        }
    }
}

/// The events reaching the destination expects in each phase.
pub open spec fn dest_accepts(phase: DestPhase, ev: DestEventView) -> bool {
    match phase {
        DestPhase::NotStarted => ev is Begin,
        DestPhase::CheckingDest | DestPhase::CheckingCandidate | DestPhase::RecheckingDest => ev is Exists,
        DestPhase::FindingMount => ev is MountFound,
        DestPhase::CreatingOnMounted | DestPhase::CreatingAfterMount => ev is Created,
        DestPhase::Mounting => ev is Mounted,
        DestPhase::Finished => false,
    }
}

/// How reaching the destination proceeds.  The destination counts as
/// reached only once it was itself reported to exist: at once, or after it
/// was found below the partition's current mountpoint or created there, or
/// after the partition was mounted by UUID (and the destination created
/// unless it lies below the new mountpoint).  Each error carries the cause
/// that the outside work reported.
pub open spec fn dest_next(dest: Seq<char>, uuid: Option<Seq<char>>, phase: DestPhase, ev: DestEventView) -> (DestPhase, DestStepView) {
    match (phase, ev) {
        (DestPhase::NotStarted, _) => (DestPhase::CheckingDest, DestStepView::CheckExists(dest)),
        (DestPhase::CheckingDest, DestEventView::Exists(true)) => (DestPhase::Finished, DestStepView::Finish(Ok(dest))),
        (DestPhase::CheckingDest, _) => match uuid {
            Some(u) => (DestPhase::FindingMount, DestStepView::FindMount(u)),
            None => (DestPhase::Finished, DestStepView::Finish(Err(unreachable_text(dest)))),
        },
        (DestPhase::FindingMount, DestEventView::MountFound(Some(mp))) =>
            (DestPhase::CheckingCandidate, DestStepView::CheckExists(candidate_path(mp, dest))),
        (DestPhase::FindingMount, _) => match uuid {
            Some(u) => (DestPhase::Mounting, DestStepView::Mount(u)),
            None => (DestPhase::Finished, DestStepView::Finish(Err(unreachable_text(dest)))),
        },
        (DestPhase::CheckingCandidate, DestEventView::Exists(true)) => (DestPhase::RecheckingDest, DestStepView::CheckExists(dest)),
        (DestPhase::CheckingCandidate, _) => (DestPhase::CreatingOnMounted, DestStepView::CreateDir(dest)),
        (DestPhase::CreatingOnMounted, DestEventView::Created(Ok(()))) => (DestPhase::RecheckingDest, DestStepView::CheckExists(dest)),
        (DestPhase::CreatingOnMounted, DestEventView::Created(Err(cause))) =>
            (DestPhase::Finished, DestStepView::Finish(Err("creating dest dir "@ + dest + ": "@ + cause))),
        (DestPhase::CreatingOnMounted, _) => (DestPhase::Finished, DestStepView::Finish(Err("creating dest dir "@ + dest))),
        (DestPhase::Mounting, DestEventView::Mounted(Ok(mp))) => if crate::paths::path_starts_with(dest, mp) {
            (DestPhase::RecheckingDest, DestStepView::CheckExists(dest))
        } else {
            (DestPhase::CreatingAfterMount, DestStepView::CreateDir(dest))
        },
        (DestPhase::Mounting, DestEventView::Mounted(Err(cause))) => (DestPhase::Finished, DestStepView::Finish(Err(
            "auto-mounting UUID "@ + (match uuid { Some(u) => u, None => seq![] }) + ": "@ + cause))),
        (DestPhase::Mounting, _) => (DestPhase::Finished, DestStepView::Finish(Err(
            "auto-mounting UUID "@ + (match uuid { Some(u) => u, None => seq![] })))),
        (DestPhase::CreatingAfterMount, DestEventView::Created(Ok(()))) => (DestPhase::RecheckingDest, DestStepView::CheckExists(dest)),
        (DestPhase::CreatingAfterMount, DestEventView::Created(Err(cause))) =>
            (DestPhase::Finished, DestStepView::Finish(Err("creating dest dir after mount: "@ + cause))),
        (DestPhase::CreatingAfterMount, _) => (DestPhase::Finished, DestStepView::Finish(Err("creating dest dir after mount"@))),
        (DestPhase::RecheckingDest, DestEventView::Exists(true)) => (DestPhase::Finished, DestStepView::Finish(Ok(dest))),
        (DestPhase::RecheckingDest, _) => (DestPhase::Finished, DestStepView::Finish(Err(unreachable_text(dest)))),
        (DestPhase::Finished, _) => (DestPhase::Finished, DestStepView::Finish(Err(seq![]))),
    }
}

/// Reaching the backup destination, mounting the drive by UUID if needed.
#[derive(Debug)]
pub struct DestResolver {
    pub dest: String,
    pub uuid: Option<String>,
    pub phase: DestPhase,
}

fn strip_leading_slashes(v: &[char]) -> (r: Vec<char>)
    ensures
        r@ == below_root(v@),
{
    let mut i: usize = 0;
    assert(v@.skip(0) =~= v@);
    while i < v.len() && v[i] == '/'
        invariant
            i <= v@.len(),
            below_root(v@) == below_root(v@.skip(i as int)),
        decreases v@.len() - i,
    {
        assert(v@.skip(i as int).drop_first() =~= v@.skip(i + 1));
        i = i + 1;
    }
    let r = crate::split::slice_chars(v, i, v.len());
    assert(r@ =~= v@.skip(i as int));
    r
}

impl DestResolver {
    /// Start reaching `dest`, with the partition's UUID when known.
    pub fn new(dest: &str, uuid: &Option<String>) -> (r: DestResolver)
        ensures
            r.dest@ == dest@,
            crate::config::opt_view(r.uuid) == crate::config::opt_view(*uuid),
            r.phase == DestPhase::NotStarted,
    {
        assert(dest@.skip(0) =~= dest@);
        DestResolver { dest: String::from_str(dest), uuid: crate::text::clone_opt_string(uuid), phase: DestPhase::NotStarted }
    }

    fn finish(&mut self, r: Result<String, String>) -> (s: DestStep)
        ensures
            final(self).dest == old(self).dest,
            final(self).uuid == old(self).uuid,
            final(self).phase == DestPhase::Finished,
            s == DestStep::Finish(r),
    {
        self.phase = DestPhase::Finished;
        DestStep::Finish(r)
    }

    fn unreachable(&mut self) -> (s: DestStep)
        ensures
            final(self).dest == old(self).dest,
            final(self).uuid == old(self).uuid,
            final(self).phase == DestPhase::Finished,
            s@ == DestStepView::Finish(Err(unreachable_text(old(self).dest@))),
    {
        let mut t = String::from_str("Backup destination '");
        push_str(&mut t, self.dest.as_str());
        push_str(&mut t, "' is not accessible and could not be auto-mounted.\nPlease plug in the backup drive and try again.");
        self.finish(Err(t))
    }

    /// Advance with what the outside work reported; returns the next step.
    pub fn next(&mut self, ev: DestEvent) -> (s: DestStep)
        requires
            dest_accepts(old(self).phase, ev@),
        ensures
            final(self).dest == old(self).dest,
            final(self).uuid == old(self).uuid,
            (final(self).phase, s@) == dest_next(old(self).dest@, crate::config::opt_view(old(self).uuid), old(self).phase, ev@),
    {
        match (self.phase, ev) {
            (DestPhase::NotStarted, _) => {
                self.phase = DestPhase::CheckingDest;
                DestStep::CheckExists(self.dest.clone())
            }
            (DestPhase::CheckingDest, DestEvent::Exists(true)) => {
                let d = self.dest.clone();
                self.finish(Ok(d))
            }
            (DestPhase::CheckingDest, _) | (DestPhase::FindingMount, DestEvent::MountFound(None))
            | (DestPhase::FindingMount, DestEvent::Begin) | (DestPhase::FindingMount, DestEvent::Exists(_))
            | (DestPhase::FindingMount, DestEvent::Created(_)) | (DestPhase::FindingMount, DestEvent::Mounted(_)) => {
                let found_none = self.phase == DestPhase::FindingMount;
                match &self.uuid {
                    Some(u) => {
                        let u = u.clone();
                        if found_none {
                            self.phase = DestPhase::Mounting;
                            DestStep::Mount(u)
                        } else {
                            self.phase = DestPhase::FindingMount;
                            DestStep::FindMount(u)
                        }
                    }
                    None => self.unreachable(),
                }
            }
            (DestPhase::FindingMount, DestEvent::MountFound(Some(mp))) => {
                let d = chars_of(self.dest.as_str());
                let rel = if d.len() > 0 && d[0] == '/' { strip_leading_slashes(d.as_slice()) } else { d };
                let m = chars_of(mp.as_str());
                let c = crate::paths::join_chars(m.as_slice(), rel.as_slice());
                self.phase = DestPhase::CheckingCandidate;
                DestStep::CheckExists(c)
            }
            (DestPhase::CheckingCandidate, DestEvent::Exists(true))
            | (DestPhase::CreatingOnMounted, DestEvent::Created(Ok(()))) => {
                self.phase = DestPhase::RecheckingDest;
                DestStep::CheckExists(self.dest.clone())
            }
            (DestPhase::RecheckingDest, DestEvent::Exists(true)) => {
                let d = self.dest.clone();
                self.finish(Ok(d))
            }
            (DestPhase::CheckingCandidate, _) => {
                self.phase = DestPhase::CreatingOnMounted;
                DestStep::CreateDir(self.dest.clone())
            }
            (DestPhase::CreatingOnMounted, DestEvent::Created(Err(cause))) => {
                let mut t = crate::text::concat2("creating dest dir ", self.dest.as_str());
                push_str(&mut t, ": ");
                push_str(&mut t, cause.as_str());
                self.finish(Err(t))
            }
            (DestPhase::CreatingOnMounted, _) => {
                let t = crate::text::concat2("creating dest dir ", self.dest.as_str());
                self.finish(Err(t))
            }
            (DestPhase::Mounting, DestEvent::Mounted(Ok(mp))) => {
                if crate::paths::starts_with_path(self.dest.as_str(), mp.as_str()) {
                    self.phase = DestPhase::RecheckingDest;
                    DestStep::CheckExists(self.dest.clone())
                } else {
                    self.phase = DestPhase::CreatingAfterMount;
                    DestStep::CreateDir(self.dest.clone())
                }
            }
            (DestPhase::Mounting, DestEvent::Mounted(Err(cause))) => {
                let mut t = String::from_str("auto-mounting UUID ");
                match &self.uuid {
                    Some(u) => push_str(&mut t, u.as_str()),
                    None => {}
                }
                push_str(&mut t, ": ");
                push_str(&mut t, cause.as_str());
                self.finish(Err(t))
            }
            (DestPhase::Mounting, _) => {
                let mut t = String::from_str("auto-mounting UUID ");
                match &self.uuid {
                    Some(u) => push_str(&mut t, u.as_str()),
                    None => {}
                }
                self.finish(Err(t))
            }
            (DestPhase::CreatingAfterMount, DestEvent::Created(Ok(()))) => {
                self.phase = DestPhase::RecheckingDest;
                DestStep::CheckExists(self.dest.clone())
            }
            (DestPhase::CreatingAfterMount, DestEvent::Created(Err(cause))) => {
                let t = crate::text::concat2("creating dest dir after mount: ", cause.as_str());
                self.finish(Err(t))
            }
            (DestPhase::CreatingAfterMount, _) => {
                self.finish(Err(String::from_str("creating dest dir after mount")))
            }
            (DestPhase::RecheckingDest, _) => self.unreachable(),
            (DestPhase::Finished, _) => self.finish(Err(String::new())),
        }
    }
}

} // verus!
