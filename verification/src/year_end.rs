//! New-year reminder to archive the previous calendar year's backups.

use vstd::prelude::*;
use crate::config::opt_view;
use crate::text::{decimal, push_str, zero_padded};

verus! {

/// A calendar date (proleptic Gregorian), as chrono's `NaiveDate` holds it.
#[derive(Debug, Clone, Copy, PartialEq, Eq, Structural)]
pub struct CalendarDate {
    pub year: i32,
    pub month: u32,
    pub day: u32,
}

pub open spec fn is_leap_year(y: int) -> bool {
    (y % 4 == 0 && y % 100 != 0) || y % 400 == 0
}

pub open spec fn days_in_month(y: int, m: int) -> int {
    if m == 2 {
        if is_leap_year(y) { 29 } else { 28 }
    } else if m == 4 || m == 6 || m == 9 || m == 11 {
        30
    } else {
        31
    }
}

/// A date chrono can represent: years -262143 through 262142.
pub open spec fn is_valid_date(y: int, m: int, d: int) -> bool {
    -262143 <= y <= 262142 && 1 <= m <= 12 && 1 <= d <= days_in_month(y, m)
}

/// `%Y`: four digits for years 0 through 9999, otherwise a sign and at
/// least four digits.
pub open spec fn year_text(y: int) -> Seq<char> {
    if 0 <= y <= 9999 {
        zero_padded(y as nat, 4)
    } else if y > 9999 {
        seq!['+'] + zero_padded(y as nat, 4)
    } else {
        seq!['-'] + zero_padded((-y) as nat, 4)
    }
}

/// The date as `%Y-%m-%d`.
pub open spec fn iso_date_text(d: CalendarDate) -> Seq<char> {
    year_text(d.year as int) + seq!['-'] + zero_padded(d.month as nat, 2) + seq!['-'] + zero_padded(d.day as nat, 2)
}

impl CalendarDate {
    /// The date with these fields when it exists (as `NaiveDate::from_ymd_opt`).
    pub fn from_ymd_opt(year: i32, month: u32, day: u32) -> (r: Option<CalendarDate>)
        ensures
            r matches Some(d) ==> d.year == year && d.month == month && d.day == day,
            r is Some <==> is_valid_date(year as int, month as int, day as int),
    {
        if year < -262143 || year > 262142 || month < 1 || month > 12 || day < 1 {
            return None;
        }
        let leap = (year % 4 == 0 && year % 100 != 0) || year % 400 == 0;
        let max: u32 = if month == 2 {
            if leap { 29 } else { 28 }
        } else if month == 4 || month == 6 || month == 9 || month == 11 {
            30
        } else {
            31
        };
        assert(leap == is_leap_year(year as int));
        if day > max {
            None
        } else {
            Some(CalendarDate { year, month, day })
        }
    }

    /// The date as `YYYY-MM-DD` (chrono's `%Y-%m-%d`).
    pub fn iso_string(&self) -> (s: String)
        ensures
            s@ == iso_date_text(*self),
    {
        let mut s = String::new();
        let y = self.year as i64;
        if y > 9999 {
            crate::text::push_char(&mut s, '+');
        } else if y < 0 {
            crate::text::push_char(&mut s, '-');
        }
        let mag: u64 = if y < 0 { (0 - y) as u64 } else { y as u64 };
        crate::text::push_zero_padded(&mut s, mag, 4);
        proof {
            if y > 9999 {
                assert(s@ =~= year_text(self.year as int));
            } else if y < 0 {
                assert(mag as nat == (-(self.year as int)) as nat);
                assert(s@ =~= year_text(self.year as int));
            } else {
                assert(s@ =~= year_text(self.year as int));
            }
        }
        let ghost ys = s@;
        crate::text::push_char(&mut s, '-');
        crate::text::push_zero_padded(&mut s, self.month as u64, 2);
        crate::text::push_char(&mut s, '-');
        crate::text::push_zero_padded(&mut s, self.day as u64, 2);
        assert(s@ =~= ys + seq!['-'] + zero_padded(self.month as nat, 2) + seq!['-'] + zero_padded(self.day as nat, 2));
        s
    }
}

/// Persisted dismiss / remind state for the year-end archive prompt.
#[derive(Debug)]
pub struct YearEndReminderState {
    /// Archive year the user marked complete (e.g. 2025 when dismissed in Jan 2026).
    pub dismissed_archive_year: Option<u32>,
    /// Last calendar date (`YYYY-MM-DD`) the dialog was shown or snoozed.
    pub last_reminded_date: Option<String>,
}

/// The reminder state as mathematical values.
pub ghost struct ReminderView {
    pub dismissed_archive_year: Option<u32>,
    pub last_reminded_date: Option<Seq<char>>,
}

impl View for YearEndReminderState {
    type V = ReminderView;

    open spec fn view(&self) -> ReminderView {
        ReminderView {
            dismissed_archive_year: self.dismissed_archive_year,
            last_reminded_date: opt_view(self.last_reminded_date),
        }
    }
}

/// The archive year to prompt about on `today`: only in January, for the
/// previous year (when it is not negative), unless that year was dismissed
/// or the prompt was already shown today.
pub open spec fn reminder_due(s: ReminderView, today: CalendarDate) -> Option<u32> {
    if today.month != 1 || (today.year as int) - 1 < 0 {
        None
    } else {
        let archive = ((today.year as int) - 1) as u32;
        if s.dismissed_archive_year == Some(archive) {
            None
        } else if s.last_reminded_date == Some(iso_date_text(today)) {
            None
        } else {
            Some(archive)
        }
    }
}

impl YearEndReminderState {
    /// No dismissal and no reminder yet.
    pub fn new() -> (s: YearEndReminderState)
        ensures
            s@ == (ReminderView { dismissed_archive_year: None, last_reminded_date: None }),
    {
        YearEndReminderState { dismissed_archive_year: None, last_reminded_date: None }
    }

    /// Returns the archive year to prompt about, if the dialog should open today.
    pub fn should_show_today(&self, today: &CalendarDate) -> (r: Option<u32>)
        ensures
            r == reminder_due(self@, *today),
    {
        if today.month != 1 {
            return None;
        }
        let y = today.year as i64 - 1;
        if y < 0 {
            return None;
        }
        let archive_year = y as u32;
        if self.dismissed_archive_year == Some(archive_year) {
            return None;
        }
        let today_str = today.iso_string();
        match &self.last_reminded_date {
            Some(d) => {
                if *d == today_str {
                    return None;
                }
            }
            None => {}
        }
        Some(archive_year)
    }

    /// Remember that the prompt was shown (or snoozed) on `today`.
    pub fn mark_remind_today(&mut self, today: &CalendarDate)
        ensures
            final(self)@ == (ReminderView { last_reminded_date: Some(iso_date_text(*today)), ..old(self)@ }),
    {
        self.last_reminded_date = Some(today.iso_string());
    }

    /// Remember that the archive of `archive_year` is complete.
    pub fn mark_dismissed(&mut self, archive_year: u32)
        ensures
            final(self)@ == (ReminderView { dismissed_archive_year: Some(archive_year), last_reminded_date: None }),
    {
        self.dismissed_archive_year = Some(archive_year);
        self.last_reminded_date = None;
    }
}

impl Default for YearEndReminderState {
    /// No dismissal and no reminder yet.
    fn default() -> (s: YearEndReminderState)
        ensures
            s@ == (ReminderView { dismissed_archive_year: None, last_reminded_date: None }),
    {
        YearEndReminderState::new()
    }
}

/// The archive year named when the prompt is forced: last year, when it is
/// not negative.
pub open spec fn forced_archive_year(today: CalendarDate) -> Option<u32> {
    if (today.year as int) - 1 < 0 {
        None
    } else {
        Some(((today.year as int) - 1) as u32)
    }
}

/// Whether to prompt today, and about which year: when forced, about last
/// year; otherwise as the stored state decides.
pub fn should_show_year_end_reminder(forced: bool, state: &YearEndReminderState, today: &CalendarDate) -> (r: Option<u32>)
    ensures
        r == (if forced { forced_archive_year(*today) } else { reminder_due(state@, *today) }),
{
    if forced {
        let y = today.year as i64 - 1;
        if y < 0 {
            None
        } else {
            Some(y as u32)
        }
    } else {
        state.should_show_today(today)
    }
}

impl YearEndReminderState {
    /// The reminder state file.
    pub fn state_path(data_dir_override: &Option<String>) -> (p: String)
        ensures
            exists|d: Option<Seq<char>>| p@ == crate::paths::path_join(crate::config::data_dir_of(crate::config::opt_view(*data_dir_override), d), "year-end-reminder.toml"@),
    {
        let d = crate::config::Config::data_dir(data_dir_override);
        let p = state_path_in(d.as_str());
        let ghost w = choose|w: Option<Seq<char>>| d@ == crate::config::data_dir_of(crate::config::opt_view(*data_dir_override), w);
        assert(p@ == crate::paths::path_join(crate::config::data_dir_of(crate::config::opt_view(*data_dir_override), w), "year-end-reminder.toml"@));
        p
    }
}

/// The reminder never opens outside January.
pub proof fn lemma_reminder_only_in_january(s: ReminderView, today: CalendarDate)
    requires
        reminder_due(s, today) is Some,
    ensures
        today.month == 1,
        reminder_due(s, today) == Some(((today.year as int) - 1) as u32),
{
}

/// After "Remind Me Tomorrow" the prompt stays closed for the rest of the day.
pub proof fn lemma_reminded_today_is_quiet(s: ReminderView, today: CalendarDate)
    ensures
        reminder_due(ReminderView { last_reminded_date: Some(iso_date_text(today)), ..s }, today) is None,
{
}

/// After "Archive Complete" the prompt stays closed for that archive year.
pub proof fn lemma_dismissed_year_is_quiet(archive_year: u32, today: CalendarDate)
    requires
        (today.year as int) - 1 == archive_year,
    ensures
        reminder_due(ReminderView { dismissed_archive_year: Some(archive_year), last_reminded_date: None }, today) is None,
{
}

/// When the prompt is due: exactly on a January day of a year after 0,
/// when the previous year is not the dismissed archive year and the prompt
/// was not already shown that day; it then asks about the previous year.
/// A dismissal of some other (earlier) year does not silence it.
pub proof fn lemma_reminder_due_exactly(s: ReminderView, today: CalendarDate)
    ensures
        reminder_due(s, today) is Some <==> {
            &&& today.month == 1
            &&& today.year >= 1
            &&& s.dismissed_archive_year != Some(((today.year as int) - 1) as u32)
            &&& s.last_reminded_date != Some(iso_date_text(today))
        },
        reminder_due(s, today) is Some ==> reminder_due(s, today) == Some(((today.year as int) - 1) as u32),
{
}

/// A snooze lasts one day whatever was dismissed before: on another
/// January day the prompt is back unless the previous year itself was
/// dismissed.
pub proof fn lemma_snooze_lasts_one_day_after_any_dismissal(s: ReminderView, shown: CalendarDate, today: CalendarDate)
    requires
        s.dismissed_archive_year != Some(((today.year as int) - 1) as u32),
        today.month == 1,
        today.year >= 1,
        today != shown,
        1 <= today.month <= 12 && 1 <= today.day <= 31 && 1 <= shown.month <= 12 && 1 <= shown.day <= 31,
    ensures
        reminder_due(ReminderView { last_reminded_date: Some(iso_date_text(shown)), ..s }, today)
            == Some(((today.year as int) - 1) as u32),
{
    lemma_iso_date_injective(shown, today);
}

/// The prompt comes back on another January day when it was only snoozed.
pub proof fn lemma_snooze_lasts_one_day(s: ReminderView, shown: CalendarDate, today: CalendarDate)
    requires
        s.dismissed_archive_year is None,
        today.month == 1,
        today.year >= 1,
        today != shown,
        1 <= today.month <= 12 && 1 <= today.day <= 31 && 1 <= shown.month <= 12 && 1 <= shown.day <= 31,
    ensures
        reminder_due(ReminderView { last_reminded_date: Some(iso_date_text(shown)), ..s }, today)
            == Some(((today.year as int) - 1) as u32),
{
    lemma_iso_date_injective(shown, today);
}

/// Distinct dates have distinct `%Y-%m-%d` texts.
pub proof fn lemma_iso_date_injective(a: CalendarDate, b: CalendarDate)
    requires
        a != b,
        1 <= a.month <= 12 && 1 <= a.day <= 31 && 1 <= b.month <= 12 && 1 <= b.day <= 31,
    ensures
        iso_date_text(a) != iso_date_text(b),
{
    let ta = iso_date_text(a);
    let tb = iso_date_text(b);
    if ta == tb {
        let ya = year_text(a.year as int);
        let yb = year_text(b.year as int);
        crate::text::lemma_zero_padded(a.month as nat, 2);
        crate::text::lemma_zero_padded(b.month as nat, 2);
        crate::text::lemma_zero_padded(a.day as nat, 2);
        crate::text::lemma_zero_padded(b.day as nat, 2);
        lemma_year_text(a.year as int);
        lemma_year_text(b.year as int);
        assert(ta.len() == ya.len() + 6);
        assert(tb.len() == yb.len() + 6);
        let n = ta.len();
        assert(ta.subrange(n - 2, n as int) =~= zero_padded(a.day as nat, 2));
        assert(tb.subrange(n - 2, n as int) =~= zero_padded(b.day as nat, 2));
        assert(ta.subrange(n - 5, n - 3) =~= zero_padded(a.month as nat, 2));
        assert(tb.subrange(n - 5, n - 3) =~= zero_padded(b.month as nat, 2));
        assert(ta.take(n - 6) =~= ya);
        assert(tb.take(n - 6) =~= yb);
        lemma_year_text_injective(a.year as int, b.year as int);
    }
}

proof fn lemma_year_text(y: int)
    ensures
        year_text(y).len() >= 4,
        0 <= y <= 9999 ==> crate::scan::is_digit(year_text(y)[0]),
        y > 9999 ==> year_text(y)[0] == '+',
        y < 0 ==> year_text(y)[0] == '-',
{
    if 0 <= y <= 9999 {
        crate::text::lemma_zero_padded(y as nat, 4);
    } else if y > 9999 {
        crate::text::lemma_zero_padded(y as nat, 4);
    } else {
        crate::text::lemma_zero_padded((-y) as nat, 4);
    }
}

proof fn lemma_year_text_injective(x: int, y: int)
    requires
        year_text(x) == year_text(y),
    ensures
        x == y,
{
    lemma_year_text(x);
    lemma_year_text(y);
    let t = year_text(x);
    if 0 <= x <= 9999 {
        crate::text::lemma_zero_padded(x as nat, 4);
        if 0 <= y <= 9999 {
            crate::text::lemma_zero_padded(y as nat, 4);
        }
    } else if x > 9999 {
        crate::text::lemma_zero_padded(x as nat, 4);
        if y > 9999 {
            crate::text::lemma_zero_padded(y as nat, 4);
            assert(t.drop_first() =~= zero_padded(x as nat, 4));
            assert(year_text(y).drop_first() =~= zero_padded(y as nat, 4));
        }
    } else {
        crate::text::lemma_zero_padded((-x) as nat, 4);
        if y < 0 {
            crate::text::lemma_zero_padded((-y) as nat, 4);
            assert(t.drop_first() =~= zero_padded((-x) as nat, 4));
            assert(year_text(y).drop_first() =~= zero_padded((-y) as nat, 4));
        }
    }
}

// ── Snapshots of the archive year ───────────────────────────────────────────

/// The year in a snapshot name (`full-YYYY-…`): the four bytes after the
/// first `-`, read as a number.
pub open spec fn snapshot_year(name: Seq<char>) -> Option<i32> {
    let i = crate::split::index_of(name, '-');
    if i < name.len() {
        match crate::order::utf8_prefix(name.skip(i as int + 1), 4) {
            Some(t) => match crate::scan::parse_signed(t) {
                Some(v) => if i32::MIN <= v <= i32::MAX { Some(v as i32) } else { None },
                None => None,
            },
            None => None,
        }
    } else {
        None
    }
}

/// The year a snapshot name carries, if any.
pub fn snapshot_year_from_name(name: &str) -> (r: Option<i32>)
    ensures
        r == snapshot_year(name@),
{
    let v = crate::text::chars_of(name);
    let i = crate::split::index_of_from(v.as_slice(), '-', 0);
    assert(v@.skip(0) =~= v@);
    if i == v.len() {
        return None;
    }
    match crate::order::utf8_prefix_from(v.as_slice(), i + 1, 4) {
        None => None,
        Some(t) => crate::scan::parse_i32(t.as_slice()),
    }
}

/// How a directory entry counts toward a year's usage.
#[derive(Debug, Clone, Copy, PartialEq, Eq, Structural)]
pub enum YearSnapshotKind {
    Full,
    Incremental,
}

/// A directory of `year` counts as a full snapshot when named `full-…`
/// and as an incremental one when named `inc-…`.
pub open spec fn year_snapshot_kind(name: Seq<char>, is_dir: bool, year: i32) -> Option<YearSnapshotKind> {
    if !is_dir || snapshot_year(name) != Some(year) {
        None
    } else if crate::split::starts_with(name, "full-"@) {
        Some(YearSnapshotKind::Full)
    } else if crate::split::starts_with(name, "inc-"@) {
        Some(YearSnapshotKind::Incremental)
    } else {
        None
    }
}

/// How an entry counts toward the usage of `year`.
pub fn classify_year_snapshot(name: &str, is_dir: bool, year: i32) -> (r: Option<YearSnapshotKind>)
    ensures
        r == year_snapshot_kind(name@, is_dir, year),
{
    if !is_dir {
        return None;
    }
    match snapshot_year_from_name(name) {
        Some(y) => {
            if y != year {
                return None;
            }
        }
        None => return None,
    }
    let v = crate::text::chars_of(name);
    let full = crate::text::chars_of("full-");
    let inc = crate::text::chars_of("inc-");
    if crate::split::starts_with_exec(v.as_slice(), full.as_slice()) {
        Some(YearSnapshotKind::Full)
    } else if crate::split::starts_with_exec(v.as_slice(), inc.as_slice()) {
        Some(YearSnapshotKind::Incremental)
    } else {
        None
    }
}

/// Counts and total size of one year's snapshots.
#[derive(Debug, Clone, Copy, PartialEq, Eq, Structural)]
pub struct YearSnapshotSummary {
    pub full_count: u32,
    pub inc_count: u32,
    pub bytes: u64,
}

impl YearSnapshotSummary {
    /// Nothing counted yet.
    pub fn new() -> (s: YearSnapshotSummary)
        ensures
            s == (YearSnapshotSummary { full_count: 0, inc_count: 0, bytes: 0 }),
    {
        YearSnapshotSummary { full_count: 0, inc_count: 0, bytes: 0 }
    }

    /// Count one snapshot of `bytes` bytes; the byte total saturates.
    pub fn add(&mut self, kind: YearSnapshotKind, bytes: u64)
        requires
            kind == YearSnapshotKind::Full ==> old(self).full_count < u32::MAX,
            kind == YearSnapshotKind::Incremental ==> old(self).inc_count < u32::MAX,
        ensures
            final(self).full_count == old(self).full_count + (if kind == YearSnapshotKind::Full { 1int } else { 0 }),
            final(self).inc_count == old(self).inc_count + (if kind == YearSnapshotKind::Incremental { 1int } else { 0 }),
            final(self).bytes == (if old(self).bytes + bytes > u64::MAX { u64::MAX as int } else { old(self).bytes + bytes }),
    {
        match kind {
            YearSnapshotKind::Full => self.full_count = self.full_count + 1,
            YearSnapshotKind::Incremental => self.inc_count = self.inc_count + 1,
        }
        self.bytes = self.bytes.saturating_add(bytes);
    }
}

/// Snapshot usage attributed to one calendar year on the backup drive.
#[derive(Debug, Clone, Copy, PartialEq, Eq, Structural)]
pub struct PriorYearUsage {
    pub archive_year: u32,
    pub full_count: u32,
    pub inc_count: u32,
    pub snapshot_bytes: u64,
    pub drive_available: Option<u64>,
    pub drive_total: Option<u64>,
}

/// The usage report for `archive_year`: the drive's free and total bytes
/// when they could be read, and the year's snapshots when they could be
/// counted.
pub fn prior_year_usage_from(archive_year: u32, drive: Option<(u64, u64)>, snapshots: Option<YearSnapshotSummary>) -> (u: PriorYearUsage)
    ensures
        u.archive_year == archive_year,
        u.drive_available == (match drive { Some(d) => Some(d.0), None => None::<u64> }),
        u.drive_total == (match drive { Some(d) => Some(d.1), None => None::<u64> }),
        u.full_count == (match snapshots { Some(s) => s.full_count, None => 0 }),
        u.inc_count == (match snapshots { Some(s) => s.inc_count, None => 0 }),
        u.snapshot_bytes == (match snapshots { Some(s) => s.bytes, None => 0 }),
{
    let mut u = PriorYearUsage {
        archive_year,
        full_count: 0,
        inc_count: 0,
        snapshot_bytes: 0,
        drive_available: None,
        drive_total: None,
    };
    if let Some((avail, total)) = drive {
        u.drive_available = Some(avail);
        u.drive_total = Some(total);
    }
    if let Some(s) = snapshots {
        u.full_count = s.full_count;
        u.inc_count = s.inc_count;
        u.snapshot_bytes = s.bytes;
    }
    u
}

/// Human-readable size (as in the backup summary).
pub fn format_bytes(n: u64) -> (r: String)
    ensures
        r@ == crate::size::format_bytes_text(n as nat),
{
    crate::size::format_bytes(n)
}

/// The text of the reminder dialog.
pub open spec fn dialog_body_text(dest: Seq<char>, u: PriorYearUsage) -> Seq<char> {
    let year = decimal(u.archive_year as nat);
    let snapshot_line = if u.full_count == 0 && u.inc_count == 0 {
        "No full or incremental snapshots from "@ + year + " were found under:\n  "@ + dest
    } else {
        year + " backups on disk: "@ + decimal(u.full_count as nat) + " full and "@
            + decimal(u.inc_count as nat) + " incremental snapshots, about "@
            + crate::size::format_bytes_text(u.snapshot_bytes as nat) + " total."@
    };
    let drive_line = match (u.drive_available, u.drive_total) {
        (Some(a), Some(t)) => "Backup drive space: "@ + crate::size::format_bytes_text(a as nat) + " free of "@
            + crate::size::format_bytes_text(t as nat) + " total."@,
        _ => "Backup destination is not reachable right now:\n  "@ + dest
            + "\nPlug in the backup drive to review space usage."@,
    };
    "It is January — time to review last year's backups.\n\n"@ + snapshot_line + "\n"@ + drive_line
        + "\n\nConsider archiving "@ + year
        + " snapshots to cold storage or moving backups to a new disk before continuing this year."@
}

/// The text of the reminder dialog for the destination `dest`.
pub fn build_dialog_body(dest: &str, u: &PriorYearUsage) -> (r: String)
    ensures
        r@ == dialog_body_text(dest@, *u),
{
    let mut snapshot_line = String::new();
    if u.full_count == 0 && u.inc_count == 0 {
        push_str(&mut snapshot_line, "No full or incremental snapshots from ");
        crate::text::push_decimal(&mut snapshot_line, u.archive_year as u64);
        push_str(&mut snapshot_line, " were found under:\n  ");
        push_str(&mut snapshot_line, dest);
    } else {
        crate::text::push_decimal(&mut snapshot_line, u.archive_year as u64);
        push_str(&mut snapshot_line, " backups on disk: ");
        crate::text::push_decimal(&mut snapshot_line, u.full_count as u64);
        push_str(&mut snapshot_line, " full and ");
        crate::text::push_decimal(&mut snapshot_line, u.inc_count as u64);
        push_str(&mut snapshot_line, " incremental snapshots, about ");
        let b = crate::size::format_bytes(u.snapshot_bytes);
        push_str(&mut snapshot_line, b.as_str());
        push_str(&mut snapshot_line, " total.");
    }
    let mut drive_line = String::new();
    match (u.drive_available, u.drive_total) {
        (Some(a), Some(t)) => {
            push_str(&mut drive_line, "Backup drive space: ");
            let fa = crate::size::format_bytes(a);
            push_str(&mut drive_line, fa.as_str());
            push_str(&mut drive_line, " free of ");
            let ft = crate::size::format_bytes(t);
            push_str(&mut drive_line, ft.as_str());
            push_str(&mut drive_line, " total.");
        }
        _ => {
            push_str(&mut drive_line, "Backup destination is not reachable right now:\n  ");
            push_str(&mut drive_line, dest);
            push_str(&mut drive_line, "\nPlug in the backup drive to review space usage.");
        }
    }
    let mut r = String::from_str("It is January — time to review last year's backups.\n\n");
    push_str(&mut r, snapshot_line.as_str());
    push_str(&mut r, "\n");
    push_str(&mut r, drive_line.as_str());
    push_str(&mut r, "\n\nConsider archiving ");
    crate::text::push_decimal(&mut r, u.archive_year as u64);
    push_str(&mut r, " snapshots to cold storage or moving backups to a new disk before continuing this year.");
    r
}

/// The title of the reminder dialog.
pub fn dialog_title(archive_year: u32) -> (r: String)
    ensures
        r@ == "Archive "@ + decimal(archive_year as nat) + " backups?"@,
{
    let mut r = String::from_str("Archive ");
    crate::text::push_decimal(&mut r, archive_year as u64);
    push_str(&mut r, " backups?");
    r
}

/// The reminder state file in the data directory.
pub fn state_path_in(data_dir: &str) -> (p: String)
    ensures
        p@ == crate::paths::path_join(data_dir@, "year-end-reminder.toml"@),
{
    crate::paths::join_path(data_dir, "year-end-reminder.toml")
}

} // verus!
