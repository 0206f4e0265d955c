//! What the windows show and read back: the schedule fields, the exclude
//! list as text, the review and status panels, the install checks and
//! recap, and the order of the setup wizard's pages.

use vstd::prelude::*;
use crate::backup::join_lines;
use crate::config::{string_views, Config, ConfigView};
use crate::scan::{eq_ignore_ascii_case, trim};
use crate::split::{lines, views};
use crate::text::{decimal, push_chars, push_decimal, push_str, push_zero_padded, zero_padded};

verus! {

// ── Schedule fields ─────────────────────────────────────────────────────────

/// The days offered for the weekly full backup, Monday first.
pub open spec fn weekdays() -> Seq<Seq<char>> {
    seq!["Monday"@, "Tuesday"@, "Wednesday"@, "Thursday"@, "Friday"@, "Saturday"@, "Sunday"@]
}

/// Position of the first weekday from `i` on that equals `day` ignoring
/// ASCII case, or 0 when none does.
pub open spec fn first_weekday_from(day: Seq<char>, i: nat) -> nat
    decreases 7 - i,
{
    if i >= 7 {
        0
    } else if eq_ignore_ascii_case(weekdays()[i as int], day) {
        i
    } else {
        first_weekday_from(day, i + 1)
    }
}

pub(crate) fn weekday_names() -> (v: Vec<&'static str>)
    ensures
        v@.len() == 7,
        forall|i: int| 0 <= i < 7 ==> v@[i]@ == weekdays()[i],
{
    let v = vec!["Monday", "Tuesday", "Wednesday", "Thursday", "Friday", "Saturday", "Sunday"];
    v
}

/// Which entry of the day selector shows the stored full-backup day: the
/// first weekday that matches it ignoring ASCII case, Monday otherwise.
pub fn weekday_index(day: &str) -> (r: u32)
    ensures
        r < 7,
        r == first_weekday_from(day@, 0),
{
    let names = weekday_names();
    let mut i: usize = 0;
    while i < 7
        invariant
            i <= 7,
            names@.len() == 7,
            forall|k: int| 0 <= k < 7 ==> names@[k]@ == weekdays()[k],
            first_weekday_from(day@, i as nat) == first_weekday_from(day@, 0),
        decreases 7 - i,
    {
        if crate::scan::str_eq_ignore_ascii_case(names[i], day) {
            return i as u32;
        }
        i = i + 1;
    }
    0
}

/// `HH:MM` with two digits each.
pub open spec fn time_text(h: u8, m: u8) -> Seq<char> {
    zero_padded(h as nat, 2) + ":"@ + zero_padded(m as nat, 2)
}

/// The `backup_time` setting for the chosen hour and minute.
pub fn backup_time_text(h: u8, m: u8) -> (r: String)
    ensures
        r@ == time_text(h, m),
{
    let mut r = String::new();
    push_zero_padded(&mut r, h as u64, 2);
    push_str(&mut r, ":");
    push_zero_padded(&mut r, m as u64, 2);
    r
}

/// A time saved from the schedule editors reads back as the same hour and
/// minute: `backup_hm` undoes `backup_time_text`.
pub proof fn lemma_backup_time_round_trip(h: u8, m: u8)
    ensures
        crate::config::backup_hm_of(time_text(h, m)) == (h, m),
{
    let a = zero_padded(h as nat, 2);
    let b = zero_padded(m as nat, 2);
    reveal_strlit(":");
    let t = a + ":"@ + b;
    crate::text::lemma_zero_padded(h as nat, 2);
    crate::text::lemma_zero_padded(m as nat, 2);
    assert forall|j: int| 0 <= j < a.len() implies t[j] != ':' by {
        assert(t[j] == a[j]);
        assert(crate::scan::is_digit(a[j]));
    }
    assert(t[a.len() as int] == ':');
    crate::split::lemma_index_of_at(t, ':', a.len() as int);
    assert(t.take(a.len() as int) =~= a);
    assert(t.skip(a.len() as int + 1) =~= b);
    let parts = crate::split::splitn(t, 2, ':');
    assert(crate::split::splitn(b, 1, ':') == seq![b]);
    assert(parts =~= seq![a, b]);
    assert(crate::scan::is_digit(a[0]));
    assert(crate::scan::is_digit(b[0]));
    assert(crate::scan::parse_unsigned(a) == Some(h as nat));
    assert(crate::scan::parse_unsigned(b) == Some(m as nat));
}

/// The period shown by the incremental selector: at least one day.
pub fn incremental_period_shown(n: u32) -> (r: u32)
    ensures
        r == (if n < 1 { 1 } else { n }),
{
    if n < 1 { 1 } else { n }
}

// ── Exclude patterns as text ────────────────────────────────────────────────

/// The lines of `ls` that hold something other than whitespace, in order.
pub open spec fn pattern_lines(ls: Seq<Seq<char>>) -> Seq<Seq<char>>
    decreases ls.len(),
{
    if ls.len() == 0 {
        seq![]
    } else if trim(ls.last()).len() == 0 {
        pattern_lines(ls.drop_last())
    } else {
        pattern_lines(ls.drop_last()).push(ls.last())
    }
}

/// The exclude patterns typed into the editor: one per non-blank line,
/// kept as typed.
pub fn parse_excludes_text(text: &str) -> (r: Vec<String>)
    ensures
        string_views(r@) == pattern_lines(lines(text@)),
{
    let t = crate::text::chars_of(text);
    let ls = crate::split::lines_exec(t.as_slice());
    let ghost lv = views(ls@);
    let mut r: Vec<String> = Vec::new();
    let mut i: usize = 0;
    assert(string_views(r@) =~= pattern_lines(lv.take(0)));
    while i < ls.len()
        invariant
            i <= ls@.len(),
            lv == views(ls@),
            string_views(r@) == pattern_lines(lv.take(i as int)),
        decreases ls@.len() - i,
    {
        proof {
            assert(lv.take(i + 1).drop_last() =~= lv.take(i as int));
            assert(lv.take(i + 1).last() == ls@[i as int]@);
        }
        let tr = crate::scan::trim_chars(ls[i].as_slice());
        if tr.len() > 0 {
            let s = crate::text::string_of(ls[i].as_slice());
            let ghost before = r@;
            r.push(s);
            assert(string_views(r@) =~= string_views(before).push(ls@[i as int]@));
        }
        i = i + 1;
    }
    assert(lv.take(i as int) =~= lv);
    r
}

/// Strings joined with newlines (the exclude editor's text, the install log).
pub fn lines_text(v: &Vec<String>) -> (r: String)
    ensures
        r@ == join_lines(string_views(v@)),
{
    let ghost sv = string_views(v@);
    let mut r = String::new();
    let mut i: usize = 0;
    while i < v.len()
        invariant
            i <= v@.len(),
            sv == string_views(v@),
            r@ == join_lines(sv.take(i as int)),
        decreases v@.len() - i,
    {
        proof {
            assert(sv.take(i + 1).drop_last() =~= sv.take(i as int));
        }
        if i > 0 {
            push_str(&mut r, "\n");
        }
        push_str(&mut r, v[i].as_str());
        i = i + 1;
        assert(r@ =~= join_lines(sv.take(i as int)));
    }
    assert(sv.take(i as int) =~= sv);
    r
}

/// A pattern that the exclude editor shows as one line of its own: not
/// blank, without a line break, and not ending in a carriage return.
pub open spec fn is_editor_line(p: Seq<char>) -> bool {
    &&& trim(p).len() > 0
    &&& forall|j: int| 0 <= j < p.len() ==> p[j] != '\n'
    &&& !(p.len() > 0 && p.last() == '\r')
}

pub(crate) proof fn lemma_join_front(v: Seq<Seq<char>>)
    requires
        v.len() >= 2,
    ensures
        join_lines(v) == v[0] + "\n"@ + join_lines(v.skip(1)),
    decreases v.len(),
{
    if v.len() == 2 {
        assert(v.drop_last() =~= seq![v[0]]);
        assert(v.skip(1) =~= seq![v[1]]);
        assert(join_lines(v.drop_last()) == v[0]);
        assert(join_lines(v.skip(1)) == v[1]);
        assert(v.last() == v[1]);
        assert(join_lines(v) =~= v[0] + "\n"@ + join_lines(v.skip(1)));
    } else {
        lemma_join_front(v.drop_last());
        assert(v.drop_last().skip(1) =~= v.skip(1).drop_last());
        assert(v.skip(1).last() == v.last());
        assert(join_lines(v.skip(1)) == join_lines(v.skip(1).drop_last()) + "\n"@ + v.skip(1).last());
        assert(join_lines(v) =~= v[0] + "\n"@ + join_lines(v.skip(1)));
    }
}

proof fn lemma_lines_of_join(v: Seq<Seq<char>>)
    requires
        forall|i: int| 0 <= i < v.len() ==> is_editor_line(#[trigger] v[i]),
    ensures
        lines(join_lines(v)) == v,
    decreases v.len(),
{
    reveal_strlit("\n");
    if v.len() == 0 {
        assert(lines(join_lines(v)) =~= v);
    } else if v.len() == 1 {
        let a = v[0];
        assert(is_editor_line(a));
        crate::scan::lemma_leading_ws_bound(a);
        assert(a.len() > 0);
        crate::split::lemma_index_of_at(a, '\n', a.len() as int);
        assert(lines(a) == seq![a]);
        assert(lines(join_lines(v)) =~= v);
    } else {
        lemma_join_front(v);
        let a = v[0];
        let rest = v.skip(1);
        let t = a + "\n"@ + join_lines(rest);
        assert(is_editor_line(a));
        assert forall|j: int| 0 <= j < a.len() implies t[j] != '\n' by {
            assert(t[j] == a[j]);
        }
        assert(t[a.len() as int] == '\n');
        crate::split::lemma_index_of_at(t, '\n', a.len() as int);
        assert(t.take(a.len() as int) =~= a);
        assert(t.skip(a.len() as int + 1) =~= join_lines(rest));
        assert forall|i: int| 0 <= i < rest.len() implies is_editor_line(#[trigger] rest[i]) by {
            assert(rest[i] == v[i + 1]);
        }
        lemma_lines_of_join(rest);
        assert(lines(t) == seq![a] + rest);
        assert(seq![a] + rest =~= v);
    }
}

proof fn lemma_pattern_lines_keep(v: Seq<Seq<char>>)
    requires
        forall|i: int| 0 <= i < v.len() ==> is_editor_line(#[trigger] v[i]),
    ensures
        pattern_lines(v) == v,
    decreases v.len(),
{
    if v.len() > 0 {
        assert forall|i: int| 0 <= i < v.drop_last().len() implies is_editor_line(#[trigger] v.drop_last()[i]) by {
            assert(v.drop_last()[i] == v[i]);
        }
        lemma_pattern_lines_keep(v.drop_last());
        assert(is_editor_line(v[v.len() - 1]));
        assert(v.drop_last().push(v.last()) =~= v);
    }
}

/// Patterns written to the exclude editor read back unchanged: saving the
/// editor's text without editing it keeps the list (each pattern being a
/// line of its own).
pub proof fn lemma_excludes_round_trip(v: Seq<Seq<char>>)
    requires
        forall|i: int| 0 <= i < v.len() ==> is_editor_line(#[trigger] v[i]),
    ensures
        pattern_lines(lines(join_lines(v))) == v,
{
    lemma_lines_of_join(v);
    lemma_pattern_lines_keep(v);
}

// ── Panels ──────────────────────────────────────────────────────────────────

/// How often incrementals run, in words.
pub open spec fn incremental_words(n: u32) -> Seq<char> {
    if n == 1 {
        "daily"@
    } else if n == 7 {
        "weekly"@
    } else {
        "every "@ + decimal(n as nat) + " days"@
    }
}

/// An optional setting, or a placeholder.
pub open spec fn or_text(o: Option<Seq<char>>, none: Seq<char>) -> Seq<char> {
    match o {
        Some(s) => s,
        None => none,
    }
}

/// The settings shown before installing.
pub open spec fn review_spec(c: ConfigView) -> Seq<char> {
    "Source directory  : "@ + c.source_dir
        + "\nBackup destination: "@ + c.dest_dir
        + "\nDrive UUID        : "@ + or_text(c.drive_uuid, "(none)"@)
        + "\nDrive label       : "@ + or_text(c.drive_label, "(none)"@)
        + "\nFull backup day   : "@ + c.full_backup_day
        + "\nDaily time        : "@ + c.backup_time
        + "\nIncrementals      : "@ + incremental_words(c.incremental_every_n_days)
        + "\nRetention         : "@ + decimal(c.retention_days as nat)
        + " days\nExcludes          : "@ + decimal(c.excludes.len())
        + " patterns\n\nWhat will be installed:\n• ~/.config/systemd/user/backup-tool.service\n• ~/.config/systemd/user/backup-tool.timer  (OnCalendar=*-*-* "@
        + c.backup_time
        + ")\n• ~/.local/share/applications/backup-tool.desktop\n• ~/.local/share/icons/hicolor/128x128/apps/backup-tool.png\n• ~/.config/backup-tool/config.toml"@
}

fn push_opt(r: &mut String, o: &Option<String>, none: &str)
    ensures
        final(r)@ == old(r)@ + or_text(crate::config::opt_view(*o), none@),
{
    match o {
        Some(s) => push_str(r, s.as_str()),
        None => push_str(r, none),
    }
}

fn push_incremental_words(r: &mut String, n: u32)
    ensures
        final(r)@ == old(r)@ + incremental_words(n),
{
    if n == 1 {
        push_str(r, "daily");
    } else if n == 7 {
        push_str(r, "weekly");
    } else {
        push_str(r, "every ");
        push_decimal(r, n as u64);
        push_str(r, " days");
    }
}

/// The review panel of the setup wizard.
pub fn review_text(c: &Config) -> (r: String)
    ensures
        r@ == review_spec(c@),
{
    let mut r = String::from_str("Source directory  : ");
    push_str(&mut r, c.source_dir.as_str());
    push_str(&mut r, "\nBackup destination: ");
    push_str(&mut r, c.dest_dir.as_str());
    push_str(&mut r, "\nDrive UUID        : ");
    push_opt(&mut r, &c.drive_uuid, "(none)");
    push_str(&mut r, "\nDrive label       : ");
    push_opt(&mut r, &c.drive_label, "(none)");
    push_str(&mut r, "\nFull backup day   : ");
    push_str(&mut r, c.full_backup_day.as_str());
    push_str(&mut r, "\nDaily time        : ");
    push_str(&mut r, c.backup_time.as_str());
    push_str(&mut r, "\nIncrementals      : ");
    push_incremental_words(&mut r, c.incremental_every_n_days);
    push_str(&mut r, "\nRetention         : ");
    push_decimal(&mut r, c.retention_days as u64);
    push_str(&mut r, " days\nExcludes          : ");
    push_decimal(&mut r, c.excludes.len() as u64);
    push_str(&mut r,
        " patterns\n\nWhat will be installed:\n• ~/.config/systemd/user/backup-tool.service\n• ~/.config/systemd/user/backup-tool.timer  (OnCalendar=*-*-* ");
    push_str(&mut r, c.backup_time.as_str());
    push_str(&mut r,
        ")\n• ~/.local/share/applications/backup-tool.desktop\n• ~/.local/share/icons/hicolor/128x128/apps/backup-tool.png\n• ~/.config/backup-tool/config.toml");
    assert(c@.excludes.len() == c.excludes@.len());
    r
}

/// The dashboard's status panel.
pub open spec fn status_spec(c: ConfigView, timer_active: bool, timer_line: Seq<char>) -> Seq<char> {
    "Source          : "@ + c.source_dir
        + "\nDestination     : "@ + c.dest_dir
        + "\nDrive label     : "@ + or_text(c.drive_label, "(not set)"@)
        + "\nFull backup day : "@ + c.full_backup_day
        + "\nDaily time      : "@ + c.backup_time
        + "\nRetention       : "@ + decimal(c.retention_days as nat)
        + " days\nTimer           : "@ + (if timer_active { "active ✅"@ } else { "inactive ⚠"@ })
        + "\n"@ + timer_line
}

/// The dashboard's status panel, given whether the timer is active and
/// its status line.
pub fn status_text(c: &Config, timer_active: bool, timer_line: &str) -> (r: String)
    ensures
        r@ == status_spec(c@, timer_active, timer_line@),
{
    let mut r = String::from_str("Source          : ");
    push_str(&mut r, c.source_dir.as_str());
    push_str(&mut r, "\nDestination     : ");
    push_str(&mut r, c.dest_dir.as_str());
    push_str(&mut r, "\nDrive label     : ");
    push_opt(&mut r, &c.drive_label, "(not set)");
    push_str(&mut r, "\nFull backup day : ");
    push_str(&mut r, c.full_backup_day.as_str());
    push_str(&mut r, "\nDaily time      : ");
    push_str(&mut r, c.backup_time.as_str());
    push_str(&mut r, "\nRetention       : ");
    push_decimal(&mut r, c.retention_days as u64);
    push_str(&mut r, " days\nTimer           : ");
    if timer_active {
        push_str(&mut r, "active ✅");
    } else {
        push_str(&mut r, "inactive ⚠");
    }
    push_str(&mut r, "\n");
    push_str(&mut r, timer_line);
    r
}

/// The drive line of the settings tab.
pub fn drive_info_text(c: &Config) -> (r: String)
    ensures
        r@ == "Drive label: "@ + or_text(c@.drive_label, "(not set)"@) + "   UUID: "@
            + or_text(c@.drive_uuid, "(not set)"@),
{
    let mut r = String::from_str("Drive label: ");
    push_opt(&mut r, &c.drive_label, "(not set)");
    push_str(&mut r, "   UUID: ");
    push_opt(&mut r, &c.drive_uuid, "(not set)");
    r
}

// ── Destination suggestions ─────────────────────────────────────────────────

/// The destination offered by the wizard: the configured one, or a
/// per-host directory under `/mnt/home_backups`.
pub fn default_dest(dest_dir: &str, host: &str) -> (r: String)
    ensures
        r@ == (if dest_dir@.len() == 0 { "/mnt/home_backups/"@ + host@ } else { dest_dir@ }),
{
    if dest_dir.unicode_len() == 0 {
        crate::text::concat2("/mnt/home_backups/", host)
    } else {
        String::from_str(dest_dir)
    }
}

/// The destination offered for a drive mounted at `mountpoint`.
pub fn dest_on_drive(mountpoint: &str, host: &str) -> (r: String)
    ensures
        r@ == mountpoint@ + "/home_backups/"@ + host@,
{
    crate::text::concat3(mountpoint, "/home_backups/", host)
}

// ── Installing ──────────────────────────────────────────────────────────────

/// Why installation cannot go ahead.
#[derive(Debug, Clone, Copy, PartialEq, Eq, Structural)]
pub enum InstallBlocker {
    /// No destination was chosen.
    NoDestination,
    /// The destination is on the source's filesystem.
    SameFilesystem,
}

/// The blocker, if any: an empty destination first, then a destination on
/// the source's filesystem.
pub open spec fn install_blocker_spec(dest_dir: Seq<char>, same_device: bool) -> Option<InstallBlocker> {
    if dest_dir.len() == 0 {
        Some(InstallBlocker::NoDestination)
    } else if same_device {
        Some(InstallBlocker::SameFilesystem)
    } else {
        None
    }
}

/// What stops installation, given the destination and whether it shares
/// the source's filesystem.
pub fn install_blocker(dest_dir: &str, same_device: bool) -> (r: Option<InstallBlocker>)
    ensures
        r == install_blocker_spec(dest_dir@, same_device),
{
    if dest_dir.unicode_len() == 0 {
        Some(InstallBlocker::NoDestination)
    } else if same_device {
        Some(InstallBlocker::SameFilesystem)
    } else {
        None
    }
}

/// The refusal shown when new paths would put the destination on the
/// source's filesystem.
pub open spec fn same_filesystem_refusal() -> Seq<char> {
    "❌  Source and destination are on the same filesystem.  Choose a different drive."@
}

/// What stops saving new paths on the Paths tab: `Some` with the refusal
/// exactly when the destination shares the source's filesystem.
pub fn paths_save_blocker(same_device: bool) -> (r: Option<String>)
    ensures
        same_device ==> (r matches Some(t) && t@ == same_filesystem_refusal()),
        !same_device ==> r is None,
{
    if same_device {
        Some(String::from_str("❌  Source and destination are on the same filesystem.  Choose a different drive."))
    } else {
        None
    }
}

impl InstallBlocker {
    /// The message shown for the blocker.
    pub open spec fn text(self) -> Seq<char> {
        match self {
            InstallBlocker::NoDestination => "Backup destination path is empty.  Please choose a drive."@,
            InstallBlocker::SameFilesystem =>
                "The backup destination is on the same filesystem as the source \ndirectory.\n\nBacking up to the same drive defeats the purpose of a backup — \nif the\ndrive fails you lose both your data and its backup.\n\nPlease choose a different physical drive."@,
        }
    }

    /// The message shown for the blocker.
    pub fn message(&self) -> (r: String)
        ensures
            r@ == self.text(),
    {
        match self {
            InstallBlocker::NoDestination => String::from_str("Backup destination path is empty.  Please choose a drive."),
            InstallBlocker::SameFilesystem => String::from_str(
                "The backup destination is on the same filesystem as the source \ndirectory.\n\nBacking up to the same drive defeats the purpose of a backup — \nif the\ndrive fails you lose both your data and its backup.\n\nPlease choose a different physical drive."),
        }
    }
}

/// The recap shown when installation finished: where the configuration
/// went, the install log and the schedule; or the error of the unit setup.
pub open spec fn recap_spec(config_path: Seq<char>, outcome: Result<Seq<char>, Seq<char>>, c: ConfigView) -> Seq<char> {
    match outcome {
        Ok(log) => "Configuration saved to:\n  "@ + config_path + "\n\nInstalled:\n"@ + log
            + "\n\nSchedule:\n• Full backup every "@ + c.full_backup_day
            + "\n• Incremental every other day\n• Daily at "@ + c.backup_time
            + "\n• Incrementals kept for "@ + decimal(c.retention_days as nat)
            + " days\n\nYou can now close this wizard.  The backup timer is active."@,
        Err(e) => "⚠  Systemd setup encountered an error:\n"@ + e
            + "\n\nConfig was saved.  You can re-run the install from Settings."@,
    }
}

/// The recap after installation.
pub fn install_recap(config_path: &str, outcome: &Result<String, String>, c: &Config) -> (r: String)
    ensures
        r@ == recap_spec(config_path@, match outcome {
            Ok(l) => Ok(l@),
            Err(e) => Err(e@),
        }, c@),
{
    match outcome {
        Ok(log) => {
            let mut r = String::from_str("Configuration saved to:\n  ");
            push_str(&mut r, config_path);
            push_str(&mut r, "\n\nInstalled:\n");
            push_str(&mut r, log.as_str());
            push_str(&mut r, "\n\nSchedule:\n• Full backup every ");
            push_str(&mut r, c.full_backup_day.as_str());
            push_str(&mut r, "\n• Incremental every other day\n• Daily at ");
            push_str(&mut r, c.backup_time.as_str());
            push_str(&mut r, "\n• Incrementals kept for ");
            push_decimal(&mut r, c.retention_days as u64);
            push_str(&mut r, " days\n\nYou can now close this wizard.  The backup timer is active.");
            r
        }
        Err(e) => {
            let mut r = String::from_str("⚠  Systemd setup encountered an error:\n");
            push_str(&mut r, e.as_str());
            push_str(&mut r, "\n\nConfig was saved.  You can re-run the install from Settings.");
            r
        }
    }
}

// ── The setup wizard's pages ────────────────────────────────────────────────

/// The wizard's pages, in order.
pub open spec fn wizard_pages() -> Seq<Seq<char>> {
    seq!["welcome"@, "source"@, "drive"@, "schedule"@, "excludes"@, "review"@, "done"@]
}

/// Number of wizard pages.
pub open spec fn page_count() -> nat {
    7
}

/// Name of wizard page `i`.
pub fn wizard_page_name(i: usize) -> (r: &'static str)
    requires
        i < 7,
    ensures
        r@ == wizard_pages()[i as int],
{
    let v = vec!["welcome", "source", "drive", "schedule", "excludes", "review", "done"];
    v[i]
}

/// The label of the forward button on page `i`.
pub open spec fn next_label_spec(i: nat) -> Seq<char> {
    if i == 4 {
        "Review"@
    } else if i == 5 {
        "Install"@
    } else if i == 6 {
        "Open Manager"@
    } else {
        "Next"@
    }
}

/// The label of the forward button on page `i`.
pub fn next_label(i: usize) -> (r: &'static str)
    ensures
        r@ == next_label_spec(i as nat),
{
    if i == 4 {
        "Review"
    } else if i == 5 {
        "Install"
    } else if i == 6 {
        "Open Manager"
    } else {
        "Next"
    }
}

/// The back button works between the first and the last page.
pub fn back_enabled(i: usize) -> (b: bool)
    ensures
        b == (0 < i && i < page_count() - 1),
{
    0 < i && i < 6
}

/// What the forward button does.
#[derive(Debug, Clone, Copy, PartialEq, Eq, Structural)]
pub enum WizardForward {
    /// Store the page's fields, then show page `usize`.
    Advance(usize),
    /// Check, save and install (on the review page).
    Install,
    /// Open the manager and close the wizard (on the last page).
    Finish,
}

/// The forward button on page `i`.
pub open spec fn forward_spec(i: nat) -> WizardForward {
    if i == 5 {
        WizardForward::Install
    } else if i == 6 {
        WizardForward::Finish
    } else {
        WizardForward::Advance((i + 1) as usize)
    }
}

/// The forward button on page `i`.
pub fn wizard_forward(i: usize) -> (r: WizardForward)
    requires
        i < 7,
    ensures
        r == forward_spec(i as nat),
{
    if i == 5 {
        WizardForward::Install
    } else if i == 6 {
        WizardForward::Finish
    } else {
        WizardForward::Advance(i + 1)
    }
}

/// The back button on page `i`: the previous page, or none on the first.
pub fn wizard_back(i: usize) -> (r: Option<usize>)
    ensures
        r == (if i == 0 { None } else { Some((i - 1) as usize) }),
{
    if i == 0 { None } else { Some(i - 1) }
}

/// The forward button never leaves the wizard's pages, and the back
/// button never goes past the first page: moving between pages keeps the
/// index among the seven pages.
pub proof fn lemma_wizard_stays_on_pages(i: nat)
    requires
        i < page_count(),
    ensures
        forward_spec(i) matches WizardForward::Advance(j) ==> j < page_count() && j == i + 1,
        i == 5 <==> forward_spec(i) == WizardForward::Install,
{
}

} // verus!
