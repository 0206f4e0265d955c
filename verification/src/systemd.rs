//! What installation writes for the user session: the systemd service and
//! timer units, the launcher entry, the file-manager bookmark, the lines of
//! the install log; and the status line read back from `systemctl`.

use vstd::prelude::*;
use crate::backup::join_lines;
use crate::config::{dir_or, opt_view};
use crate::paths::path_join;
use crate::split::{contains, lines, splitn, views};
use crate::text::{chars_of, push_chars, push_str, push_zero_padded, zero_padded};

verus! {

// ── Names and places ────────────────────────────────────────────────────────

/// The service unit's file name.
pub open spec fn service_name() -> Seq<char> {
    "backup-tool.service"@
}

/// The timer unit's file name.
pub open spec fn timer_name() -> Seq<char> {
    "backup-tool.timer"@
}

/// `backup-tool.service`.
pub fn service_unit_name() -> (r: &'static str)
    ensures
        r@ == service_name(),
{
    "backup-tool.service"
}

/// `backup-tool.timer`.
pub fn timer_unit_name() -> (r: &'static str)
    ensures
        r@ == timer_name(),
{
    "backup-tool.timer"
}

/// `systemd/user` under the configuration directory (`.config` when the
/// platform has none).
pub open spec fn systemd_user_dir_in(config_dir: Option<Seq<char>>) -> Seq<char> {
    path_join(path_join(dir_or(config_dir, ".config"@), "systemd"@), "user"@)
}

/// `applications` under the local data directory (`.local/share` when the
/// platform has none).
pub open spec fn applications_dir_in(data_local_dir: Option<Seq<char>>) -> Seq<char> {
    path_join(dir_or(data_local_dir, ".local/share"@), "applications"@)
}

/// `icons/hicolor/128x128/apps` under the local data directory.
pub open spec fn icon_dir_128_in(data_local_dir: Option<Seq<char>>) -> Seq<char> {
    path_join(path_join(path_join(path_join(dir_or(data_local_dir, ".local/share"@), "icons"@),
        "hicolor"@), "128x128"@), "apps"@)
}

/// The GTK bookmarks file; there is none without a configuration directory.
pub open spec fn bookmarks_path_in(config_dir: Option<Seq<char>>) -> Option<Seq<char>> {
    match config_dir {
        Some(c) => Some(path_join(path_join(c, "gtk-3.0"@), "bookmarks"@)),
        None => None,
    }
}

/// Directory of the user's systemd units under the given configuration
/// directory (`.config` when there is none).
pub fn systemd_user_dir_for(config_dir: &Option<String>) -> (p: String)
    ensures
        p@ == systemd_user_dir_in(opt_view(*config_dir)),
{
    let base = crate::config::join_or(config_dir, ".config", "systemd");
    crate::paths::join_path(base.as_str(), "user")
}

/// Directory of the user's systemd units.
pub fn systemd_user_dir() -> (p: String)
    ensures
        exists|d: Option<Seq<char>>| p@ == systemd_user_dir_in(d),
{
    let c = crate::config::config_dir();
    let p = systemd_user_dir_for(&c);
    assert(p@ == systemd_user_dir_in(opt_view(c)));
    p
}

/// Directory of launcher entries under the given local data directory
/// (`.local/share` when there is none).
pub fn applications_dir_for(data_local_dir: &Option<String>) -> (p: String)
    ensures
        p@ == applications_dir_in(opt_view(*data_local_dir)),
{
    crate::config::join_or(data_local_dir, ".local/share", "applications")
}

/// Directory of the user's launcher entries.
pub fn applications_dir() -> (p: String)
    ensures
        exists|d: Option<Seq<char>>| p@ == applications_dir_in(d),
{
    let d = crate::config::data_local_dir();
    let p = applications_dir_for(&d);
    assert(p@ == applications_dir_in(opt_view(d)));
    p
}

/// Directory of 128×128 application icons under the given local data
/// directory (`.local/share` when there is none).
pub fn icon_dir_128_for(data_local_dir: &Option<String>) -> (p: String)
    ensures
        p@ == icon_dir_128_in(opt_view(*data_local_dir)),
{
    let a = crate::config::join_or(data_local_dir, ".local/share", "icons");
    let b = crate::paths::join_path(a.as_str(), "hicolor");
    let c = crate::paths::join_path(b.as_str(), "128x128");
    crate::paths::join_path(c.as_str(), "apps")
}

/// Directory of the user's 128×128 application icons.
pub fn icon_dir_128() -> (p: String)
    ensures
        exists|d: Option<Seq<char>>| p@ == icon_dir_128_in(d),
{
    let d = crate::config::data_local_dir();
    let p = icon_dir_128_for(&d);
    assert(p@ == icon_dir_128_in(opt_view(d)));
    p
}

/// The GTK bookmarks file under the given configuration directory; none
/// without one.
pub fn bookmarks_path_for(config_dir: &Option<String>) -> (p: Option<String>)
    ensures
        opt_view(p) == bookmarks_path_in(opt_view(*config_dir)),
{
    match config_dir {
        Some(dir) => {
            let g = crate::paths::join_path(dir.as_str(), "gtk-3.0");
            Some(crate::paths::join_path(g.as_str(), "bookmarks"))
        }
        None => None,
    }
}

/// The GTK bookmarks file, when the platform has a configuration directory.
pub fn bookmarks_path() -> (p: Option<String>)
    ensures
        exists|d: Option<Seq<char>>| opt_view(p) == bookmarks_path_in(d),
{
    let c = crate::config::config_dir();
    let p = bookmarks_path_for(&c);
    assert(opt_view(p) == bookmarks_path_in(opt_view(c)));
    p
}

// ── Unit files and the launcher entry ───────────────────────────────────────

/// The service unit: a oneshot `backup auto` run of `bin`, logged to the
/// journal, with its documentation link on the log in `data_dir`.
pub open spec fn service_unit_spec(data_dir: Seq<char>, bin: Seq<char>) -> Seq<char> {
    "[Unit]\nDescription=Home Directory Backup\nDocumentation=file://"@ + data_dir
        + "/backup.log\nAfter=default.target\n\n[Service]\nType=oneshot\nExecStart="@ + bin
        + " backup auto\nSyslogIdentifier=backup-tool\nStandardOutput=journal\nStandardError=journal\nTimeoutStartSec=infinity\nTimeoutStopSec=3600\n\n[Install]\nWantedBy=default.target\n"@
}

/// The timer unit: daily at `h:m` (two digits each), persistent, with up
/// to five minutes of random delay.
pub open spec fn timer_unit_spec(h: u8, m: u8) -> Seq<char> {
    "[Unit]\nDescription=Daily Backup-Tool Timer\n\n[Timer]\nOnCalendar=*-*-* "@
        + zero_padded(h as nat, 2) + ":"@ + zero_padded(m as nat, 2)
        + ":00\nAccuracySec=1min\nRandomizedDelaySec=300\nPersistent=true\n\n[Install]\nWantedBy=timers.target\n"@
}

/// The launcher entry that starts `bin`.
pub open spec fn desktop_entry_spec(bin: Seq<char>) -> Seq<char> {
    "[Desktop Entry]\nName=Backup-Tool\nComment=Manage home-directory rsync backups\nExec="@ + bin
        + "\nIcon=backup-tool\nTerminal=false\nType=Application\nCategories=System;Utility;\nKeywords=backup;rsync;snapshot;\nStartupNotify=true\n"@
}

/// Text of the service unit.
pub fn service_unit_text(data_dir: &str, bin: &str) -> (r: String)
    ensures
        r@ == service_unit_spec(data_dir@, bin@),
{
    let mut r = String::from_str("[Unit]\nDescription=Home Directory Backup\nDocumentation=file://");
    push_str(&mut r, data_dir);
    push_str(&mut r, "/backup.log\nAfter=default.target\n\n[Service]\nType=oneshot\nExecStart=");
    push_str(&mut r, bin);
    push_str(&mut r,
        " backup auto\nSyslogIdentifier=backup-tool\nStandardOutput=journal\nStandardError=journal\nTimeoutStartSec=infinity\nTimeoutStopSec=3600\n\n[Install]\nWantedBy=default.target\n");
    r
}

/// Text of the timer unit for a daily run at `h:m`.
pub fn timer_unit_text(h: u8, m: u8) -> (r: String)
    ensures
        r@ == timer_unit_spec(h, m),
{
    let mut r = String::from_str("[Unit]\nDescription=Daily Backup-Tool Timer\n\n[Timer]\nOnCalendar=*-*-* ");
    push_zero_padded(&mut r, h as u64, 2);
    push_str(&mut r, ":");
    push_zero_padded(&mut r, m as u64, 2);
    push_str(&mut r, ":00\nAccuracySec=1min\nRandomizedDelaySec=300\nPersistent=true\n\n[Install]\nWantedBy=timers.target\n");
    r
}

/// Text of the launcher entry.
pub fn desktop_entry_text(bin: &str) -> (r: String)
    ensures
        r@ == desktop_entry_spec(bin@),
{
    let mut r = String::from_str("[Desktop Entry]\nName=Backup-Tool\nComment=Manage home-directory rsync backups\nExec=");
    push_str(&mut r, bin);
    push_str(&mut r, "\nIcon=backup-tool\nTerminal=false\nType=Application\nCategories=System;Utility;\nKeywords=backup;rsync;snapshot;\nStartupNotify=true\n");
    r
}

// ── systemctl ───────────────────────────────────────────────────────────────

/// `systemctl` arguments: `--user` first, then `args`.
pub open spec fn systemctl_args_spec(args: Seq<Seq<char>>) -> Seq<Seq<char>> {
    seq!["--user"@] + args
}

/// The arguments `args` joined with spaces.
pub open spec fn spaced(args: Seq<Seq<char>>) -> Seq<char>
    decreases args.len(),
{
    if args.len() == 0 {
        seq![]
    } else if args.len() == 1 {
        args[0]
    } else {
        spaced(args.drop_last()) + " "@ + args.last()
    }
}

/// The full `systemctl --user` argument list for `args`.
pub fn systemctl_args(args: &Vec<String>) -> (r: Vec<String>)
    ensures
        crate::config::string_views(r@) == systemctl_args_spec(crate::config::string_views(args@)),
{
    let mut r: Vec<String> = Vec::new();
    r.push(String::from_str("--user"));
    let mut i: usize = 0;
    while i < args.len()
        invariant
            i <= args@.len(),
            crate::config::string_views(r@) == seq!["--user"@] + crate::config::string_views(args@).take(i as int),
        decreases args@.len() - i,
    {
        let a = args[i].clone();
        let ghost old_r = r@;
        r.push(a);
        assert(crate::config::string_views(r@) =~= crate::config::string_views(old_r).push(args@[i as int]@));
        i = i + 1;
        assert(crate::config::string_views(r@) =~= seq!["--user"@] + crate::config::string_views(args@).take(i as int));
    }
    assert(crate::config::string_views(args@).take(i as int) =~= crate::config::string_views(args@));
    r
}

/// The error reported when `systemctl --user <args>` exits non-zero.
pub fn systemctl_failure(args: &Vec<String>) -> (r: String)
    ensures
        r@ == "systemctl --user "@ + spaced(crate::config::string_views(args@)) + " returned non-zero"@,
{
    let ghost sv = crate::config::string_views(args@);
    let mut j = String::new();
    let mut i: usize = 0;
    while i < args.len()
        invariant
            i <= args@.len(),
            sv == crate::config::string_views(args@),
            j@ == spaced(sv.take(i as int)),
        decreases args@.len() - i,
    {
        proof {
            assert(sv.take(i + 1).drop_last() =~= sv.take(i as int));
        }
        if i > 0 {
            push_str(&mut j, " ");
        }
        push_str(&mut j, args[i].as_str());
        i = i + 1;
        assert(j@ =~= spaced(sv.take(i as int)));
    }
    assert(sv.take(i as int) =~= sv);
    let mut r = String::from_str("systemctl --user ");
    push_str(&mut r, j.as_str());
    push_str(&mut r, " returned non-zero");
    r
}

/// The arguments that disable and stop the timer.
pub fn disable() -> (r: Vec<String>)
    ensures
        crate::config::string_views(r@) == seq!["--user"@, "disable"@, "--now"@, timer_name()],
{
    let mut r: Vec<String> = Vec::new();
    r.push(String::from_str("--user"));
    r.push(String::from_str("disable"));
    r.push(String::from_str("--now"));
    r.push(String::from_str(timer_unit_name()));
    assert(crate::config::string_views(r@) =~= seq!["--user"@, "disable"@, "--now"@, timer_name()]);
    r
}

// ── Timer status ────────────────────────────────────────────────────────────

/// The non-empty pieces, in order.
pub open spec fn nonempty_pieces(ps: Seq<Seq<char>>) -> Seq<Seq<char>>
    decreases ps.len(),
{
    if ps.len() == 0 {
        seq![]
    } else if ps.last().len() == 0 {
        nonempty_pieces(ps.drop_last())
    } else {
        nonempty_pieces(ps.drop_last()).push(ps.last())
    }
}

/// The status line from `systemctl --user list-timers`: the first output
/// line split at single spaces into at most seven pieces, empty pieces
/// dropped; the first piece is the next run and the third the last run,
/// `—` for a missing one.
pub open spec fn timer_status_spec(success: bool, stdout: Seq<char>) -> Seq<char> {
    if !success {
        "Timer status unavailable"@
    } else {
        let ls = lines(stdout);
        if ls.len() == 0 {
            "Timer is installed but has not run yet"@
        } else {
            let cols = nonempty_pieces(splitn(ls[0], 7, ' '));
            let next = if cols.len() > 0 { cols[0] } else { "—"@ };
            let last = if cols.len() > 2 { cols[2] } else { "—"@ };
            "Next: "@ + next + "   Last: "@ + last
        }
    }
}

fn nonempty_pieces_exec(ps: &Vec<Vec<char>>) -> (r: Vec<Vec<char>>)
    ensures
        views(r@) == nonempty_pieces(views(ps@)),
{
    let ghost pv = views(ps@);
    let mut r: Vec<Vec<char>> = Vec::new();
    let mut i: usize = 0;
    assert(views(r@) =~= nonempty_pieces(pv.take(0)));
    while i < ps.len()
        invariant
            i <= ps@.len(),
            pv == views(ps@),
            views(r@) == nonempty_pieces(pv.take(i as int)),
        decreases ps@.len() - i,
    {
        proof {
            assert(pv.take(i + 1).drop_last() =~= pv.take(i as int));
            assert(pv.take(i + 1).last() == ps@[i as int]@);
        }
        if ps[i].len() > 0 {
            let ghost before = r@;
            r.push(ps[i].clone());
            assert(views(r@) =~= views(before).push(ps@[i as int]@));
        }
        i = i + 1;
    }
    assert(pv.take(i as int) =~= pv);
    r
}

/// The timer's status line, from whether `systemctl --user list-timers`
/// succeeded and what it printed.
pub fn timer_status_text(success: bool, stdout: &str) -> (r: String)
    ensures
        r@ == timer_status_spec(success, stdout@),
{
    if !success {
        return String::from_str("Timer status unavailable");
    }
    let out = chars_of(stdout);
    let ls = crate::split::lines_exec(out.as_slice());
    if ls.len() == 0 {
        return String::from_str("Timer is installed but has not run yet");
    }
    let pieces = crate::split::splitn_exec(ls[0].as_slice(), 7, ' ');
    let cols = nonempty_pieces_exec(&pieces);
    let mut r = String::from_str("Next: ");
    if cols.len() > 0 {
        push_chars(&mut r, cols[0].as_slice());
    } else {
        push_str(&mut r, "—");
    }
    push_str(&mut r, "   Last: ");
    if cols.len() > 2 {
        push_chars(&mut r, cols[2].as_slice());
    } else {
        push_str(&mut r, "—");
    }
    r
}

// ── File-manager bookmark ───────────────────────────────────────────────────

/// The line that installation writes for the destination.
pub open spec fn bookmark_line(dest_dir: Seq<char>) -> Seq<char> {
    "file://"@ + dest_dir + " Home Backups"@
}

/// A bookmark line that an earlier installation added: one naming the
/// tool's folders, or the very line that installing to `dest_dir` writes.
pub open spec fn is_tool_bookmark(l: Seq<char>, dest_dir: Seq<char>) -> bool {
    contains(l, "home_backups"@) || contains(l, "backup-tool"@) || l == bookmark_line(dest_dir)
}

/// The lines that are not the tool's own bookmarks, in order.
pub open spec fn kept_bookmarks(ls: Seq<Seq<char>>, dest_dir: Seq<char>) -> Seq<Seq<char>>
    decreases ls.len(),
{
    if ls.len() == 0 {
        seq![]
    } else if is_tool_bookmark(ls.last(), dest_dir) {
        kept_bookmarks(ls.drop_last(), dest_dir)
    } else {
        kept_bookmarks(ls.drop_last(), dest_dir).push(ls.last())
    }
}

/// The bookmarks file after installation: the other bookmarks, kept in
/// order, then one fresh line for the destination.
pub open spec fn bookmarks_spec(existing: Seq<char>, dest_dir: Seq<char>) -> Seq<char> {
    let kept = join_lines(kept_bookmarks(lines(existing), dest_dir));
    let base = if kept.len() > 0 && kept.last() != '\n' { kept.push('\n') } else { kept };
    base + bookmark_line(dest_dir) + "\n"@
}

/// Re-installing does not pile up bookmarks of the tool: no kept line is
/// one of its bookmarks (the line for the destination included), every
/// kept line is a line of the file, and no other line is dropped.
pub proof fn lemma_kept_bookmarks_clean(ls: Seq<Seq<char>>, dest_dir: Seq<char>)
    ensures
        forall|k: int| 0 <= k < kept_bookmarks(ls, dest_dir).len() ==> !is_tool_bookmark(#[trigger] kept_bookmarks(ls, dest_dir)[k], dest_dir),
        forall|k: int| 0 <= k < kept_bookmarks(ls, dest_dir).len() ==> kept_bookmarks(ls, dest_dir)[k] != bookmark_line(dest_dir),
        forall|k: int| 0 <= k < kept_bookmarks(ls, dest_dir).len() ==> ls.contains(#[trigger] kept_bookmarks(ls, dest_dir)[k]),
        forall|i: int| 0 <= i < ls.len() && !is_tool_bookmark(#[trigger] ls[i], dest_dir) ==> kept_bookmarks(ls, dest_dir).contains(ls[i]),
        kept_bookmarks(ls, dest_dir).len() <= ls.len(),
    decreases ls.len(),
{
    if ls.len() > 0 {
        let init = ls.drop_last();
        lemma_kept_bookmarks_clean(init, dest_dir);
        let rest = kept_bookmarks(init, dest_dir);
        let all = kept_bookmarks(ls, dest_dir);
        assert forall|k: int| 0 <= k < all.len() implies !is_tool_bookmark(#[trigger] all[k], dest_dir) && ls.contains(all[k]) by {
            if k < rest.len() {
                assert(all[k] == rest[k]);
                let j = choose|j: int| 0 <= j < init.len() && init[j] == rest[k];
                assert(ls[j] == init[j]);
            } else {
                assert(all[k] == ls.last());
                assert(ls[ls.len() - 1] == ls.last());
            }
        }
        assert forall|i: int| 0 <= i < ls.len() && !is_tool_bookmark(#[trigger] ls[i], dest_dir) implies all.contains(ls[i]) by {
            if i < ls.len() - 1 {
                assert(init[i] == ls[i]);
                let k = choose|k: int| 0 <= k < rest.len() && rest[k] == init[i];
                assert(all[k] == rest[k]);
            } else {
                assert(all[all.len() - 1] == ls[i]);
            }
        }
    }
}

/// A text without line breaks.
pub open spec fn no_newline(l: Seq<char>) -> bool {
    forall|j: int| 0 <= j < l.len() ==> l[j] != '\n'
}

/// A text whose last character is a carriage return.
pub open spec fn ends_with_cr(l: Seq<char>) -> bool {
    l.len() > 0 && l.last() == '\r'
}

/// Kept bookmark lines that read back as themselves: none ends in a
/// carriage return, and they do not end in two empty lines.
pub open spec fn bookmark_lines_reread(ls: Seq<Seq<char>>) -> bool {
    &&& forall|k: int| 0 <= k < ls.len() ==> !ends_with_cr(#[trigger] ls[k])
    &&& !(ls.len() >= 2 && ls[ls.len() - 1].len() == 0 && ls[ls.len() - 2].len() == 0)
}

proof fn lemma_lines_have_no_newline(s: Seq<char>)
    ensures
        forall|k: int| 0 <= k < lines(s).len() ==> no_newline(#[trigger] lines(s)[k]),
    decreases s.len(),
{
    if s.len() > 0 {
        let i = crate::split::index_of(s, '\n');
        crate::split::lemma_index_of(s, '\n');
        if i < s.len() {
            let a = crate::split::strip_cr(s.take(i as int));
            let rest = s.skip(i as int + 1);
            lemma_lines_have_no_newline(rest);
            assert(no_newline(a)) by {
                assert forall|j: int| 0 <= j < a.len() implies a[j] != '\n' by {
                    assert(a[j] == s[j]);
                }
            }
            assert(lines(s) == seq![a] + lines(rest));
            assert forall|k: int| 0 <= k < lines(s).len() implies no_newline(#[trigger] lines(s)[k]) by {
                if k > 0 {
                    assert(lines(s)[k] == lines(rest)[k - 1]);
                }
            }
        } else {
            assert(lines(s) == seq![s]);
        }
    }
}

/// Lines joined and followed by a line break read back as themselves,
/// before whatever follows.
proof fn lemma_lines_of_joined(v: Seq<Seq<char>>, t: Seq<char>)
    requires
        v.len() > 0,
        forall|k: int| 0 <= k < v.len() ==> no_newline(#[trigger] v[k]) && !ends_with_cr(v[k]),
    ensures
        lines(join_lines(v) + "\n"@ + t) == v + lines(t),
    decreases v.len(),
{
    reveal_strlit("\n");
    let a = v[0];
    assert(no_newline(a) && !ends_with_cr(a));
    let rest_text = if v.len() == 1 { t } else { join_lines(v.skip(1)) + "\n"@ + t };
    let s = a + "\n"@ + rest_text;
    if v.len() == 1 {
        assert(join_lines(v) == a);
        assert(join_lines(v) + "\n"@ + t =~= s);
    } else {
        crate::forms::lemma_join_front(v);
        assert(join_lines(v) + "\n"@ + t =~= s);
    }
    assert forall|j: int| 0 <= j < a.len() implies s[j] != '\n' by {
        assert(s[j] == a[j]);
    }
    assert(s[a.len() as int] == '\n');
    crate::split::lemma_index_of_at(s, '\n', a.len() as int);
    assert(s.take(a.len() as int) =~= a);
    assert(s.skip(a.len() as int + 1) =~= rest_text);
    assert(crate::split::strip_cr(a) == a);
    assert(lines(s) == seq![a] + lines(rest_text));
    if v.len() == 1 {
        assert(seq![a] + lines(t) =~= v + lines(t));
    } else {
        let rest = v.skip(1);
        assert forall|k: int| 0 <= k < rest.len() implies no_newline(#[trigger] rest[k]) && !ends_with_cr(rest[k]) by {
            assert(rest[k] == v[k + 1]);
        }
        lemma_lines_of_joined(rest, t);
        assert(seq![a] + (rest + lines(t)) =~= v + lines(t));
    }
}

proof fn lemma_kept_unchanged(ls: Seq<Seq<char>>, dest_dir: Seq<char>)
    requires
        forall|k: int| 0 <= k < ls.len() ==> !is_tool_bookmark(#[trigger] ls[k], dest_dir),
    ensures
        kept_bookmarks(ls, dest_dir) == ls,
    decreases ls.len(),
{
    if ls.len() > 0 {
        let init = ls.drop_last();
        assert forall|k: int| 0 <= k < init.len() implies !is_tool_bookmark(#[trigger] init[k], dest_dir) by {
            assert(init[k] == ls[k]);
        }
        lemma_kept_unchanged(init, dest_dir);
        assert(!is_tool_bookmark(ls[ls.len() - 1], dest_dir));
        assert(init.push(ls.last()) =~= ls);
    }
}

/// The last character of joined lines whose last line is not empty.
proof fn lemma_join_ends_like_last(v: Seq<Seq<char>>)
    requires
        v.len() > 0,
        v.last().len() > 0,
    ensures
        join_lines(v).len() > 0,
        join_lines(v).last() == v.last().last(),
{
    if v.len() == 1 {
        assert(join_lines(v) == v[0]);
    } else {
        let j = join_lines(v.drop_last()) + "\n"@ + v.last();
        assert(join_lines(v) == j);
        assert(j.last() == v.last().last());
    }
}

/// Installing the bookmark for the same destination twice gives the same
/// file as installing it once, and the result ends with the destination's
/// line, which no other line repeats.  Left out are the texts this fails
/// on: a destination with a line break, kept lines that end in a carriage
/// return (two before a line break), and kept lines that end in two empty
/// lines (reading back merges them).
pub proof fn lemma_reinstall_keeps_bookmarks(existing: Seq<char>, dest_dir: Seq<char>)
    requires
        no_newline(dest_dir),
        bookmark_lines_reread(kept_bookmarks(lines(existing), dest_dir)),
    ensures
        bookmarks_spec(bookmarks_spec(existing, dest_dir), dest_dir) == bookmarks_spec(existing, dest_dir),
        lines(bookmarks_spec(existing, dest_dir)).len() > 0,
        lines(bookmarks_spec(existing, dest_dir)).last() == bookmark_line(dest_dir),
        forall|k: int| 0 <= k < lines(bookmarks_spec(existing, dest_dir)).len() - 1
            ==> #[trigger] lines(bookmarks_spec(existing, dest_dir))[k] != bookmark_line(dest_dir),
{
    reveal_strlit("\n");
    reveal_strlit("file://");
    reveal_strlit(" Home Backups");
    let d = dest_dir;
    let l = bookmark_line(d);
    let e_lines = lines(existing);
    let k = kept_bookmarks(e_lines, d);
    let j = join_lines(k);
    let o1 = bookmarks_spec(existing, d);
    assert(no_newline(l)) by {
        assert forall|i: int| 0 <= i < l.len() implies l[i] != '\n' by {
            if i < 7 {
            } else if i < 7 + d.len() {
                assert(l[i] == d[i - 7]);
            } else {
            }
        }
    }
    assert(!ends_with_cr(l)) by {
        assert(l.last() == 's');
    }
    lemma_kept_bookmarks_clean(e_lines, d);
    lemma_lines_have_no_newline(existing);
    assert forall|i: int| 0 <= i < k.len() implies no_newline(#[trigger] k[i]) && !ends_with_cr(k[i])
        && !is_tool_bookmark(k[i], d) by {
        assert(e_lines.contains(k[i]));
        let m = choose|m: int| 0 <= m < e_lines.len() && e_lines[m] == k[i];
        assert(no_newline(e_lines[m]));
    }
    let one = seq![l];
    assert(join_lines(one) == l);
    lemma_lines_of_joined(one, seq![]);
    assert(lines(Seq::<char>::empty()) == Seq::<Seq<char>>::empty());
    assert(one + Seq::<Seq<char>>::empty() =~= one);
    assert(lines(l + "\n"@) == one) by {
        assert(join_lines(one) + "\n"@ + Seq::<char>::empty() =~= l + "\n"@);
    }
    assert(kept_bookmarks(one, d) == Seq::<Seq<char>>::empty()) by {
        assert(one.drop_last() =~= Seq::<Seq<char>>::empty());
        assert(one.last() == l);
        assert(is_tool_bookmark(l, d));
        assert(kept_bookmarks(Seq::<Seq<char>>::empty(), d) =~= Seq::<Seq<char>>::empty());
    }
    if j.len() > 0 && j.last() != '\n' {
        // The kept lines, a line break, then the destination's line.
        assert(o1 =~= j + "\n"@ + (l + "\n"@));
        lemma_lines_of_joined(k, l + "\n"@);
        assert(lines(o1) == k + one);
        assert(k + one =~= k.push(l));
        assert(k.push(l).drop_last() =~= k);
        lemma_kept_unchanged(k, d);
        assert(kept_bookmarks(lines(o1), d) == k);
        assert(lines(o1).last() == l);
        assert forall|i: int| 0 <= i < lines(o1).len() - 1 implies #[trigger] lines(o1)[i] != l by {
            assert(lines(o1)[i] == k[i]);
        }
    } else if j.len() == 0 {
        assert(o1 =~= l + "\n"@);
        assert(lines(o1) == one);
    } else {
        // The kept lines end in one empty line, which the line break closes.
        assert(k.len() >= 2) by {
            if k.len() == 0 {
                assert(j.len() == 0);
            } else if k.len() == 1 {
                assert(j == k[0]);
                assert(no_newline(k[0]));
                assert(j[j.len() - 1] != '\n');
            }
        }
        let init = k.drop_last();
        assert(k.last().len() == 0) by {
            if k.last().len() > 0 {
                lemma_join_ends_like_last(k);
                assert(no_newline(k.last()));
                assert(k.last()[k.last().len() - 1] != '\n');
            }
        }
        assert(k[k.len() - 2] == init.last());
        assert(init.last().len() > 0);
        assert(j == join_lines(init) + "\n"@ + k.last());
        assert(j =~= join_lines(init) + "\n"@);
        assert(o1 =~= join_lines(init) + "\n"@ + (l + "\n"@));
        assert forall|i: int| 0 <= i < init.len() implies no_newline(#[trigger] init[i]) && !ends_with_cr(init[i])
            && !is_tool_bookmark(init[i], d) by {
            assert(init[i] == k[i]);
        }
        lemma_lines_of_joined(init, l + "\n"@);
        assert(lines(o1) == init + one);
        assert(init + one =~= init.push(l));
        assert(init.push(l).drop_last() =~= init);
        lemma_kept_unchanged(init, d);
        assert(kept_bookmarks(lines(o1), d) == init);
        lemma_join_ends_like_last(init);
        assert(init.last()[init.last().len() - 1] != '\n');
        assert(lines(o1).last() == l);
        assert forall|i: int| 0 <= i < lines(o1).len() - 1 implies #[trigger] lines(o1)[i] != l by {
            assert(lines(o1)[i] == init[i]);
        }
    }
}

fn is_tool_bookmark_exec(l: &[char], line: &[char], Ghost(dest_dir): Ghost<Seq<char>>) -> (b: bool)
    requires
        line@ == bookmark_line(dest_dir),
    ensures
        b == is_tool_bookmark(l@, dest_dir),
{
    let a = chars_of("home_backups");
    let t = chars_of("backup-tool");
    crate::split::contains_exec(l, a.as_slice()) || crate::split::contains_exec(l, t.as_slice())
        || crate::text::chars_eq(l, line)
}

/// The new bookmarks text: earlier bookmarks of this tool (the line for
/// this destination among them) removed, the others kept, and the
/// destination appended.
pub fn updated_bookmarks(existing: &str, dest_dir: &str) -> (r: String)
    ensures
        r@ == bookmarks_spec(existing@, dest_dir@),
{
    let ex = chars_of(existing);
    let ls = crate::split::lines_exec(ex.as_slice());
    let line_s = crate::text::concat3("file://", dest_dir, " Home Backups");
    let line = chars_of(line_s.as_str());
    let ghost lv = views(ls@);
    let mut out = String::new();
    let mut kept: usize = 0;
    let mut i: usize = 0;
    while i < ls.len()
        invariant
            i <= ls@.len(),
            lv == views(ls@),
            line@ == bookmark_line(dest_dir@),
            out@ == join_lines(kept_bookmarks(lv.take(i as int), dest_dir@)),
            kept == kept_bookmarks(lv.take(i as int), dest_dir@).len(),
            kept <= i,
        decreases ls@.len() - i,
    {
        let ghost before = kept_bookmarks(lv.take(i as int), dest_dir@);
        proof {
            assert(lv.take(i + 1).drop_last() =~= lv.take(i as int));
            assert(lv.take(i + 1).last() == ls@[i as int]@);
        }
        if !is_tool_bookmark_exec(ls[i].as_slice(), line.as_slice(), Ghost(dest_dir@)) {
            if kept > 0 {
                push_str(&mut out, "\n");
            }
            push_chars(&mut out, ls[i].as_slice());
            proof {
                let after = before.push(ls@[i as int]@);
                assert(after.drop_last() =~= before);
                assert(out@ =~= join_lines(after));
            }
            kept = kept + 1;
        }
        i = i + 1;
    }
    assert(lv.take(ls@.len() as int) =~= lv);
    let ghost kept_text = out@;
    assert(kept_text == join_lines(kept_bookmarks(lines(existing@), dest_dir@)));
    let n = out.as_str().unicode_len();
    if n > 0 {
        let last = out.as_str().get_char(n - 1);
        if last != '\n' {
            crate::text::push_char(&mut out, '\n');
        }
    }
    assert(out@ == (if kept_text.len() > 0 && kept_text.last() != '\n' { kept_text.push('\n') } else { kept_text }));
    push_str(&mut out, line_s.as_str());
    push_str(&mut out, "\n");
    out
}

// ── Install log ─────────────────────────────────────────────────────────────

/// One line of the install log.
#[derive(Debug, Clone, Copy, PartialEq, Eq, Structural)]
pub enum InstallNote {
    /// A unit file was written (argument: its path).
    Wrote,
    /// The user manager reloaded its units.
    Reloaded,
    /// The timer was enabled and started.
    Enabled,
    /// The icon was copied (argument: its path).
    IconInstalled,
    /// No icon was found next to the program.
    IconMissing,
    /// The launcher entry was written (argument: its path).
    LauncherInstalled,
    /// The bookmark now points at the destination (argument: the destination).
    BookmarkUpdated,
    /// The bookmark could not be written (argument: the error).
    BookmarkSkipped,
}

/// The text of one install-log line.
pub open spec fn install_line_spec(note: InstallNote, arg: Seq<char>) -> Seq<char> {
    match note {
        InstallNote::Wrote => "  Wrote "@ + arg,
        InstallNote::Reloaded => "  systemctl --user daemon-reload"@,
        InstallNote::Enabled => "  Enabled and started "@ + timer_name(),
        InstallNote::IconInstalled => "  Installed icon → "@ + arg,
        InstallNote::IconMissing => "  ⚠  Icon asset not found next to binary — skipping icon install"@,
        InstallNote::LauncherInstalled => "  Installed launcher → "@ + arg,
        InstallNote::BookmarkUpdated => "  Updated Nautilus bookmark → "@ + arg,
        InstallNote::BookmarkSkipped => "  ⚠  Nautilus bookmark skipped: "@ + arg,
    }
}

/// One line of the install log.
pub fn install_line(note: InstallNote, arg: &str) -> (r: String)
    ensures
        r@ == install_line_spec(note, arg@),
{
    match note {
        InstallNote::Wrote => crate::text::concat2("  Wrote ", arg),
        InstallNote::Reloaded => String::from_str("  systemctl --user daemon-reload"),
        InstallNote::Enabled => crate::text::concat2("  Enabled and started ", timer_unit_name()),
        InstallNote::IconInstalled => crate::text::concat2("  Installed icon → ", arg),
        InstallNote::IconMissing => String::from_str("  ⚠  Icon asset not found next to binary — skipping icon install"),
        InstallNote::LauncherInstalled => crate::text::concat2("  Installed launcher → ", arg),
        InstallNote::BookmarkUpdated => crate::text::concat2("  Updated Nautilus bookmark → ", arg),
        InstallNote::BookmarkSkipped => crate::text::concat2("  ⚠  Nautilus bookmark skipped: ", arg),
    }
}

/// The install log: its lines joined with newlines.
pub fn install_log_text(log: &Vec<String>) -> (r: String)
    ensures
        r@ == join_lines(crate::config::string_views(log@)),
{
    crate::forms::lines_text(log)
}

} // verus!
