//! Block devices: which partitions can hold backups, how they are listed,
//! and how the output of the system tools that describe them is read.

use vstd::prelude::*;
use crate::config::opt_view;
use crate::order::lex_le;
use crate::text::{chars_of, push_str};

verus! {

/// All the information we care about for a single block-device partition.
#[derive(Debug)]
pub struct DriveInfo {
    /// Kernel device name, e.g. `sda1` or `nvme0n1p2`.
    pub name: String,
    /// Filesystem label, if any.
    pub label: Option<String>,
    /// Human-readable size reported by lsblk, e.g. `931.5G`.
    pub size: String,
    /// Current mountpoint, or `None` if not mounted.
    pub mountpoint: Option<String>,
    /// Filesystem type, e.g. `ext4`, `xfs`, `ntfs`.
    pub fstype: Option<String>,
    /// Partition UUID.
    pub uuid: Option<String>,
    /// True when the partition or its parent disk is hot-pluggable.
    pub removable: bool,
}

/// A [`DriveInfo`] as mathematical values.
pub ghost struct DriveView {
    pub name: Seq<char>,
    pub label: Option<Seq<char>>,
    pub size: Seq<char>,
    pub mountpoint: Option<Seq<char>>,
    pub fstype: Option<Seq<char>>,
    pub uuid: Option<Seq<char>>,
    pub removable: bool,
}

impl View for DriveInfo {
    type V = DriveView;

    open spec fn view(&self) -> DriveView {
        DriveView {
            name: self.name@,
            label: opt_view(self.label),
            size: self.size@,
            mountpoint: opt_view(self.mountpoint),
            fstype: opt_view(self.fstype),
            uuid: opt_view(self.uuid),
            removable: self.removable,
        }
    }
}

/// The dropdown text of a partition.
pub open spec fn display_label_text(d: DriveView) -> Seq<char> {
    let label = match d.label { Some(l) => l, None => "(no label)"@ };
    let mp = match d.mountpoint { Some(m) => "mounted at "@ + m, None => "not mounted"@ };
    let hotplug = if d.removable { " ⚡"@ } else { seq![] };
    label + " — /dev/"@ + d.name + " — "@ + d.size + " — "@ + mp + hotplug
}

impl DriveInfo {
    /// `/dev/NAME`.
    pub fn device_path(&self) -> (r: String)
        ensures
            r@ == "/dev/"@ + self.name@,
    {
        crate::text::concat2("/dev/", self.name.as_str())
    }

    /// A human-friendly one-liner for display in a dropdown.
    pub fn display_label(&self) -> (r: String)
        ensures
            r@ == display_label_text(self@),
    {
        let mut r = match &self.label {
            Some(l) => l.clone(),
            None => String::from_str("(no label)"),
        };
        push_str(&mut r, " — /dev/");
        push_str(&mut r, self.name.as_str());
        push_str(&mut r, " — ");
        push_str(&mut r, self.size.as_str());
        push_str(&mut r, " — ");
        match &self.mountpoint {
            Some(m) => {
                push_str(&mut r, "mounted at ");
                push_str(&mut r, m.as_str());
            }
            None => push_str(&mut r, "not mounted"),
        }
        if self.removable {
            push_str(&mut r, " ⚡");
        }
        assert(r@ =~= display_label_text(self@));
        r
    }

    /// Whether the partition is mounted.
    pub fn is_mounted(&self) -> (b: bool)
        ensures
            b == (self.mountpoint is Some),
    {
        self.mountpoint.is_some()
    }
}

// ── lsblk output ────────────────────────────────────────────────────────────

/// The `rm` field of lsblk's JSON, which versions print as a boolean, a
/// number or a string.
#[derive(Debug)]
pub enum RemovableFlag {
    Bool(bool),
    /// A number; `None` when it is not a non-negative integer.
    Number(Option<u64>),
    Text(String),
    /// Absent, null, or any other JSON value.
    Other,
}

/// One device of lsblk's JSON tree.
#[derive(Debug)]
pub struct LsblkDevice {
    pub name: String,
    pub label: Option<String>,
    pub size: Option<String>,
    pub mountpoint: Option<String>,
    /// The `type` field: `disk`, `part`, …
    pub kind: Option<String>,
    pub fstype: Option<String>,
    pub removable: RemovableFlag,
    pub uuid: Option<String>,
    pub children: Option<Vec<LsblkDevice>>,
}

/// Whether the `rm` field marks the device removable.
pub open spec fn flag_removable(f: RemovableFlag) -> bool {
    match f {
        RemovableFlag::Bool(b) => b,
        RemovableFlag::Number(n) => match n { Some(v) => v != 0, None => false },
        RemovableFlag::Text(s) => s@ == "1"@ || crate::scan::eq_ignore_ascii_case(s@, "true"@),
        RemovableFlag::Other => false,
    }
}

/// Whether the `rm` field marks the device removable.
pub fn is_removable(f: &RemovableFlag) -> (b: bool)
    ensures
        b == flag_removable(*f),
{
    match f {
        RemovableFlag::Bool(b) => *b,
        RemovableFlag::Number(n) => match n {
            Some(v) => *v != 0,
            None => false,
        },
        RemovableFlag::Text(s) => {
            let v = chars_of(s.as_str());
            crate::text::chars_eq_str(v.as_slice(), "1") || crate::scan::str_eq_ignore_ascii_case(s.as_str(), "true")
        }
        RemovableFlag::Other => false,
    }
}

/// Filesystems suitable for hosting backups.
pub open spec fn is_usable_fs(fs: Seq<char>) -> bool {
    fs == "ext4"@ || fs == "ext3"@ || fs == "ext2"@ || fs == "xfs"@ || fs == "btrfs"@
        || fs == "ntfs"@ || fs == "exfat"@ || fs == "vfat"@
}

/// Mountpoints never offered as backup destinations: the root and home
/// partitions, system paths, and swap.
pub open spec fn is_system_mount(mp: Seq<char>) -> bool {
    mp == "/"@ || mp == "/home"@ || mp == "/boot"@ || mp == "/boot/efi"@ || mp == "/boot/grub"@
        || mp == "/boot/grub2"@ || mp == "/usr"@ || mp == "/var"@ || mp == "/tmp"@ || mp == "/opt"@
        || mp == "/srv"@ || mp == "[SWAP]"@
}

pub fn usable_fs(fs: &str) -> (b: bool)
    ensures
        b == is_usable_fs(fs@),
{
    let v = chars_of(fs);
    let s = v.as_slice();
    crate::text::chars_eq_str(s, "ext4") || crate::text::chars_eq_str(s, "ext3")
        || crate::text::chars_eq_str(s, "ext2") || crate::text::chars_eq_str(s, "xfs")
        || crate::text::chars_eq_str(s, "btrfs") || crate::text::chars_eq_str(s, "ntfs")
        || crate::text::chars_eq_str(s, "exfat") || crate::text::chars_eq_str(s, "vfat")
}

pub fn system_mount(mp: &str) -> (b: bool)
    ensures
        b == is_system_mount(mp@),
{
    let v = chars_of(mp);
    let s = v.as_slice();
    crate::text::chars_eq_str(s, "/") || crate::text::chars_eq_str(s, "/home")
        || crate::text::chars_eq_str(s, "/boot") || crate::text::chars_eq_str(s, "/boot/efi")
        || crate::text::chars_eq_str(s, "/boot/grub") || crate::text::chars_eq_str(s, "/boot/grub2")
        || crate::text::chars_eq_str(s, "/usr") || crate::text::chars_eq_str(s, "/var")
        || crate::text::chars_eq_str(s, "/tmp") || crate::text::chars_eq_str(s, "/opt")
        || crate::text::chars_eq_str(s, "/srv") || crate::text::chars_eq_str(s, "[SWAP]")
}

/// Whether lsblk reports the device as a partition.
pub open spec fn is_partition(d: LsblkDevice) -> bool {
    opt_view(d.kind) == Some("part"@)
}

/// A partition mounted at a system location: neither it nor anything
/// below it is offered.
pub open spec fn is_system_partition(d: LsblkDevice) -> bool {
    is_partition(d) && (d.mountpoint matches Some(mp) && is_system_mount(mp@))
}

/// The entry a partition with a usable filesystem contributes.
pub open spec fn drive_view_of(d: LsblkDevice, removable: bool) -> DriveView {
    DriveView {
        name: d.name@,
        label: opt_view(d.label),
        size: match d.size { Some(s) => s@, None => "?"@ },
        mountpoint: opt_view(d.mountpoint),
        fstype: opt_view(d.fstype),
        uuid: opt_view(d.uuid),
        removable,
    }
}

/// Partitions that could host backups, from one device and the devices
/// below it, in lsblk's order; a device is removable when it or a parent is.
pub open spec fn collect_device(d: LsblkDevice, parent_removable: bool) -> Seq<DriveView>
    decreases d,
{
    let removable = flag_removable(d.removable) || parent_removable;
    if is_system_partition(d) {
        seq![]
    } else {
        let own: Seq<DriveView> = if is_partition(d) && (d.fstype matches Some(fs) && is_usable_fs(fs@)) {
            seq![drive_view_of(d, removable)]
        } else {
            seq![]
        };
        own + match d.children {
            Some(ch) => collect_all(ch@, removable),
            None => seq![],
        }
    }
}

/// `collect_device` over a list of devices, concatenated.
pub open spec fn collect_all(ds: Seq<LsblkDevice>, parent_removable: bool) -> Seq<DriveView>
    decreases ds,
{
    if ds.len() == 0 {
        seq![]
    } else {
        collect_all(ds.drop_last(), parent_removable) + collect_device(ds.last(), parent_removable)
    }
}

/// Views of a list of drives.
pub open spec fn drive_views(v: Seq<DriveInfo>) -> Seq<DriveView> {
    v.map_values(|d: DriveInfo| d@)
}

fn opt_clone(o: &Option<String>) -> (r: Option<String>)
    ensures
        opt_view(r) == opt_view(*o),
{
    crate::text::clone_opt_string(o)
}

fn collect(d: &LsblkDevice, parent_removable: bool, out: &mut Vec<DriveInfo>)
    ensures
        drive_views(final(out)@) == drive_views(old(out)@) + collect_device(*d, parent_removable),
    decreases d,
{
    let removable = is_removable(&d.removable) || parent_removable;
    let part = match &d.kind {
        Some(k) => {
            let v = chars_of(k.as_str());
            crate::text::chars_eq_str(v.as_slice(), "part")
        }
        None => false,
    };
    assert(part == is_partition(*d));
    if part {
        if let Some(mp) = &d.mountpoint {
            if system_mount(mp.as_str()) {
                assert(drive_views(out@) =~= drive_views(out@) + Seq::<DriveView>::empty());
                return;
            }
        }
    }
    let ghost start = drive_views(out@);
    let mut own = false;
    if part {
        if let Some(fs) = &d.fstype {
            if usable_fs(fs.as_str()) {
                own = true;
                let size = match &d.size {
                    Some(s) => s.clone(),
                    None => String::from_str("?"),
                };
                let info = DriveInfo {
                    name: d.name.clone(),
                    label: opt_clone(&d.label),
                    size,
                    mountpoint: opt_clone(&d.mountpoint),
                    fstype: opt_clone(&d.fstype),
                    uuid: opt_clone(&d.uuid),
                    removable,
                };
                assert(info@ == drive_view_of(*d, removable));
                out.push(info);
            }
        }
    }
    let ghost own_seq: Seq<DriveView> = if own { seq![drive_view_of(*d, removable)] } else { seq![] };
    assert(drive_views(out@) =~= start + own_seq);
    match &d.children {
        Some(ch) => {
            let mut i: usize = 0;
            while i < ch.len()
                invariant
                    i <= ch@.len(),
                    d.children == Some(*ch),
                    drive_views(out@) == start + own_seq + collect_all(ch@.take(i as int), removable),
                decreases ch@.len() - i,
            {
                assert(ch@.take(i + 1).drop_last() =~= ch@.take(i as int));
                assert(ch@.take(i + 1).last() == ch@[i as int]);
                proof {
                    assert(decreases_to!(*d => d.children));
                    assert(d.children->0 == *ch);
                    assert(decreases_to!(d.children => d.children->0));
                    assert(decreases_to!(*ch => ch@));
                    assert(decreases_to!(ch@ => ch@[i as int]));
                }
                collect(&ch[i], removable, out);
                i = i + 1;
            }
            assert(ch@.take(ch@.len() as int) =~= ch@);
        }
        None => {
            assert(drive_views(out@) =~= start + own_seq + Seq::<DriveView>::empty());
        }
    }
}

/// Partitions that could host backups, from the devices lsblk lists, in
/// lsblk's order.
pub fn collect_drives(devices: &Vec<LsblkDevice>) -> (r: Vec<DriveInfo>)
    ensures
        drive_views(r@) == collect_all(devices@, false),
{
    let mut out: Vec<DriveInfo> = Vec::new();
    let mut i: usize = 0;
    assert(drive_views(out@) =~= collect_all(devices@.take(0), false));
    while i < devices.len()
        invariant
            i <= devices@.len(),
            drive_views(out@) == collect_all(devices@.take(i as int), false),
        decreases devices@.len() - i,
    {
        assert(devices@.take(i + 1).drop_last() =~= devices@.take(i as int));
        assert(devices@.take(i + 1).last() == devices@[i as int]);
        collect(&devices[i], false, &mut out);
        i = i + 1;
    }
    assert(devices@.take(devices@.len() as int) =~= devices@);
    out
}

// ── Order of the dropdown ───────────────────────────────────────────────────

/// `a` sorts no later than `b`: mounted before unmounted, then removable
/// before fixed, then by device name.
pub open spec fn drive_le(a: DriveView, b: DriveView) -> bool {
    if (a.mountpoint is Some) != (b.mountpoint is Some) {
        a.mountpoint is Some
    } else if a.removable != b.removable {
        a.removable
    } else {
        lex_le(a.name, b.name)
    }
}

/// `out` is `inp` sorted by `drive_le`, keeping the input order of entries
/// that sort alike; `perm[i]` is the input position of `out[i]`.
pub open spec fn is_stable_sort(out: Seq<DriveView>, inp: Seq<DriveView>, perm: Seq<int>) -> bool {
    &&& perm.len() == inp.len()
    &&& out.len() == inp.len()
    &&& forall|i: int| 0 <= i < perm.len() ==> 0 <= #[trigger] perm[i] < inp.len()
    &&& forall|i: int, j: int| 0 <= i < j < perm.len() ==> perm[i] != perm[j]
    &&& forall|i: int| 0 <= i < out.len() ==> #[trigger] out[i] == inp[perm[i]]
    &&& forall|i: int, j: int| 0 <= i < j < out.len() ==> drive_le(#[trigger] out[i], #[trigger] out[j])
    &&& forall|i: int, j: int| 0 <= i < j < out.len() && drive_le(#[trigger] out[j], #[trigger] out[i]) ==> perm[i] < perm[j]
}

pub proof fn lemma_drive_le_total(a: DriveView, b: DriveView)
    ensures
        drive_le(a, b) || drive_le(b, a),
{
    crate::order::lemma_lex_total(a.name, b.name);
}

pub proof fn lemma_drive_le_transitive(a: DriveView, b: DriveView, c: DriveView)
    requires
        drive_le(a, b),
        drive_le(b, c),
    ensures
        drive_le(a, c),
{
    if (a.mountpoint is Some) == (b.mountpoint is Some) && (b.mountpoint is Some) == (c.mountpoint is Some)
        && a.removable == b.removable && b.removable == c.removable {
        crate::order::lemma_lex_transitive(a.name, b.name, c.name);
    }
}

fn drive_le_exec(a: &DriveInfo, b: &DriveInfo) -> (r: bool)
    ensures
        r == drive_le(a@, b@),
{
    if a.mountpoint.is_some() != b.mountpoint.is_some() {
        a.mountpoint.is_some()
    } else if a.removable != b.removable {
        a.removable
    } else {
        let x = chars_of(a.name.as_str());
        let y = chars_of(b.name.as_str());
        crate::order::lex_le_exec(x.as_slice(), y.as_slice())
    }
}

/// Stable sort of the dropdown entries: mounted first, then removable,
/// then alphabetical by name.
pub fn sort_drives(v: Vec<DriveInfo>) -> (r: Vec<DriveInfo>)
    ensures
        exists|perm: Seq<int>| is_stable_sort(drive_views(r@), drive_views(v@), perm),
{
    let ghost inp = drive_views(v@);
    let mut rest = v;
    let mut out: Vec<DriveInfo> = Vec::new();
    let ghost mut perm: Seq<int> = seq![];
    let mut k: usize = 0;
    let n = rest.len();
    while rest.len() > 0
        invariant
            inp.len() == n,
            k + rest@.len() == inp.len(),
            drive_views(rest@) == inp.skip(k as int),
            is_stable_sort(drive_views(out@), inp.take(k as int), perm),
            forall|i: int| 0 <= i < perm.len() ==> #[trigger] perm[i] < k,
        decreases rest@.len(),
    {
        let ghost ov = drive_views(out@);
        let ghost old_rest = rest@;
        let x = rest.remove(0);
        proof {
            assert forall|i: int| 0 <= i < rest@.len() implies #[trigger] drive_views(rest@)[i] == inp.skip(k + 1)[i] by {
                assert(rest@[i] == old_rest[i + 1]);
                assert(drive_views(old_rest)[i + 1] == inp.skip(k as int)[i + 1]);
            }
            assert(drive_views(rest@) =~= inp.skip(k + 1));
            assert(x@ == inp[k as int]) by {
                assert(inp.skip(k as int)[0] == inp[k as int]);
            }
        }
        let mut q: usize = 0;
        while q < out.len() && drive_le_exec(&out[q], &x)
            invariant
                q <= out@.len(),
                ov == drive_views(out@),
                forall|p: int| 0 <= p < q ==> drive_le(#[trigger] ov[p], x@),
            decreases out@.len() - q,
        {
            q = q + 1;
        }
        proof {
            if q < out@.len() {
                lemma_drive_le_total(ov[q as int], x@);
            }
        }
        out.insert(q, x);
        proof {
            let nv = drive_views(out@);
            let np = perm.insert(q as int, k as int);
            let ti = inp.take(k + 1);
            assert(nv =~= ov.insert(q as int, x@));
            assert forall|i: int| 0 <= i < nv.len() implies #[trigger] nv[i] == ti[np[i]] by {
                if i < q {
                } else if i == q {
                } else {
                    assert(nv[i] == ov[i - 1]);
                    assert(np[i] == perm[i - 1]);
                }
            }
            assert forall|i: int, j: int| 0 <= i < j < nv.len() implies drive_le(#[trigger] nv[i], #[trigger] nv[j]) by {
                if j < q {
                } else if j == q {
                    assert(nv[i] == ov[i]);
                } else if i < q {
                    assert(nv[i] == ov[i] && nv[j] == ov[j - 1]);
                } else if i == q {
                    assert(nv[j] == ov[j - 1]);
                    if j - 1 > q {
                        assert(drive_le(ov[q as int], ov[j - 1]));
                    } else {
                        crate::order::lemma_lex_reflexive(ov[q as int].name);
                    }
                    lemma_drive_le_transitive(x@, ov[q as int], ov[j - 1]);
                } else {
                    assert(nv[i] == ov[i - 1] && nv[j] == ov[j - 1]);
                }
            }
            assert forall|i: int, j: int| 0 <= i < j < nv.len() && drive_le(#[trigger] nv[j], #[trigger] nv[i])
                implies np[i] < np[j] by {
                if j < q {
                } else if j == q {
                    assert(np[j] == k);
                    assert(np[i] == perm[i]);
                } else if i < q {
                    assert(nv[i] == ov[i] && nv[j] == ov[j - 1]);
                    assert(np[i] == perm[i] && np[j] == perm[j - 1]);
                } else if i == q {
                    assert(nv[j] == ov[j - 1]);
                    if j - 1 > q {
                        assert(drive_le(ov[q as int], ov[j - 1]));
                    } else {
                        crate::order::lemma_lex_reflexive(ov[q as int].name);
                    }
                    lemma_drive_le_transitive(ov[q as int], ov[j - 1], x@);
                    assert(false);
                } else {
                    assert(nv[i] == ov[i - 1] && nv[j] == ov[j - 1]);
                    assert(np[i] == perm[i - 1] && np[j] == perm[j - 1]);
                }
            }
            assert forall|i: int, j: int| 0 <= i < j < np.len() implies np[i] != np[j] by {
                if j < q {
                } else if j == q {
                } else if i < q {
                } else if i == q {
                    assert(np[j] == perm[j - 1]);
                } else {
                }
            }
            assert forall|i: int| 0 <= i < np.len() implies 0 <= #[trigger] np[i] < ti.len() by {
                if i > q { assert(np[i] == perm[i - 1]); }
            }
            assert(is_stable_sort(nv, ti, np));
            perm = np;
        }
        k = k + 1;
        proof {
            assert forall|i: int| 0 <= i < perm.len() implies #[trigger] perm[i] < k by {
            }
        }
    }
    proof {
        assert(inp.take(k as int) =~= inp);
    }
    out
}

/// Partitions that could host backups, from the devices lsblk lists:
/// every usable partition in lsblk's order, then stably sorted with mounted
/// ones first, then removable ones, then by name.
pub fn drives_from_lsblk(devices: &Vec<LsblkDevice>) -> (r: Vec<DriveInfo>)
    ensures
        exists|perm: Seq<int>| is_stable_sort(drive_views(r@), collect_all(devices@, false), perm),
{
    let all = collect_drives(devices);
    sort_drives(all)
}

// ── Output of the system tools ──────────────────────────────────────────────

/// The trimmed text, unless it is empty.
pub open spec fn nonempty_trimmed(s: Seq<char>) -> Option<Seq<char>> {
    let t = crate::scan::trim(s);
    if t.len() == 0 { None } else { Some(t) }
}

/// Trimmed tool output, `None` when it is empty (findmnt, blkid).
pub fn trimmed_output(stdout: &str) -> (r: Option<String>)
    ensures
        opt_view(r) == nonempty_trimmed(stdout@),
{
    let t = crate::scan::trimmed(stdout);
    if t.len() == 0 {
        None
    } else {
        Some(crate::text::string_of(t.as_slice()))
    }
}

/// A filesystem label as `lsblk -n -o LABEL` prints it; `-`, `(null)` and
/// blank output mean there is none.
pub open spec fn lsblk_label(s: Seq<char>) -> Option<Seq<char>> {
    let t = crate::scan::trim(s);
    if t.len() == 0 || t == "-"@ || t == "(null)"@ { None } else { Some(t) }
}

/// The label `lsblk -n -o LABEL` printed, if any.
pub fn label_from_lsblk(stdout: &str) -> (r: Option<String>)
    ensures
        opt_view(r) == lsblk_label(stdout@),
{
    let t = crate::scan::trimmed(stdout);
    if t.len() == 0 || crate::text::chars_eq_str(t.as_slice(), "-") || crate::text::chars_eq_str(t.as_slice(), "(null)") {
        None
    } else {
        Some(crate::text::string_of(t.as_slice()))
    }
}

/// The mountpoint in udisksctl's "Mounted /dev/sdX at /run/media/user/LABEL.":
/// the text after the first " at " (up to a second one), without trailing
/// ".\n" and surrounding whitespace.
pub open spec fn udisksctl_mountpoint(s: Seq<char>) -> Option<Seq<char>> {
    match crate::split::second_piece(s, " at "@) {
        Some(p) => Some(crate::scan::trim(crate::split::trim_end_matches(p, ".\n"@))),
        None => None,
    }
}

/// The mountpoint reported by `udisksctl mount`.
pub fn mountpoint_from_udisksctl(stdout: &str) -> (r: Option<String>)
    ensures
        opt_view(r) == udisksctl_mountpoint(stdout@),
{
    let v = chars_of(stdout);
    let at = chars_of(" at ");
    proof { reveal_strlit(" at "); }
    match crate::split::second_piece_exec(v.as_slice(), at.as_slice()) {
        None => None,
        Some(p) => {
            let dn = chars_of(".\n");
            let q = crate::split::trim_end_matches_exec(p.as_slice(), dn.as_slice());
            let t = crate::scan::trim_chars(q.as_slice());
            Some(crate::text::string_of(t.as_slice()))
        }
    }
}

/// Why `df` output could not be read.
#[derive(Debug, Clone, PartialEq, Eq)]
pub enum DfError {
    /// No second line.
    MissingLine,
    /// The second line has fewer than two fields.
    TooFewFields,
    /// The available-bytes field is not a number.
    BadAvail(String),
    /// The size field is not a number.
    BadSize(String),
}

/// Available and total bytes from `df --output=avail,size -B1` output: the
/// first two fields of the second line.
pub open spec fn df_bytes(s: Seq<char>) -> Result<(u64, u64), Seq<char>> {
    let ls = crate::split::lines(s);
    if ls.len() < 2 {
        Err("parsing df output"@)
    } else {
        let f = crate::split::words(ls[1]);
        if f.len() < 2 {
            Err("unexpected df output"@)
        } else {
            match (crate::scan::parse_unsigned_upto(f[0], u64::MAX as nat), crate::scan::parse_unsigned_upto(f[1], u64::MAX as nat)) {
                (Some(a), Some(t)) => Ok((a as u64, t as u64)),
                (None, _) => Err("parsing df avail bytes '"@ + f[0] + "'"@),
                (Some(_), None) => Err("parsing df size bytes '"@ + f[1] + "'"@),
            }
        }
    }
}

impl DfError {
    /// What went wrong, for the user.
    pub open spec fn text(self) -> Seq<char> {
        match self {
            DfError::MissingLine => "parsing df output"@,
            DfError::TooFewFields => "unexpected df output"@,
            DfError::BadAvail(f) => "parsing df avail bytes '"@ + f@ + "'"@,
            DfError::BadSize(f) => "parsing df size bytes '"@ + f@ + "'"@,
        }
    }

    pub fn message(&self) -> (r: String)
        ensures
            r@ == self.text(),
    {
        match self {
            DfError::MissingLine => String::from_str("parsing df output"),
            DfError::TooFewFields => String::from_str("unexpected df output"),
            DfError::BadAvail(f) => {
                let mut r = crate::text::concat2("parsing df avail bytes '", f.as_str());
                push_str(&mut r, "'");
                r
            }
            DfError::BadSize(f) => {
                let mut r = crate::text::concat2("parsing df size bytes '", f.as_str());
                push_str(&mut r, "'");
                r
            }
        }
    }
}

/// Available and total bytes on the filesystem, from `df` output.
pub fn filesystem_bytes(df_stdout: &str) -> (r: Result<(u64, u64), DfError>)
    ensures
        match r {
            Ok(p) => df_bytes(df_stdout@) == Ok::<(u64, u64), Seq<char>>(p),
            Err(e) => df_bytes(df_stdout@) == Err::<(u64, u64), Seq<char>>(e.text()),
        },
{
    let v = chars_of(df_stdout);
    let ls = crate::split::lines_exec(v.as_slice());
    if ls.len() < 2 {
        return Err(DfError::MissingLine);
    }
    assert(crate::split::views(ls@)[1] == ls@[1]@);
    let f = crate::split::words_exec(ls[1].as_slice());
    if f.len() < 2 {
        return Err(DfError::TooFewFields);
    }
    assert(crate::split::views(f@)[0] == f@[0]@ && crate::split::views(f@)[1] == f@[1]@);
    match crate::scan::parse_u64(f[0].as_slice()) {
        None => Err(DfError::BadAvail(crate::text::string_of(f[0].as_slice()))),
        Some(a) => match crate::scan::parse_u64(f[1].as_slice()) {
            None => Err(DfError::BadSize(crate::text::string_of(f[1].as_slice()))),
            Some(t) => Ok((a, t)),
        },
    }
}

/// Available bytes on the filesystem, from `df` output.
pub fn available_bytes(df_stdout: &str) -> (r: Result<u64, DfError>)
    ensures
        match r {
            Ok(a) => df_bytes(df_stdout@) matches Ok(p) && p.0 == a,
            Err(e) => df_bytes(df_stdout@) == Err::<(u64, u64), Seq<char>>(e.text()),
        },
{
    match filesystem_bytes(df_stdout) {
        Ok(p) => Ok(p.0),
        Err(e) => Err(e),
    }
}

/// Why `du` output could not be read.
#[derive(Debug, Clone, PartialEq, Eq)]
pub enum DuError {
    /// The output has no field.
    MissingField,
    /// The first field is not a number.
    BadNumber(String),
}

/// Bytes from `du -sb` output: its first field.
pub open spec fn du_bytes(s: Seq<char>) -> Result<u64, Seq<char>> {
    let f = crate::split::words(s);
    if f.len() == 0 {
        Err("parsing du output"@)
    } else {
        match crate::scan::parse_unsigned_upto(f[0], u64::MAX as nat) {
            Some(v) => Ok(v as u64),
            None => Err("parsing du bytes '"@ + f[0] + "'"@),
        }
    }
}

impl DuError {
    /// What went wrong, for the user.
    pub open spec fn text(self) -> Seq<char> {
        match self {
            DuError::MissingField => "parsing du output"@,
            DuError::BadNumber(f) => "parsing du bytes '"@ + f@ + "'"@,
        }
    }

    pub fn message(&self) -> (r: String)
        ensures
            r@ == self.text(),
    {
        match self {
            DuError::MissingField => String::from_str("parsing du output"),
            DuError::BadNumber(f) => {
                let mut r = crate::text::concat2("parsing du bytes '", f.as_str());
                push_str(&mut r, "'");
                r
            }
        }
    }
}

/// Disk usage in bytes, from `du -sb` output.
pub fn du_output_bytes(du_stdout: &str) -> (r: Result<u64, DuError>)
    ensures
        match r {
            Ok(v) => du_bytes(du_stdout@) == Ok::<u64, Seq<char>>(v),
            Err(e) => du_bytes(du_stdout@) == Err::<u64, Seq<char>>(e.text()),
        },
{
    let v = chars_of(du_stdout);
    let f = crate::split::words_exec(v.as_slice());
    if f.len() == 0 {
        return Err(DuError::MissingField);
    }
    assert(crate::split::views(f@)[0] == f@[0]@);
    match crate::scan::parse_u64(f[0].as_slice()) {
        Some(x) => Ok(x),
        None => Err(DuError::BadNumber(crate::text::string_of(f[0].as_slice()))),
    }
}

/// The user id that `id -u` printed.
pub fn uid_from_output(stdout: &str) -> (r: Option<u32>)
    ensures
        r == (match crate::scan::parse_unsigned_upto(crate::scan::trim(stdout@), 0xffff_ffff) {
            Some(v) => Some(v as u32),
            None => None,
        }),
{
    let t = crate::scan::trimmed(stdout);
    crate::scan::parse_u32(t.as_slice())
}

/// The freedesktop trash directories of user `uid` at a volume's root:
/// `.Trash-<uid>` and `.Trash/<uid>`.
pub fn trash_dirs(mount_root: &str, uid: u32) -> (r: Vec<String>)
    ensures
        crate::config::string_views(r@) == seq![
            crate::paths::path_join(mount_root@, ".Trash-"@ + crate::text::decimal(uid as nat)),
            crate::paths::path_join(crate::paths::path_join(mount_root@, ".Trash"@), crate::text::decimal(uid as nat)),
        ],
{
    let mut name = String::from_str(".Trash-");
    crate::text::push_decimal(&mut name, uid as u64);
    let a = crate::paths::join_path(mount_root, name.as_str());
    let t = crate::paths::join_path(mount_root, ".Trash");
    let u = crate::text::decimal_string(uid as u64);
    let b = crate::paths::join_path(t.as_str(), u.as_str());
    let mut r: Vec<String> = Vec::new();
    r.push(a);
    r.push(b);
    assert(crate::config::string_views(r@) =~= seq![a@, b@]);
    r
}

/// The parts of a trash directory that are emptied: `files` and `expunged`.
pub fn trash_parts(trash_root: &str) -> (r: Vec<String>)
    ensures
        crate::config::string_views(r@) == seq![
            crate::paths::path_join(trash_root@, "files"@),
            crate::paths::path_join(trash_root@, "expunged"@),
        ],
{
    let mut r: Vec<String> = Vec::new();
    r.push(crate::paths::join_path(trash_root, "files"));
    r.push(crate::paths::join_path(trash_root, "expunged"));
    assert(crate::config::string_views(r@) =~= seq![r@[0]@, r@[1]@]);
    r
}

/// Bytes freed so far plus what `du` measured for one more directory; a
/// directory that could not be measured counts nothing.
pub fn add_freed(freed: u64, usage: Option<u64>) -> (r: u64)
    requires
        freed + (match usage { Some(u) => u as int, None => 0int }) <= u64::MAX,
    ensures
        r == freed + (match usage { Some(u) => u as int, None => 0int }),
{
    match usage {
        Some(u) => freed + u,
        None => freed,
    }
}

/// The mountpoint that `findmnt -o TARGET` printed, or the error for `path`
/// when it printed nothing.
pub fn findmnt_mountpoint(stdout: &str, path: &str) -> (r: Result<String, String>)
    ensures
        match r {
            Ok(m) => nonempty_trimmed(stdout@) == Some(m@),
            Err(e) => nonempty_trimmed(stdout@) is None
                && e@ == "findmnt returned no mountpoint for "@ + path@,
        },
{
    match trimmed_output(stdout) {
        Some(m) => Ok(m),
        None => Err(crate::text::concat2("findmnt returned no mountpoint for ", path)),
    }
}

// ── Emptying the trash on a volume ──────────────────────────────────────────

/// Trash directory `i` (0 or 1) of user `uid` at a volume's root.
pub open spec fn trash_root_spec(mount_root: Seq<char>, uid: u32, i: int) -> Seq<char> {
    if i == 0 {
        crate::paths::path_join(mount_root, ".Trash-"@ + crate::text::decimal(uid as nat))
    } else {
        crate::paths::path_join(crate::paths::path_join(mount_root, ".Trash"@), crate::text::decimal(uid as nat))
    }
}

/// Part `j` (0: `files`, 1: `expunged`) of trash directory `i`.
pub open spec fn trash_part_spec(mount_root: Seq<char>, uid: u32, i: int, j: int) -> Seq<char> {
    crate::paths::path_join(trash_root_spec(mount_root, uid, i), if j == 0 { "files"@ } else { "expunged"@ })
}

/// Where emptying the trash stands: checking trash directory `i`; checking,
/// measuring or clearing part `j` of it; or done.
#[derive(Debug, Clone, Copy, PartialEq, Eq, Structural)]
pub enum SweepPhase {
    Root(usize),
    Part(usize, usize),
    Measure(usize, usize),
    Clear(usize, usize),
    Done,
}

/// Outside work while emptying the trash.
#[derive(Debug, Clone, PartialEq, Eq)]
pub enum SweepStep {
    /// Report whether this path is a directory.
    CheckDir(String),
    /// Measure this directory with `du -sb`.
    Measure(String),
    /// Remove every entry of this directory (stop with the error on failure).
    Clear(String),
    /// Done: the bytes freed.
    Finish(u64),
}

/// A [`SweepStep`] as mathematical values.
pub ghost enum SweepStepView {
    CheckDir(Seq<char>),
    Measure(Seq<char>),
    Clear(Seq<char>),
    Finish(u64),
}

impl View for SweepStep {
    type V = SweepStepView;

    open spec fn view(&self) -> SweepStepView {
        match self {
            SweepStep::CheckDir(p) => SweepStepView::CheckDir(p@),
            SweepStep::Measure(p) => SweepStepView::Measure(p@),
            SweepStep::Clear(p) => SweepStepView::Clear(p@),
            SweepStep::Finish(n) => SweepStepView::Finish(*n),
        }
    }
}

/// What the outside work reported while emptying the trash.
#[derive(Debug, Clone, Copy, PartialEq, Eq, Structural)]
pub enum SweepEvent {
    /// Whether the path is a directory.
    IsDir(bool),
    /// Its disk usage, `None` when `du` failed.
    Measured(Option<u64>),
    /// Its entries are removed.
    Cleared,
}

/// The events each phase expects.
pub open spec fn sweep_accepts(phase: SweepPhase, ev: SweepEvent) -> bool {
    match phase {
        SweepPhase::Root(i) => i < 2 && ev is IsDir,
        SweepPhase::Part(i, j) => i < 2 && j < 2 && ev is IsDir,
        SweepPhase::Measure(i, j) => i < 2 && j < 2 && ev is Measured,
        SweepPhase::Clear(i, j) => i < 2 && j < 2 && ev is Cleared,
        SweepPhase::Done => false,
    }
}

/// After trash directory `i`: the next one, or the end.
pub open spec fn after_root(m: Seq<char>, uid: u32, i: int, freed: u64) -> (SweepPhase, SweepStepView) {
    if i + 1 < 2 {
        (SweepPhase::Root((i + 1) as usize), SweepStepView::CheckDir(trash_root_spec(m, uid, i + 1)))
    } else {
        (SweepPhase::Done, SweepStepView::Finish(freed))
    }
}

/// After part `j` of trash directory `i`: its next part, or the next directory.
pub open spec fn after_part(m: Seq<char>, uid: u32, i: int, j: int, freed: u64) -> (SweepPhase, SweepStepView) {
    if j + 1 < 2 {
        (SweepPhase::Part(i as usize, (j + 1) as usize), SweepStepView::CheckDir(trash_part_spec(m, uid, i, j + 1)))
    } else {
        after_root(m, uid, i, freed)
    }
}

/// The bytes measured for a directory (nothing when `du` failed).
pub open spec fn measured(u: Option<u64>) -> int {
    match u {
        Some(v) => v as int,
        None => 0,
    }
}

/// How emptying the trash proceeds: each trash directory that exists has
/// its `files` and `expunged` parts measured and then cleared, in order;
/// the freed bytes are what was measured.
pub open spec fn sweep_next(m: Seq<char>, uid: u32, phase: SweepPhase, freed: u64, ev: SweepEvent)
    -> (SweepPhase, u64, SweepStepView)
{
    match (phase, ev) {
        (SweepPhase::Root(i), SweepEvent::IsDir(true)) =>
            (SweepPhase::Part(i, 0), freed, SweepStepView::CheckDir(trash_part_spec(m, uid, i as int, 0))),
        (SweepPhase::Root(i), _) => {
            let (p, s) = after_root(m, uid, i as int, freed);
            (p, freed, s)
        },
        (SweepPhase::Part(i, j), SweepEvent::IsDir(true)) =>
            (SweepPhase::Measure(i, j), freed, SweepStepView::Measure(trash_part_spec(m, uid, i as int, j as int))),
        (SweepPhase::Part(i, j), _) => {
            let (p, s) = after_part(m, uid, i as int, j as int, freed);
            (p, freed, s)
        },
        (SweepPhase::Measure(i, j), SweepEvent::Measured(u)) =>
            (SweepPhase::Clear(i, j), (freed + measured(u)) as u64, SweepStepView::Clear(trash_part_spec(m, uid, i as int, j as int))),
        (SweepPhase::Measure(i, j), _) => (SweepPhase::Done, freed, SweepStepView::Finish(freed)),
        (SweepPhase::Clear(i, j), _) => {
            let (p, s) = after_part(m, uid, i as int, j as int, freed);
            (p, freed, s)
        },
        (SweepPhase::Done, _) => (SweepPhase::Done, freed, SweepStepView::Finish(freed)),
    }
}

/// Emptying the freedesktop trash of one user on one volume.
#[derive(Debug)]
pub struct TrashSweep {
    pub mount_root: String,
    pub uid: u32,
    pub phase: SweepPhase,
    /// Bytes freed so far.
    pub freed: u64,
}

/// Start emptying the trash of user `uid` on the volume mounted at
/// `mount_root` (`.Trash-<uid>` and `.Trash/<uid>` at its root, their
/// `files` and `expunged` parts); the first step checks `.Trash-<uid>`.
pub fn empty_volume_trash(mount_root: &str, uid: u32) -> (r: (TrashSweep, SweepStep))
    ensures
        r.0.mount_root@ == mount_root@,
        r.0.uid == uid,
        r.0.phase == SweepPhase::Root(0),
        r.0.freed == 0,
        r.1@ == SweepStepView::CheckDir(trash_root_spec(mount_root@, uid, 0)),
{
    let sweep = TrashSweep { mount_root: String::from_str(mount_root), uid, phase: SweepPhase::Root(0), freed: 0 };
    let first = SweepStep::CheckDir(sweep.root(0));
    (sweep, first)
}

impl TrashSweep {
    fn root(&self, i: usize) -> (p: String)
        requires
            i < 2,
        ensures
            p@ == trash_root_spec(self.mount_root@, self.uid, i as int),
    {
        let dirs = trash_dirs(self.mount_root.as_str(), self.uid);
        assert(crate::config::string_views(dirs@).len() == dirs@.len());
        assert(dirs@.len() == 2);
        assert(crate::config::string_views(dirs@)[i as int] == dirs@[i as int]@);
        dirs[i].clone()
    }

    fn part(&self, i: usize, j: usize) -> (p: String)
        requires
            i < 2,
            j < 2,
        ensures
            p@ == trash_part_spec(self.mount_root@, self.uid, i as int, j as int),
    {
        let r = self.root(i);
        let parts = trash_parts(r.as_str());
        assert(crate::config::string_views(parts@).len() == parts@.len());
        assert(parts@.len() == 2);
        assert(crate::config::string_views(parts@)[j as int] == parts@[j as int]@);
        parts[j].clone()
    }

    fn next_root(&mut self, i: usize) -> (s: SweepStep)
        requires
            i < 2,
        ensures
            final(self).mount_root == old(self).mount_root,
            final(self).uid == old(self).uid,
            final(self).freed == old(self).freed,
            (final(self).phase, s@) == after_root(old(self).mount_root@, old(self).uid, i as int, old(self).freed),
    {
        if i + 1 < 2 {
            self.phase = SweepPhase::Root(i + 1);
            SweepStep::CheckDir(self.root(i + 1))
        } else {
            self.phase = SweepPhase::Done;
            SweepStep::Finish(self.freed)
        }
    }

    fn next_part(&mut self, i: usize, j: usize) -> (s: SweepStep)
        requires
            i < 2,
            j < 2,
        ensures
            final(self).mount_root == old(self).mount_root,
            final(self).uid == old(self).uid,
            final(self).freed == old(self).freed,
            (final(self).phase, s@) == after_part(old(self).mount_root@, old(self).uid, i as int, j as int, old(self).freed),
    {
        if j + 1 < 2 {
            self.phase = SweepPhase::Part(i, j + 1);
            SweepStep::CheckDir(self.part(i, j + 1))
        } else {
            self.next_root(i)
        }
    }

    /// Advance with what the outside work reported; returns the next step.
    /// A measured size must not take the total past `u64::MAX`.
    pub fn next(&mut self, ev: SweepEvent) -> (s: SweepStep)
        requires
            sweep_accepts(old(self).phase, ev),
            ev matches SweepEvent::Measured(u) ==> old(self).freed + measured(u) <= u64::MAX,
        ensures
            final(self).mount_root == old(self).mount_root,
            final(self).uid == old(self).uid,
            (final(self).phase, final(self).freed, s@)
                == sweep_next(old(self).mount_root@, old(self).uid, old(self).phase, old(self).freed, ev),
    {
        match (self.phase, ev) {
            (SweepPhase::Root(i), SweepEvent::IsDir(true)) => {
                self.phase = SweepPhase::Part(i, 0);
                SweepStep::CheckDir(self.part(i, 0))
            }
            (SweepPhase::Root(i), _) => self.next_root(i),
            (SweepPhase::Part(i, j), SweepEvent::IsDir(true)) => {
                self.phase = SweepPhase::Measure(i, j);
                SweepStep::Measure(self.part(i, j))
            }
            (SweepPhase::Part(i, j), _) => self.next_part(i, j),
            (SweepPhase::Measure(i, j), SweepEvent::Measured(u)) => {
                self.freed = add_freed(self.freed, u);
                self.phase = SweepPhase::Clear(i, j);
                SweepStep::Clear(self.part(i, j))
            }
            (SweepPhase::Measure(_, _), _) => {
                self.phase = SweepPhase::Done;
                SweepStep::Finish(self.freed)
            }
            (SweepPhase::Clear(i, j), _) => self.next_part(i, j),
            (SweepPhase::Done, _) => SweepStep::Finish(self.freed),
        }
    }
}

// ── The nearest existing ancestor ───────────────────────────────────────────

/// What `Path::parent` gives for a path: the path without its last
/// component, none for a root or an empty path.
pub uninterp spec fn std_path_parent(p: Seq<char>) -> Option<Seq<char>>;

/// `std::path::Path::parent`, as text: its result is named
/// [`std_path_parent`]; what is claimed besides is only that a parent is
/// shorter than the path (it is the path without its final component).
/// Which text that is (how separators and `.` components are treated) is
/// left to the name.
#[verifier::external_body]
fn path_parent(p: &str) -> (r: Option<String>)
    ensures
        opt_view(r) == std_path_parent(p@),
        r matches Some(q) ==> q@.len() < p@.len(),
{
    std::path::Path::new(p).parent().map(|q| q.to_string_lossy().into_owned())
}

/// What to do next while looking for the nearest existing ancestor.
#[derive(Debug, Clone, PartialEq, Eq)]
pub enum AncestorStep {
    /// Find out whether this path exists.
    Check(String),
    /// This is the nearest existing ancestor.
    Found(String),
    /// Nothing up to the root exists (the message names the start).
    NoAncestor(String),
}

/// Walks from a path towards the root until a path exists.
pub struct AncestorSearch {
    /// Where the walk started.
    pub start: String,
    /// The path being checked.
    pub current: String,
}

/// The walk's answer for the path being checked: it exists; or its parent
/// is checked next; or there is no parent and the walk fails.
pub open spec fn ancestor_next(start: Seq<char>, current: Seq<char>, exists: bool) -> (Seq<char>, AncestorView) {
    if exists {
        (current, AncestorView::Found(current))
    } else {
        match std_path_parent(current) {
            Some(p) => (p, AncestorView::Check(p)),
            None => (current, AncestorView::NoAncestor("no existing ancestor for "@ + start)),
        }
    }
}

/// An [`AncestorStep`] as mathematical values.
pub ghost enum AncestorView {
    Check(Seq<char>),
    Found(Seq<char>),
    NoAncestor(Seq<char>),
}

impl View for AncestorStep {
    type V = AncestorView;

    open spec fn view(&self) -> AncestorView {
        match self {
            AncestorStep::Check(p) => AncestorView::Check(p@),
            AncestorStep::Found(p) => AncestorView::Found(p@),
            AncestorStep::NoAncestor(m) => AncestorView::NoAncestor(m@),
        }
    }
}

impl AncestorSearch {
    /// The search for the nearest existing ancestor of `path` (the path
    /// itself included); it starts by checking `path`.
    pub fn new(path: &str) -> (r: (AncestorSearch, AncestorStep))
        ensures
            r.0.start@ == path@,
            r.0.current@ == path@,
            r.1@ == AncestorView::Check(path@),
    {
        (AncestorSearch { start: String::from_str(path), current: String::from_str(path) },
            AncestorStep::Check(String::from_str(path)))
    }

    /// Whether the path being checked exists; the next step.  Each `Check`
    /// names a path shorter than the one before, so the walk ends.
    pub fn next(&mut self, exists: bool) -> (s: AncestorStep)
        ensures
            final(self).start@ == old(self).start@,
            (final(self).current@, s@) == ancestor_next(old(self).start@, old(self).current@, exists),
            s is Check ==> final(self).current@.len() < old(self).current@.len(),
    {
        if exists {
            return AncestorStep::Found(self.current.clone());
        }
        match path_parent(self.current.as_str()) {
            Some(p) => {
                let step = AncestorStep::Check(p.clone());
                self.current = p;
                step
            }
            None => AncestorStep::NoAncestor(crate::text::concat2("no existing ancestor for ", self.start.as_str())),
        }
    }
}

/// Two paths share a filesystem when the device ids of both (read at their
/// nearest existing ancestors) are known and equal.
pub open spec fn same_device_spec(a: Option<u64>, b: Option<u64>) -> bool {
    a matches Some(x) && b matches Some(y) && x == y
}

/// Whether two device ids, where they could be read, name one filesystem.
pub fn same_device(a: Option<u64>, b: Option<u64>) -> (r: bool)
    ensures
        r == same_device_spec(a, b),
{
    match (a, b) {
        (Some(x), Some(y)) => x == y,
        _ => false,
    }
}

} // verus!
