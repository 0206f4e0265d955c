//! Application configuration: the settings, their defaults, the time of the
//! daily run, and where the files of the tool live.

use vstd::prelude::*;
use crate::paths::path_join;
use crate::scan::parse_unsigned_upto;
use crate::split::splitn;
use crate::text::{decimal, push_str};

verus! {

/// Application configuration stored under `$XDG_CONFIG_HOME/backup-tool/config.toml`.
#[derive(Debug)]
pub struct Config {
    /// Absolute path of the directory to back up.
    pub source_dir: String,
    /// Absolute path on the backup drive where snapshots are written.
    pub dest_dir: String,
    /// Filesystem UUID of the backup partition (used for auto-mount).
    pub drive_uuid: Option<String>,
    /// Human-readable label of the backup partition (informational only).
    pub drive_label: Option<String>,
    /// Day of week that triggers a full backup (e.g. "Monday").
    pub full_backup_day: String,
    /// Local time for the daily backup in `HH:MM` format.
    pub backup_time: String,
    /// rsync exclude patterns, one per entry.
    pub excludes: Vec<String>,
    /// Safety net: delete orphaned incrementals older than this many days when
    /// a scheduled full backup has not run yet.
    pub retention_days: u32,
    /// How many days must pass between incremental backups (1 = every day).
    pub incremental_every_n_days: u32,
    /// How many full snapshots to keep on the backup drive (0 = unlimited).
    pub keep_full_snapshots: u32,
    /// Set when a scheduled full was deferred for lack of space.
    pub pending_full_backup: bool,
    /// True after a successful first install so the wizard is not shown again.
    pub installed: bool,
}

/// The settings of a [`Config`] as mathematical values.
pub ghost struct ConfigView {
    pub source_dir: Seq<char>,
    pub dest_dir: Seq<char>,
    pub drive_uuid: Option<Seq<char>>,
    pub drive_label: Option<Seq<char>>,
    pub full_backup_day: Seq<char>,
    pub backup_time: Seq<char>,
    pub excludes: Seq<Seq<char>>,
    pub retention_days: u32,
    pub incremental_every_n_days: u32,
    pub keep_full_snapshots: u32,
    pub pending_full_backup: bool,
    pub installed: bool,
}

impl View for Config {
    type V = ConfigView;

    open spec fn view(&self) -> ConfigView {
        ConfigView {
            source_dir: self.source_dir@,
            dest_dir: self.dest_dir@,
            drive_uuid: opt_view(self.drive_uuid),
            drive_label: opt_view(self.drive_label),
            full_backup_day: self.full_backup_day@,
            backup_time: self.backup_time@,
            excludes: string_views(self.excludes@),
            retention_days: self.retention_days,
            incremental_every_n_days: self.incremental_every_n_days,
            keep_full_snapshots: self.keep_full_snapshots,
            pending_full_backup: self.pending_full_backup,
            installed: self.installed,
        }
    }
}

/// Views of a sequence of strings.
pub open spec fn string_views(v: Seq<String>) -> Seq<Seq<char>> {
    v.map_values(|s: String| s@)
}

/// The built-in rsync exclude patterns.
pub open spec fn default_excludes() -> Seq<Seq<char>> {
    seq![
        ".cache/"@, ".thumbnails/"@, ".var/app/*/cache/"@, ".mozilla/firefox/*/cache2/"@,
        ".config/google-chrome/*/Cache/"@, ".config/chromium/*/Cache/"@, ".local/share/Trash/"@,
        ".Trash-*/"@, "*.iso"@, ".extras/"@, "lost+found/"@, ".gvfs/"@, ".cargo/"@, "*~"@,
    ]
}

/// The configuration a first run starts from, for a user whose home
/// directory is `home` (`/home/user` when unknown).
pub open spec fn is_default_config(c: Config, home: Option<Seq<char>>) -> bool {
    &&& c.source_dir@ == (match home { Some(h) => h, None => "/home/user"@ })
    &&& c.dest_dir@ == Seq::<char>::empty()
    &&& c.drive_uuid is None
    &&& c.drive_label is None
    &&& c.full_backup_day@ == "Monday"@
    &&& c.backup_time@ == "02:00"@
    &&& string_views(c.excludes@) == default_excludes()
    &&& c.retention_days == 30
    &&& c.incremental_every_n_days == 1
    &&& c.keep_full_snapshots == 12
    &&& !c.pending_full_backup
    &&& !c.installed
}

/// The built-in exclude patterns.
pub fn default_exclude_list() -> (v: Vec<String>)
    ensures
        string_views(v@) == default_excludes(),
{
    let mut v: Vec<String> = Vec::new();
    v.push(String::from_str(".cache/"));
    v.push(String::from_str(".thumbnails/"));
    v.push(String::from_str(".var/app/*/cache/"));
    v.push(String::from_str(".mozilla/firefox/*/cache2/"));
    v.push(String::from_str(".config/google-chrome/*/Cache/"));
    v.push(String::from_str(".config/chromium/*/Cache/"));
    v.push(String::from_str(".local/share/Trash/"));
    v.push(String::from_str(".Trash-*/"));
    v.push(String::from_str("*.iso"));
    v.push(String::from_str(".extras/"));
    v.push(String::from_str("lost+found/"));
    v.push(String::from_str(".gvfs/"));
    v.push(String::from_str(".cargo/"));
    v.push(String::from_str("*~"));
    assert(string_views(v@) =~= default_excludes());
    v
}

/// `dirs::home_dir`, as a string.  Nothing is claimed about the result: it
/// comes from the environment and the user database of this machine.
#[verifier::external_body]
fn home_dir() -> Option<String> {
    dirs::home_dir().map(|p| p.to_string_lossy().into_owned())
}

/// `dirs::config_dir`, as a string.  Nothing is claimed about the result:
/// it comes from the environment (`XDG_CONFIG_HOME`, the home directory).
#[verifier::external_body]
pub(crate) fn config_dir() -> Option<String> {
    dirs::config_dir().map(|p| p.to_string_lossy().into_owned())
}

/// `dirs::data_local_dir`, as a string.  Nothing is claimed about the
/// result: it comes from the environment (`XDG_DATA_HOME`, the home
/// directory).
#[verifier::external_body]
pub(crate) fn data_local_dir() -> Option<String> {
    dirs::data_local_dir().map(|p| p.to_string_lossy().into_owned())
}

/// `base`, or `fallback` when the platform does not know it.
pub open spec fn dir_or(base: Option<Seq<char>>, fallback: Seq<char>) -> Seq<char> {
    match base {
        Some(b) => b,
        None => fallback,
    }
}

/// Views of an optional string.
pub open spec fn opt_view(o: Option<String>) -> Option<Seq<char>> {
    match o {
        Some(s) => Some(s@),
        None => None,
    }
}

/// `base` (or `fallback`) joined with `child`.
pub fn join_or(base: &Option<String>, fallback: &str, child: &str) -> (r: String)
    ensures
        r@ == path_join(dir_or(opt_view(*base), fallback@), child@),
{
    match base {
        Some(b) => crate::paths::join_path(b.as_str(), child),
        None => crate::paths::join_path(fallback, child),
    }
}

/// The config file under the given configuration directory.
pub open spec fn config_path_in(config_dir: Option<Seq<char>>) -> Seq<char> {
    path_join(path_join(dir_or(config_dir, ".config"@), "backup-tool"@), "config.toml"@)
}

/// The config file from before the tool was renamed, under the given
/// configuration directory.
pub open spec fn legacy_config_path_in(config_dir: Option<Seq<char>>) -> Seq<char> {
    path_join(path_join(dir_or(config_dir, ".config"@), "home-backup"@), "config.toml"@)
}

/// Which file the configuration is read from.
#[derive(Debug, Clone, Copy, PartialEq, Eq, Structural)]
pub enum ConfigSource {
    /// `backup-tool/config.toml`.
    Current,
    /// `home-backup/config.toml`, from before the rename.
    Legacy,
}

/// The file to read: the current one when it exists, else the legacy one
/// when that exists, else none (no configuration yet).
pub open spec fn config_source_spec(config_exists: bool, legacy_exists: bool) -> Option<ConfigSource> {
    if config_exists {
        Some(ConfigSource::Current)
    } else if legacy_exists {
        Some(ConfigSource::Legacy)
    } else {
        None
    }
}

/// Which configuration file to load, given which of the two exist.
pub fn config_source(config_exists: bool, legacy_exists: bool) -> (r: Option<ConfigSource>)
    ensures
        r == config_source_spec(config_exists, legacy_exists),
{
    if config_exists {
        Some(ConfigSource::Current)
    } else if legacy_exists {
        Some(ConfigSource::Legacy)
    } else {
        None
    }
}

/// The data directory under the given local data directory.
pub open spec fn data_dir_in(data_local_dir: Option<Seq<char>>) -> Seq<char> {
    path_join(dir_or(data_local_dir, ".local/share"@), "backup-tool"@)
}

/// The data directory: the override when one is given, else the one under
/// the local data directory.
pub open spec fn data_dir_of(data_dir_override: Option<Seq<char>>, data_local_dir: Option<Seq<char>>) -> Seq<char> {
    match data_dir_override {
        Some(o) => o,
        None => data_dir_in(data_local_dir),
    }
}

/// The hour and minute that `backup_time` ("HH:MM") names when both halves
/// read as numbers of at most 255; any other text gives (2, 0).
pub open spec fn backup_hm_of(t: Seq<char>) -> (u8, u8) {
    let parts = splitn(t, 2, ':');
    if parts.len() > 1 {
        match (parse_unsigned_upto(parts[0], 255), parse_unsigned_upto(parts[1], 255)) {
            (Some(h), Some(m)) => (h as u8, m as u8),
            _ => (2u8, 0u8),
        }
    } else {
        (2u8, 0u8)
    }
}

/// `keep_full_snapshots` for display: "unlimited" for 0.
pub open spec fn keep_full_label(n: u32) -> Seq<char> {
    if n == 0 { "unlimited"@ } else { decimal(n as nat) }
}

/// A deferred full stays pending if either the caller or the file on disk
/// says so.
pub open spec fn preserved_pending(in_memory: bool, on_disk: bool) -> bool {
    in_memory || on_disk
}

/// The flag that a save writes: the in-memory one when it is written
/// explicitly or nothing could be read from disk, else the two combined.
pub open spec fn saved_pending(in_memory: bool, on_disk: Option<bool>, explicit: bool) -> bool {
    match on_disk {
        Some(d) if !explicit => preserved_pending(in_memory, d),
        _ => in_memory,
    }
}

/// No configuration file exists yet.
#[derive(Debug, Clone, Copy, PartialEq, Eq, Structural)]
pub struct ConfigMissing;

impl Config {
    /// The defaults for a user whose home directory is `home`.
    pub fn default_for_home(home: Option<String>) -> (c: Config)
        ensures
            is_default_config(c, opt_view(home)),
    {
        let source_dir = match home {
            Some(h) => h,
            None => String::from_str("/home/user"),
        };
        Config {
            source_dir,
            dest_dir: String::new(),
            drive_uuid: None,
            drive_label: None,
            full_backup_day: String::from_str("Monday"),
            backup_time: String::from_str("02:00"),
            excludes: default_exclude_list(),
            retention_days: 30,
            incremental_every_n_days: 1,
            keep_full_snapshots: 12,
            pending_full_backup: false,
            installed: false,
        }
    }

    /// An identical copy.
    pub fn duplicate(&self) -> (c: Config)
        ensures
            c@ == self@,
    {
        let c = Config {
            source_dir: self.source_dir.clone(),
            dest_dir: self.dest_dir.clone(),
            drive_uuid: crate::text::clone_opt_string(&self.drive_uuid),
            drive_label: crate::text::clone_opt_string(&self.drive_label),
            full_backup_day: self.full_backup_day.clone(),
            backup_time: self.backup_time.clone(),
            excludes: crate::text::clone_strings(&self.excludes),
            retention_days: self.retention_days,
            incremental_every_n_days: self.incremental_every_n_days,
            keep_full_snapshots: self.keep_full_snapshots,
            pending_full_backup: self.pending_full_backup,
            installed: self.installed,
        };
        assert(string_views(c.excludes@) =~= string_views(self.excludes@));
        c
    }

    /// Path of the config file under the given configuration directory
    /// (`.config` when there is none).
    pub fn config_path_for(config_dir: &Option<String>) -> (p: String)
        ensures
            p@ == config_path_in(opt_view(*config_dir)),
    {
        let base = join_or(config_dir, ".config", "backup-tool");
        crate::paths::join_path(base.as_str(), "config.toml")
    }

    /// Path of the config file.
    pub fn config_path() -> (p: String)
        ensures
            exists|d: Option<Seq<char>>| p@ == config_path_in(d),
    {
        let d = config_dir();
        let p = Config::config_path_for(&d);
        assert(p@ == config_path_in(opt_view(d)));
        p
    }

    /// Path of the config file from before the tool was renamed, under the
    /// given configuration directory.
    pub fn legacy_config_path_for(config_dir: &Option<String>) -> (p: String)
        ensures
            p@ == legacy_config_path_in(opt_view(*config_dir)),
    {
        let base = join_or(config_dir, ".config", "home-backup");
        crate::paths::join_path(base.as_str(), "config.toml")
    }

    /// Path of the config file from before the tool was renamed.
    pub fn legacy_config_path() -> (p: String)
        ensures
            exists|d: Option<Seq<char>>| p@ == legacy_config_path_in(d),
    {
        let d = config_dir();
        let p = Config::legacy_config_path_for(&d);
        assert(p@ == legacy_config_path_in(opt_view(d)));
        p
    }

    /// The data directory: the override when there is one, else
    /// `backup-tool` under the given local data directory.
    pub fn data_dir_for(data_dir_override: &Option<String>, data_local_dir: &Option<String>) -> (p: String)
        ensures
            p@ == data_dir_of(opt_view(*data_dir_override), opt_view(*data_local_dir)),
    {
        match data_dir_override {
            Some(o) => o.clone(),
            None => join_or(data_local_dir, ".local/share", "backup-tool"),
        }
    }

    /// The data directory (logs, exclude lists, state files): the override
    /// (the `BACKUP_TOOL_DATA_DIR` setting) when there is one, else
    /// `backup-tool` under the local data directory.
    pub fn data_dir(data_dir_override: &Option<String>) -> (p: String)
        ensures
            exists|d: Option<Seq<char>>| p@ == data_dir_of(opt_view(*data_dir_override), d),
            data_dir_override matches Some(o) ==> p@ == o@,
    {
        match data_dir_override {
            Some(o) => {
                let p = o.clone();
                assert(p@ == data_dir_of(opt_view(*data_dir_override), None));
                p
            }
            None => {
                let d = data_local_dir();
                let p = Config::data_dir_for(data_dir_override, &d);
                assert(p@ == data_dir_of(opt_view(*data_dir_override), opt_view(d)));
                p
            }
        }
    }

    /// The operational log, in the data directory.
    pub fn log_path(data_dir_override: &Option<String>) -> (p: String)
        ensures
            exists|d: Option<Seq<char>>| p@ == path_join(data_dir_of(opt_view(*data_dir_override), d), "backup.log"@),
    {
        let d = Config::data_dir(data_dir_override);
        let p = crate::paths::join_path(d.as_str(), "backup.log");
        let ghost w = choose|w: Option<Seq<char>>| d@ == data_dir_of(opt_view(*data_dir_override), w);
        assert(p@ == path_join(data_dir_of(opt_view(*data_dir_override), w), "backup.log"@));
        p
    }

    /// Hour and minute of the daily backup, read from `backup_time`; (2, 0)
    /// unless both halves of "HH:MM" read.
    pub fn backup_hm(&self) -> (r: (u8, u8))
        ensures
            r == backup_hm_of(self.backup_time@),
    {
        let v = crate::text::chars_of(self.backup_time.as_str());
        let parts = crate::split::splitn_exec(v.as_slice(), 2, ':');
        proof { crate::split::lemma_splitn_len(v@, 2, ':'); }
        if parts.len() > 1 {
            assert(crate::split::views(parts@)[0] == parts@[0]@);
            assert(crate::split::views(parts@)[1] == parts@[1]@);
            let h = crate::scan::parse_u8(parts[0].as_slice());
            let m = crate::scan::parse_u8(parts[1].as_slice());
            match (h, m) {
                (Some(h), Some(m)) => (h, m),
                _ => (2u8, 0u8),
            }
        } else {
            (2u8, 0u8)
        }
    }

    /// `keep_full_snapshots` for display (0 → "unlimited").
    pub fn keep_full_snapshots_label(&self) -> (s: String)
        ensures
            s@ == keep_full_label(self.keep_full_snapshots),
    {
        if self.keep_full_snapshots == 0 {
            String::from_str("unlimited")
        } else {
            crate::text::decimal_string(self.keep_full_snapshots as u64)
        }
    }

    /// The copy to write to disk: the pending-full flag survives when the
    /// file on disk (if it could be read) has it set.
    pub fn to_save(&self, on_disk_pending: Option<bool>) -> (c: Config)
        ensures
            c@ == (ConfigView {
                pending_full_backup: saved_pending(self.pending_full_backup, on_disk_pending, false),
                ..self@
            }),
    {
        self.to_save_with(on_disk_pending, false)
    }

    /// The copy to write to disk. When the flag itself is what is being
    /// written (`explicit`), it goes to disk as it is, cleared or set;
    /// otherwise a set flag on disk survives.
    pub fn to_save_with(&self, on_disk_pending: Option<bool>, explicit: bool) -> (c: Config)
        ensures
            c@ == (ConfigView {
                pending_full_backup: saved_pending(self.pending_full_backup, on_disk_pending, explicit),
                ..self@
            }),
    {
        let mut c = self.duplicate();
        if !explicit {
            if let Some(d) = on_disk_pending {
                c.pending_full_backup = preserve_pending_full_backup(self.pending_full_backup, d);
            }
        }
        c
    }

    /// The update that persists `pending`: `Ok(None)` when the loaded
    /// configuration already has that value, `Ok(Some(c))` with the
    /// configuration to save otherwise, `Err` when there is none on disk.
    pub fn set_pending_full_backup(loaded: Option<Config>, pending: bool) -> (r: Result<Option<Config>, ConfigMissing>)
        ensures
            match loaded {
                None => r == Err::<Option<Config>, ConfigMissing>(ConfigMissing),
                Some(c) => if c.pending_full_backup == pending {
                    r == Ok::<Option<Config>, ConfigMissing>(None)
                } else {
                    r matches Ok(Some(n)) && n@ == (ConfigView { pending_full_backup: pending, ..c@ })
                },
            },
    {
        match loaded {
            None => Err(ConfigMissing),
            Some(mut c) => {
                if c.pending_full_backup == pending {
                    Ok(None)
                } else {
                    c.pending_full_backup = pending;
                    Ok(Some(c))
                }
            }
        }
    }
}

impl Default for Config {
    fn default() -> (c: Config)
        ensures
            exists|h: Option<Seq<char>>| is_default_config(c, h),
    {
        let h = home_dir();
        let c = Config::default_for_home(h);
        assert(is_default_config(c, opt_view(h)));
        c
    }
}

/// Default of `incremental_every_n_days` for configurations that omit it.
pub fn default_one() -> (r: u32)
    ensures
        r == 1,
{
    1
}

/// Default of `keep_full_snapshots` for configurations that omit it.
pub fn default_zero() -> (r: u32)
    ensures
        r == 0,
{
    0
}

/// A deferred full stays pending if either side says so.
pub fn preserve_pending_full_backup(in_memory: bool, on_disk: bool) -> (r: bool)
    ensures
        r == preserved_pending(in_memory, on_disk),
{
    in_memory || on_disk
}

} // verus!
