//! Global settings: where servers, backups and downloads live, the default
//! Java binary and the automatic backup interval; their built-in values,
//! the values derived from the application's data directory, and the checks
//! a settings change goes through.

use vstd::prelude::*;
use crate::paths::{is_absolute, is_absolute_spec, join, path_join};
use crate::text::{concat, str_eq, trim, trim_text};

verus! {

/// Interval of the automatic backup when nothing else is configured: five
/// hours, in seconds.
pub const DEFAULT_BACKUP_INTERVAL_SECS: u64 = 18000;

/// The settings of the application.
#[derive(Debug)]
pub struct Settings {
    pub servers_dir: String,
    pub backups_dir: String,
    pub downloads_dir: String,
    pub default_java_path: String,
    /// Seconds between automatic backups; 0 turns them off.
    pub backup_interval_secs: u64,
}

/// Built-in directory of servers.
pub open spec fn builtin_servers_dir() -> Seq<char> {
    "/home/cubed/servers"@
}

/// Built-in directory of backups.
pub open spec fn builtin_backups_dir() -> Seq<char> {
    "/home/cubed/backups"@
}

/// Built-in directory of downloads.
pub open spec fn builtin_downloads_dir() -> Seq<char> {
    "/home/cubed/downloads"@
}

/// Built-in Java binary.
pub open spec fn builtin_java_path() -> Seq<char> {
    "/usr/bin/java"@
}

impl Default for Settings {
    /// The built-in settings: everything under `/home/cubed`, the system
    /// Java binary, a backup every five hours.
    fn default() -> (s: Settings)
        ensures
            s.servers_dir@ == builtin_servers_dir(),
            s.backups_dir@ == builtin_backups_dir(),
            s.downloads_dir@ == builtin_downloads_dir(),
            s.default_java_path@ == builtin_java_path(),
            s.backup_interval_secs == DEFAULT_BACKUP_INTERVAL_SECS,
    {
        Settings {
            servers_dir: String::from_str("/home/cubed/servers"),
            backups_dir: String::from_str("/home/cubed/backups"),
            downloads_dir: String::from_str("/home/cubed/downloads"),
            default_java_path: String::from_str("/usr/bin/java"),
            backup_interval_secs: DEFAULT_BACKUP_INTERVAL_SECS,
        }
    }
}

/// The settings still point at the built-in storage directories (the Java
/// path and the interval are not looked at).
pub open spec fn uses_builtin_storage_spec(s: Settings) -> bool {
    s.servers_dir@ == builtin_servers_dir() && s.backups_dir@ == builtin_backups_dir()
        && s.downloads_dir@ == builtin_downloads_dir()
}

/// Whether the settings still use the built-in storage directories.
pub fn uses_builtin_storage_defaults(settings: &Settings) -> (r: bool)
    ensures
        r == uses_builtin_storage_spec(*settings),
{
    let defaults = Settings::default();
    str_eq(settings.servers_dir.as_str(), defaults.servers_dir.as_str())
        && str_eq(settings.backups_dir.as_str(), defaults.backups_dir.as_str())
        && str_eq(settings.downloads_dir.as_str(), defaults.downloads_dir.as_str())
}

/// The settings for an application data directory: its `servers`,
/// `backups` and `downloads` subdirectories, and the built-in Java path and
/// interval.
pub fn default_settings_for_data_dir(data_dir: &str) -> (s: Settings)
    ensures
        s.servers_dir@ == path_join(data_dir@, "servers"@),
        s.backups_dir@ == path_join(data_dir@, "backups"@),
        s.downloads_dir@ == path_join(data_dir@, "downloads"@),
        s.default_java_path@ == builtin_java_path(),
        s.backup_interval_secs == DEFAULT_BACKUP_INTERVAL_SECS,
{
    let base = Settings::default();
    Settings {
        servers_dir: join(data_dir, "servers"),
        backups_dir: join(data_dir, "backups"),
        downloads_dir: join(data_dir, "downloads"),
        default_java_path: base.default_java_path,
        backup_interval_secs: base.backup_interval_secs,
    }
}

/// The message for a path that must be absolute and is not.
pub open spec fn not_absolute_message(label: Seq<char>) -> Seq<char> {
    label + " debe ser una ruta absoluta"@
}

/// Accepts an absolute path; otherwise the error names the setting.
pub fn ensure_absolute_path(label: &str, path: &str) -> (r: Result<(), String>)
    ensures
        is_absolute_spec(path@) ==> r is Ok,
        !is_absolute_spec(path@) ==> (r matches Err(m) && m@ == not_absolute_message(label@)),
{
    if !is_absolute(path) {
        return Err(concat(label, " debe ser una ruta absoluta"));
    }
    Ok(())
}

/// Settings as shown to the user interface.
#[derive(Debug)]
pub struct SettingsDto {
    pub servers_dir: String,
    pub backups_dir: String,
    pub downloads_dir: String,
    pub default_java_path: String,
    /// Seconds between automatic backups; 0 turns them off.
    pub backup_interval_secs: u64,
}

/// The settings as shown to the user interface: the same five values.
pub fn settings_to_dto(s: &Settings) -> (r: SettingsDto)
    ensures
        r.servers_dir@ == s.servers_dir@,
        r.backups_dir@ == s.backups_dir@,
        r.downloads_dir@ == s.downloads_dir@,
        r.default_java_path@ == s.default_java_path@,
        r.backup_interval_secs == s.backup_interval_secs,
{
    SettingsDto {
        servers_dir: s.servers_dir.clone(),
        backups_dir: s.backups_dir.clone(),
        downloads_dir: s.downloads_dir.clone(),
        default_java_path: s.default_java_path.clone(),
        backup_interval_secs: s.backup_interval_secs,
    }
}

/// A settings change requested by the user interface.
#[derive(Debug)]
pub struct SaveSettingsCmd {
    pub servers_dir: String,
    pub backups_dir: String,
    pub downloads_dir: String,
    pub default_java_path: String,
    pub backup_interval_secs: u64,
}

/// What a settings change is first answered: each of the four paths,
/// trimmed, must be non-empty (checked in the order servers, backups,
/// downloads, Java); otherwise the trimmed settings go on to the path
/// checks of `path_checks`.
pub open spec fn settings_change(cmd: SaveSettingsCmd) -> Result<(Seq<char>, Seq<char>, Seq<char>, Seq<char>), Seq<char>> {
    let sd = trim(cmd.servers_dir@);
    let bd = trim(cmd.backups_dir@);
    let dd = trim(cmd.downloads_dir@);
    let jp = trim(cmd.default_java_path@);
    if sd.len() == 0 {
        Err("El directorio de servidores no puede estar vacío"@)
    } else if bd.len() == 0 {
        Err("El directorio de backups no puede estar vacío"@)
    } else if dd.len() == 0 {
        Err("El directorio de descargas no puede estar vacío"@)
    } else if jp.len() == 0 {
        Err("La ruta de Java por defecto no puede estar vacía"@)
    } else {
        Ok((sd, bd, dd, jp))
    }
}

/// Every settings change that passes the first checks carries non-empty
/// paths with no surrounding white space.
pub proof fn law_accepted_settings_are_trimmed(cmd: SaveSettingsCmd)
    ensures
        settings_change(cmd) matches Ok((sd, bd, dd, jp)) ==> {
            &&& sd.len() > 0 && bd.len() > 0 && dd.len() > 0 && jp.len() > 0
            &&& sd == trim(cmd.servers_dir@) && bd == trim(cmd.backups_dir@)
            &&& dd == trim(cmd.downloads_dir@) && jp == trim(cmd.default_java_path@)
        },
{
}

/// Checks a settings change and gives the trimmed settings, or the
/// message of the first empty path.
pub fn validate_settings_change(cmd: &SaveSettingsCmd) -> (r: Result<Settings, String>)
    ensures
        match settings_change(*cmd) {
            Ok((sd, bd, dd, jp)) => r matches Ok(s) && s.servers_dir@ == sd && s.backups_dir@ == bd
                && s.downloads_dir@ == dd && s.default_java_path@ == jp && s.backup_interval_secs
                == cmd.backup_interval_secs,
            Err(m) => r matches Err(e) && e@ == m,
        },
{
    let sd = trim_text(cmd.servers_dir.as_str());
    let bd = trim_text(cmd.backups_dir.as_str());
    let dd = trim_text(cmd.downloads_dir.as_str());
    let jp = trim_text(cmd.default_java_path.as_str());
    if sd.as_str().is_empty() {
        return Err(String::from_str("El directorio de servidores no puede estar vacío"));
    }
    if bd.as_str().is_empty() {
        return Err(String::from_str("El directorio de backups no puede estar vacío"));
    }
    if dd.as_str().is_empty() {
        return Err(String::from_str("El directorio de descargas no puede estar vacío"));
    }
    if jp.as_str().is_empty() {
        return Err(String::from_str("La ruta de Java por defecto no puede estar vacía"));
    }
    Ok(
        Settings {
            servers_dir: sd,
            backups_dir: bd,
            downloads_dir: dd,
            default_java_path: jp,
            backup_interval_secs: cmd.backup_interval_secs,
        },
    )
}

/// One path of a settings change to check before it is stored.
#[derive(Debug)]
pub struct PathCheck {
    /// The name the path is reported under.
    pub label: &'static str,
    pub path: String,
    /// Whether the path is a storage directory to create (and check as
    /// writable) before the next path is looked at.
    pub create_dir: bool,
}

/// The path checks of settings about to be stored, in the order they are
/// made: each path must be absolute (`ensure_absolute_path`) and, for the
/// three storage directories, is created before the next check; first
/// servers, then backups, then downloads, and last the Java binary.
pub fn path_checks(s: &Settings) -> (r: Vec<PathCheck>)
    ensures
        r@.len() == 4,
        r@[0].label@ == "servidores"@ && r@[0].path@ == s.servers_dir@ && r@[0].create_dir,
        r@[1].label@ == "backups"@ && r@[1].path@ == s.backups_dir@ && r@[1].create_dir,
        r@[2].label@ == "descargas"@ && r@[2].path@ == s.downloads_dir@ && r@[2].create_dir,
        r@[3].label@ == "Java por defecto"@ && r@[3].path@ == s.default_java_path@ && !r@[3].create_dir,
{
    let mut r: Vec<PathCheck> = Vec::new();
    r.push(PathCheck { label: "servidores", path: s.servers_dir.clone(), create_dir: true });
    r.push(PathCheck { label: "backups", path: s.backups_dir.clone(), create_dir: true });
    r.push(PathCheck { label: "descargas", path: s.downloads_dir.clone(), create_dir: true });
    r.push(PathCheck { label: "Java por defecto", path: s.default_java_path.clone(), create_dir: false });
    r
}

/// Where the settings file is kept.
#[derive(Debug)]
pub struct JsonSettingsStore {
    pub path: String,
}

impl JsonSettingsStore {
    /// A store for the settings file at `path`.
    pub fn new(path: String) -> (r: JsonSettingsStore)
        ensures
            r.path@ == path@,
    {
        JsonSettingsStore { path }
    }
}

} // verus!
