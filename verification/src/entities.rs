//! The records that the repositories keep: servers, backups, mods and
//! modpacks. Identifiers are the 128-bit values of UUIDs.

use vstd::prelude::*;
use crate::software::ServerSoftware;
use crate::text::str_eq;

verus! {

/// A point in time: whole seconds since the Unix epoch, and nanoseconds.
#[derive(Clone, Copy, PartialEq, Eq, Structural, Debug)]
pub struct Timestamp {
    pub secs: i64,
    pub nanos: u32,
}

/// The life-cycle status of a server.
#[derive(Clone, Copy, PartialEq, Eq, Structural, Debug)]
pub enum ServerStatus {
    Offline,
    Starting,
    Running,
    Stopping,
    Crashed,
}

impl ServerStatus {
    /// The stored and displayed name of the status.
    pub open spec fn name_spec(self) -> Seq<char> {
        match self {
            ServerStatus::Offline => "offline"@,
            ServerStatus::Starting => "starting"@,
            ServerStatus::Running => "running"@,
            ServerStatus::Stopping => "stopping"@,
            ServerStatus::Crashed => "crashed"@,
        }
    }

    /// The stored and displayed name of the status.
    pub fn name(&self) -> (r: &'static str)
        ensures
            r@ == self.name_spec(),
    {
        match self {
            ServerStatus::Offline => "offline",
            ServerStatus::Starting => "starting",
            ServerStatus::Running => "running",
            ServerStatus::Stopping => "stopping",
            ServerStatus::Crashed => "crashed",
        }
    }

    /// Between states: starting, running or stopping.
    pub open spec fn is_transitional_spec(self) -> bool {
        self == ServerStatus::Starting || self == ServerStatus::Running || self == ServerStatus::Stopping
    }

    /// Whether the status is one in which a process may be alive.
    pub fn is_transitional(&self) -> (r: bool)
        ensures
            r == self.is_transitional_spec(),
    {
        match self {
            ServerStatus::Starting | ServerStatus::Running | ServerStatus::Stopping => true,
            _ => false,
        }
    }
}

/// The status named by `s` in a stored record, if any.
pub open spec fn status_named(s: Seq<char>) -> Option<ServerStatus> {
    if s == "offline"@ {
        Some(ServerStatus::Offline)
    } else if s == "starting"@ {
        Some(ServerStatus::Starting)
    } else if s == "running"@ {
        Some(ServerStatus::Running)
    } else if s == "stopping"@ {
        Some(ServerStatus::Stopping)
    } else if s == "crashed"@ {
        Some(ServerStatus::Crashed)
    } else {
        None
    }
}

/// Reads a stored status name exactly.
pub fn parse_status(s: &str) -> (r: Option<ServerStatus>)
    ensures
        r == status_named(s@),
{
    if str_eq(s, "offline") {
        Some(ServerStatus::Offline)
    } else if str_eq(s, "starting") {
        Some(ServerStatus::Starting)
    } else if str_eq(s, "running") {
        Some(ServerStatus::Running)
    } else if str_eq(s, "stopping") {
        Some(ServerStatus::Stopping)
    } else if str_eq(s, "crashed") {
        Some(ServerStatus::Crashed)
    } else {
        None
    }
}

/// Reads a status from the local JSON store, where no process can have
/// survived a restart: any state but `crashed` comes back as `offline`.
pub fn parse_status_on_reload(s: &str) -> (r: Option<ServerStatus>)
    ensures
        r == match status_named(s@) {
            Some(ServerStatus::Crashed) => Some(ServerStatus::Crashed),
            Some(_) => Some(ServerStatus::Offline),
            None => None,
        },
{
    match parse_status(s) {
        Some(ServerStatus::Crashed) => Some(ServerStatus::Crashed),
        Some(_) => Some(ServerStatus::Offline),
        None => None,
    }
}

/// A Minecraft server managed by the application.
#[derive(Debug)]
pub struct Server {
    pub id: u128,
    pub name: String,
    pub version: String,
    pub software: ServerSoftware,
    pub port: u16,
    pub java_path: String,
    pub status: ServerStatus,
    pub created_at: Timestamp,
    pub updated_at: Timestamp,
}

/// A backup archive of a server directory.
#[derive(Debug)]
pub struct Backup {
    pub id: u128,
    pub server_id: u128,
    pub path: String,
    pub size_bytes: u64,
    pub created_at: Timestamp,
}

/// A mod installed into a server.
#[derive(Debug)]
pub struct ModEntry {
    pub id: u128,
    pub server_id: u128,
    pub file_name: String,
    pub path: String,
}

/// The archive format of a modpack.
#[derive(Clone, Copy, PartialEq, Eq, Structural, Debug)]
pub enum ModpackFormat {
    Mrpack,
    Zip,
}

impl ModpackFormat {
    /// The name a format is stored and shown under.
    pub open spec fn name_spec(self) -> Seq<char> {
        match self {
            ModpackFormat::Mrpack => "mrpack"@,
            ModpackFormat::Zip => "zip"@,
        }
    }

    /// The name a format is stored and shown under.
    pub fn name(&self) -> (r: &'static str)
        ensures
            r@ == self.name_spec(),
    {
        match self {
            ModpackFormat::Mrpack => "mrpack",
            ModpackFormat::Zip => "zip",
        }
    }
}

/// The format named in a stored modpack record: ".mrpack" or "mrpack",
/// ".zip" or "zip".
pub open spec fn modpack_format_named(s: Seq<char>) -> Option<ModpackFormat> {
    if s == ".mrpack"@ || s == "mrpack"@ {
        Some(ModpackFormat::Mrpack)
    } else if s == ".zip"@ || s == "zip"@ {
        Some(ModpackFormat::Zip)
    } else {
        None
    }
}

/// Reads a stored modpack format.
pub fn parse_modpack_format(s: &str) -> (r: Option<ModpackFormat>)
    ensures
        r == modpack_format_named(s@),
{
    if str_eq(s, ".mrpack") || str_eq(s, "mrpack") {
        Some(ModpackFormat::Mrpack)
    } else if str_eq(s, ".zip") || str_eq(s, "zip") {
        Some(ModpackFormat::Zip)
    } else {
        None
    }
}

/// A modpack imported for a server.
#[derive(Debug)]
pub struct Modpack {
    pub id: u128,
    pub server_id: u128,
    pub name: String,
    pub format: ModpackFormat,
    pub source_path: String,
}

} // verus!
