//! What the user interface sends and receives: the shapes of its requests
//! and answers, how entities are shown, and the checks and messages of the
//! server commands.

use vstd::prelude::*;
use crate::console::ConsoleLine;
use crate::entities::{Backup, ModEntry, Modpack, Server, ServerStatus};
use crate::java::JavaInstallation;
use crate::lifecycle::{RestartPlan, check_deletable, restart_plan};
use crate::modpack::InstallSummary;
use crate::paths::{slash, slash_join};
use crate::software::{ServerSoftware, parse_software, software_named};
use crate::stamps::{rfc3339_of, timestamp_text, uuid_hyphenated, uuid_text};
use crate::text::{chars_of, concat, concat3, decimal_of, decimal_text, string_of, trim, trim_chars};

verus! {

/// A server as shown to the user interface.
#[derive(Debug)]
pub struct ServerDto {
    pub id: String,
    pub name: String,
    pub version: String,
    pub software: String,
    pub port: u16,
    pub status: String,
}

/// How a server is shown: its hyphenated id, name, version, software name,
/// port and status name.
pub fn server_to_dto(s: &Server) -> (r: ServerDto)
    ensures
        r.id@ == uuid_hyphenated(s.id),
        r.name@ == s.name@,
        r.version@ == s.version@,
        r.software@ == s.software.name_spec(),
        r.port == s.port,
        r.status@ == s.status.name_spec(),
{
    ServerDto {
        id: uuid_text(s.id),
        name: s.name.clone(),
        version: s.version.clone(),
        software: String::from_str(s.software.name()),
        port: s.port,
        status: String::from_str(s.status.name()),
    }
}

/// A console line as sent to the user interface.
#[derive(Debug)]
pub struct ConsoleLineEvent {
    pub server_id: String,
    pub is_stdout: bool,
    pub text: String,
}

/// The event for a console line: the hyphenated server id, the stream and
/// the text.
pub open spec fn shows_line(e: ConsoleLineEvent, l: ConsoleLine) -> bool {
    e.server_id@ == uuid_hyphenated(l.server_id) && e.is_stdout == l.is_stdout && e.text@ == l.text@
}

/// The event sent for a console line.
pub fn line_to_event(l: ConsoleLine) -> (r: ConsoleLineEvent)
    ensures
        shows_line(r, l),
{
    ConsoleLineEvent { server_id: uuid_text(l.server_id), is_stdout: l.is_stdout, text: l.text }
}

/// The events for a run of console lines, in the same order.
pub fn lines_to_events(lines: Vec<ConsoleLine>) -> (r: Vec<ConsoleLineEvent>)
    ensures
        r@.len() == lines@.len(),
        forall|i: int| 0 <= i < r@.len() ==> shows_line(#[trigger] r@[i], lines@[i]),
{
    let mut out: Vec<ConsoleLineEvent> = Vec::new();
    let mut i: usize = 0;
    while i < lines.len()
        invariant
            i <= lines@.len(),
            out@.len() == i,
            forall|k: int| 0 <= k < i ==> shows_line(#[trigger] out@[k], lines@[k]),
        decreases lines.len() - i,
    {
        let l = &lines[i];
        out.push(
            ConsoleLineEvent {
                server_id: uuid_text(l.server_id),
                is_stdout: l.is_stdout,
                text: l.text.clone(),
            },
        );
        i = i + 1;
    }
    out
}

/// The name of the event that carries a server's console lines.
pub fn console_event_name(server_id: &str) -> (r: String)
    ensures
        r@ == "console-line:"@ + server_id@,
{
    concat("console-line:", server_id)
}

/// The name of the event that carries a modpack installation's progress.
pub fn progress_event_name(server_id: &str) -> (r: String)
    ensures
        r@ == "modpack-progress:"@ + server_id@,
{
    concat("modpack-progress:", server_id)
}

/// A backup as shown to the user interface.
#[derive(Debug)]
pub struct BackupDto {
    pub id: String,
    pub server_id: String,
    pub path: String,
    pub size_bytes: u64,
    pub created_at: String,
}

/// How a backup is shown: hyphenated ids, path, size and the RFC 3339 time
/// of creation.
pub fn backup_to_dto(b: &Backup) -> (r: BackupDto)
    ensures
        r.id@ == uuid_hyphenated(b.id),
        r.server_id@ == uuid_hyphenated(b.server_id),
        r.path@ == b.path@,
        r.size_bytes == b.size_bytes,
        r.created_at@ == match rfc3339_of(b.created_at.secs, b.created_at.nanos) {
            Some(t) => t,
            None => Seq::<char>::empty(),
        },
{
    BackupDto {
        id: uuid_text(b.id),
        server_id: uuid_text(b.server_id),
        path: b.path.clone(),
        size_bytes: b.size_bytes,
        created_at: timestamp_text(b.created_at),
    }
}

/// A mod as shown to the user interface.
#[derive(Debug)]
pub struct ModDto {
    pub id: String,
    pub server_id: String,
    pub file_name: String,
    pub path: String,
}

/// How a mod is shown: hyphenated ids, file name and path.
pub fn mod_to_dto(m: &ModEntry) -> (r: ModDto)
    ensures
        r.id@ == uuid_hyphenated(m.id),
        r.server_id@ == uuid_hyphenated(m.server_id),
        r.file_name@ == m.file_name@,
        r.path@ == m.path@,
{
    ModDto {
        id: uuid_text(m.id),
        server_id: uuid_text(m.server_id),
        file_name: m.file_name.clone(),
        path: m.path.clone(),
    }
}

/// A modpack as shown to the user interface.
#[derive(Debug)]
pub struct ModpackDto {
    pub id: String,
    pub server_id: String,
    pub name: String,
    pub format: String,
    pub source_path: String,
}

/// How a modpack is shown: hyphenated ids, name, format name and source.
pub fn modpack_to_dto(m: &Modpack) -> (r: ModpackDto)
    ensures
        r.id@ == uuid_hyphenated(m.id),
        r.server_id@ == uuid_hyphenated(m.server_id),
        r.name@ == m.name@,
        r.format@ == m.format.name_spec(),
        r.source_path@ == m.source_path@,
{
    ModpackDto {
        id: uuid_text(m.id),
        server_id: uuid_text(m.server_id),
        name: m.name.clone(),
        format: String::from_str(m.format.name()),
        source_path: m.source_path.clone(),
    }
}

/// The answer to a modpack installation.
#[derive(Debug)]
pub struct InstallSummaryDto {
    pub modpack: ModpackDto,
    pub total_files: usize,
    pub downloaded: usize,
    pub skipped: usize,
    pub loader_info: Option<String>,
}

/// The answer to an installation: the modpack as shown, and the counts and
/// loader information of the summary.
pub fn summary_to_dto(m: &Modpack, s: InstallSummary) -> (r: InstallSummaryDto)
    ensures
        r.modpack.id@ == uuid_hyphenated(m.id),
        r.modpack.server_id@ == uuid_hyphenated(m.server_id),
        r.modpack.name@ == m.name@,
        r.modpack.format@ == m.format.name_spec(),
        r.modpack.source_path@ == m.source_path@,
        r.total_files == s.total_files,
        r.downloaded == s.downloaded,
        r.skipped == s.skipped,
        r.loader_info == s.loader_info,
{
    InstallSummaryDto {
        modpack: modpack_to_dto(m),
        total_files: s.total_files,
        downloaded: s.downloaded,
        skipped: s.skipped,
        loader_info: s.loader_info,
    }
}

/// A Java installation as shown to the user interface.
#[derive(Debug)]
pub struct JavaInstallationDto {
    pub path: String,
    pub major_version: u32,
    pub version_string: String,
}

/// How a Java installation is shown: the same three values.
pub fn java_to_dto(j: JavaInstallation) -> (r: JavaInstallationDto)
    ensures
        r.path == j.path,
        r.major_version == j.major_version,
        r.version_string == j.version_string,
{
    JavaInstallationDto { path: j.path, major_version: j.major_version, version_string: j.version_string }
}

/// A request to create a server.
#[derive(Debug)]
pub struct CreateServerCmd {
    pub name: String,
    pub version: String,
    pub software: String,
    pub port: u16,
    pub java_path: String,
    /// Where to create it; empty (after trimming) for the configured place.
    pub servers_dir: String,
}

/// Longest server name accepted, in bytes of UTF-8.
pub const MAX_SERVER_NAME_BYTES: usize = 64;

/// Lowest port a server may listen on.
pub const MIN_SERVER_PORT: u16 = 1024;

/// The first checks of a creation request, in order: the trimmed name is not
/// empty, the name takes at most 64 bytes, the port is at least 1024.
pub open spec fn create_request_problem(cmd: CreateServerCmd) -> Option<Seq<char>> {
    if trim(cmd.name@).len() == 0 {
        Some("El nombre del servidor no puede estar vacío"@)
    } else if vstd::utf8::encode_utf8(cmd.name@).len() > MAX_SERVER_NAME_BYTES {
        Some("El nombre del servidor no puede superar 64 caracteres"@)
    } else if cmd.port < MIN_SERVER_PORT {
        Some("El puerto debe ser >= 1024"@)
    } else {
        None
    }
}

/// Runs the first checks of a creation request.
pub fn check_create_request(cmd: &CreateServerCmd) -> (r: Result<(), String>)
    ensures
        match create_request_problem(*cmd) {
            None => r is Ok,
            Some(m) => r matches Err(e) && e@ == m,
        },
{
    let cs = chars_of(cmd.name.as_str());
    let t = trim_chars(cs.as_slice());
    if t.len() == 0 {
        return Err(String::from_str("El nombre del servidor no puede estar vacío"));
    }
    let bytes = cmd.name.as_str().as_bytes();
    if bytes.len() > MAX_SERVER_NAME_BYTES {
        return Err(String::from_str("El nombre del servidor no puede superar 64 caracteres"));
    }
    if cmd.port < MIN_SERVER_PORT {
        return Err(String::from_str("El puerto debe ser >= 1024"));
    }
    Ok(())
}

/// The message when the system already uses a port.
pub fn port_taken_message(port: u16) -> (r: String)
    ensures
        r@ == "El puerto "@ + decimal_text(port as nat) + " ya está ocupado por el sistema"@,
{
    let n = decimal_of(port as u64);
    concat3("El puerto ", n.as_str(), " ya está ocupado por el sistema")
}

/// The software a request names, or the message for an unknown name.
pub fn software_for(name: &str) -> (r: Result<ServerSoftware, String>)
    ensures
        match software_named(name@) {
            Some(s) => r == Ok::<ServerSoftware, String>(s),
            None => r matches Err(e) && e@ == "Software desconocido: "@ + name@,
        },
{
    match parse_software(name) {
        Some(s) => Ok(s),
        None => Err(concat("Software desconocido: ", name)),
    }
}

/// Where a new server is created: the requested directory, trimmed, unless
/// it is empty; then the configured one.
pub fn chosen_servers_dir(requested: &str, configured: &str) -> (r: String)
    ensures
        trim(requested@).len() == 0 ==> r@ == configured@,
        trim(requested@).len() != 0 ==> r@ == trim(requested@),
{
    let cs = chars_of(requested);
    let t = trim_chars(cs.as_slice());
    if t.len() == 0 {
        String::from_str(configured)
    } else {
        string_of(t.as_slice())
    }
}

/// The directory a server runs in: `<servers_dir>/<name>`.
pub fn work_dir(servers_dir: &str, name: &str) -> (r: String)
    ensures
        r@ == slash_join(servers_dir@, name@),
{
    slash(servers_dir, name)
}

/// The message for an unknown server id.
pub fn not_found_message(id: &str) -> (r: String)
    ensures
        r@ == "Servidor "@ + id@ + " no encontrado"@,
{
    concat3("Servidor ", id, " no encontrado")
}

/// How a server process is launched.
#[derive(Clone, Copy, PartialEq, Eq, Structural, Debug)]
pub enum LaunchTarget {
    /// Run the start script.
    Script,
    /// Run `java -jar server.jar`.
    Jar,
}

/// What launches a server: its start script when there is one, else its
/// jar; with neither, the message names the directory.
pub fn launch_target(has_script: bool, has_jar: bool, work_dir: &str) -> (r: Result<LaunchTarget, String>)
    ensures
        has_script ==> r == Ok::<LaunchTarget, String>(LaunchTarget::Script),
        !has_script && has_jar ==> r == Ok::<LaunchTarget, String>(LaunchTarget::Jar),
        !has_script && !has_jar ==> (r matches Err(e) && e@ == "No se encontró un runtime arrancable en '"@
            + work_dir@ + "'. Descarga el servidor primero."@),
{
    if has_script {
        Ok(LaunchTarget::Script)
    } else if has_jar {
        Ok(LaunchTarget::Jar)
    } else {
        Err(concat3("No se encontró un runtime arrancable en '", work_dir, "'. Descarga el servidor primero."))
    }
}

/// Heap given to a server launched from its jar, in MiB.
pub const SERVER_HEAP_MB: u32 = 2048;

/// Whether a restart may go ahead, and how; a server that is starting or
/// stopping is refused with the command's message.
pub fn restart_decision(status: ServerStatus) -> (r: Result<RestartPlan, String>)
    ensures
        status == ServerStatus::Running ==> r == Ok::<RestartPlan, String>(RestartPlan::StopThenStart),
        (status == ServerStatus::Offline || status == ServerStatus::Crashed) ==> r == Ok::<
            RestartPlan,
            String,
        >(RestartPlan::Start),
        (status == ServerStatus::Starting || status == ServerStatus::Stopping) ==> (r matches Err(e)
            && e@ == "No se puede reiniciar mientras el servidor está cambiando de estado"@),
{
    match restart_plan(status) {
        Ok(p) => Ok(p),
        Err(_) => Err(String::from_str("No se puede reiniciar mientras el servidor está cambiando de estado")),
    }
}

/// Whether a server may be deleted; one that is not offline or crashed is
/// refused with the command's message.
pub fn delete_decision(status: ServerStatus) -> (r: Result<(), String>)
    ensures
        (status == ServerStatus::Offline || status == ServerStatus::Crashed) ==> r is Ok,
        !(status == ServerStatus::Offline || status == ServerStatus::Crashed) ==> (r matches Err(e) && e@
            == "Detén el servidor antes de eliminarlo"@),
{
    match check_deletable(status) {
        Ok(()) => Ok(()),
        Err(_) => Err(String::from_str("Detén el servidor antes de eliminarlo")),
    }
}

} // verus!
