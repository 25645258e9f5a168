//! Where things live on disk: the global directories under the Cubed root,
//! the directory of each server with its subdirectories, and the files the
//! launcher looks for in it.

use vstd::prelude::*;
use crate::paths::{slash, slash_join};
use crate::software::ServerSoftware;
use crate::text::{chars_of, concat, concat3, contains_chars, decimal_of, decimal_text, ends_with_chars, has_infix, has_prefix, has_suffix, starts_with_chars};

verus! {

/// The global directories created under the Cubed root, in order.
pub open spec fn global_dirs() -> Seq<Seq<char>> {
    seq!["servers"@, "backups"@, "downloads"@, "temp"@, "config"@, "logs"@]
}

/// The subdirectories created in each server directory, in order.
pub open spec fn server_subdirs() -> Seq<Seq<char>> {
    seq!["mods"@, "world"@, "config"@, "logs"@]
}

/// The local file system under a Cubed root directory.
#[derive(Debug)]
pub struct LocalFileSystem {
    /// The Cubed root, such as `/home/cubed`.
    pub cubed_root: String,
}

impl LocalFileSystem {
    /// A file system rooted at `cubed_root`.
    pub fn new(cubed_root: String) -> (r: LocalFileSystem)
        ensures
            r.cubed_root@ == cubed_root@,
    {
        LocalFileSystem { cubed_root }
    }

    /// The global directories to create: `<root>/<dir>` for each of
    /// `global_dirs()`, in order.
    pub fn cubed_dir_paths(&self) -> (r: Vec<String>)
        ensures
            r@.len() == global_dirs().len(),
            forall|i: int| 0 <= i < r@.len() ==> #[trigger] r@[i]@ == slash_join(self.cubed_root@, global_dirs()[i]),
    {
        let root = self.cubed_root.as_str();
        let mut r: Vec<String> = Vec::new();
        r.push(slash(root, "servers"));
        r.push(slash(root, "backups"));
        r.push(slash(root, "downloads"));
        r.push(slash(root, "temp"));
        r.push(slash(root, "config"));
        r.push(slash(root, "logs"));
        r
    }

    /// The directory of a server: `<servers_dir>/<server_name>`.
    pub fn server_dir(&self, servers_dir: &str, server_name: &str) -> (r: String)
        ensures
            r@ == slash_join(servers_dir@, server_name@),
    {
        slash(servers_dir, server_name)
    }

    /// The directories to create for a new server: its directory, then each
    /// of `server_subdirs()` inside it.
    pub fn server_dir_paths(&self, servers_dir: &str, server_name: &str) -> (r: Vec<String>)
        ensures
            r@.len() == server_subdirs().len() + 1,
            r@[0]@ == slash_join(servers_dir@, server_name@),
            forall|i: int|
                1 <= i <= server_subdirs().len() ==> #[trigger] r@[i]@ == slash_join(
                    slash_join(servers_dir@, server_name@),
                    server_subdirs()[i - 1],
                ),
    {
        let base = slash(servers_dir, server_name);
        let mut r: Vec<String> = Vec::new();
        let b = base.as_str();
        r.push(slash(b, "mods"));
        r.push(slash(b, "world"));
        r.push(slash(b, "config"));
        r.push(slash(b, "logs"));
        let mut out: Vec<String> = Vec::new();
        out.push(base);
        out.append(&mut r);
        out
    }
}

/// The server jar a launch uses: `<work_dir>/server.jar`.
pub fn server_jar_path(work_dir: &str) -> (r: String)
    ensures
        r@ == slash_join(work_dir@, "server.jar"@),
{
    slash(work_dir, "server.jar")
}

/// The start script written for loaders that come with `run.sh`:
/// `<work_dir>/cubed-start.sh`.
pub fn start_script_path(work_dir: &str) -> (r: String)
    ensures
        r@ == slash_join(work_dir@, "cubed-start.sh"@),
{
    slash(work_dir, "cubed-start.sh")
}

/// The EULA file: `<work_dir>/eula.txt`.
pub fn eula_path(work_dir: &str) -> (r: String)
    ensures
        r@ == slash_join(work_dir@, "eula.txt"@),
{
    slash(work_dir, "eula.txt")
}

/// What is written to a missing EULA file: its acceptance.
pub fn eula_accepted_text() -> (r: &'static str)
    ensures
        r@ == "eula=true\n"@,
{
    "eula=true\n"
}

/// The file an installer-based loader's installer is stored under:
/// `<software in lower case>-installer.jar`.
pub fn installer_file_name(software: ServerSoftware) -> (r: String)
    ensures
        r@ == software.lower_name_spec() + "-installer.jar"@,
{
    concat(software.lower_name(), "-installer.jar")
}

/// `sh` single-quoting of a value: each `'` becomes `'\''`.
pub open spec fn single_quoted(value: Seq<char>) -> Seq<char>
    decreases value.len(),
{
    if value.len() == 0 {
        Seq::empty()
    } else {
        let rest = single_quoted(value.drop_last());
        if value.last() == '\'' {
            rest + "'\\''"@
        } else {
            rest.push(value.last())
        }
    }
}

/// Escapes a value for use between single quotes in a shell script.
pub fn shell_single_quote(value: &str) -> (r: String)
    ensures
        r@ == single_quoted(value@),
{
    let cs = crate::text::chars_of(value);
    let mut out: Vec<char> = Vec::new();
    let mut i: usize = 0;
    while i < cs.len()
        invariant
            i <= cs@.len(),
            cs@ == value@,
            out@ == single_quoted(cs@.take(i as int)),
        decreases cs@.len() - i,
    {
        let c = cs[i];
        proof {
            assert(cs@.take(i as int + 1).drop_last() == cs@.take(i as int));
        }
        if c == '\'' {
            out.push('\'');
            out.push('\\');
            out.push('\'');
            out.push('\'');
            proof {
                assert(out@ == single_quoted(cs@.take(i as int)) + "'\\''"@) by {
                    reveal_strlit("'\\''");
                }
            }
        } else {
            out.push(c);
        }
        i = i + 1;
    }
    proof {
        assert(cs@.take(cs@.len() as int) == cs@);
    }
    crate::text::string_of(out.as_slice())
}

/// The start script for a loader that ships `run.sh`: it changes into its
/// own directory, puts the Java directory first on `PATH`, and runs
/// `run.sh --nogui`.
pub open spec fn start_script_spec(java_dir: Seq<char>) -> Seq<char> {
    "#!/bin/sh\ncd \"$(dirname \"$0\")\"\nexport PATH='"@ + single_quoted(java_dir)
        + "':\"$PATH\"\nexec sh ./run.sh --nogui\n"@
}

/// The text of the start script for a Java directory.
pub fn start_script(java_dir: &str) -> (r: String)
    ensures
        r@ == start_script_spec(java_dir@),
{
    let q = shell_single_quote(java_dir);
    concat3(
        "#!/bin/sh\ncd \"$(dirname \"$0\")\"\nexport PATH='",
        q.as_str(),
        "':\"$PATH\"\nexec sh ./run.sh --nogui\n",
    )
}

/// The arguments `java` is started with for a server jar: half the memory
/// as initial heap, all of it as maximum heap, the jar, and no GUI.
pub fn java_launch_args(jar_path: &str, memory_mb: u32) -> (r: Vec<String>)
    ensures
        r@.len() == 5,
        r@[0]@ == "-Xms"@ + decimal_text((memory_mb / 2) as nat) + "M"@,
        r@[1]@ == "-Xmx"@ + decimal_text(memory_mb as nat) + "M"@,
        r@[2]@ == "-jar"@,
        r@[3]@ == jar_path@,
        r@[4]@ == "--nogui"@,
{
    let half = decimal_of((memory_mb / 2) as u64);
    let full = decimal_of(memory_mb as u64);
    let mut r: Vec<String> = Vec::new();
    r.push(concat3("-Xms", half.as_str(), "M"));
    r.push(concat3("-Xmx", full.as_str(), "M"));
    r.push(String::from_str("-jar"));
    r.push(String::from_str(jar_path));
    r.push(String::from_str("--nogui"));
    r
}

/// The lower-case form of a text as `str::to_lowercase` computes it (the
/// Unicode lower-case mapping).
pub uninterp spec fn lowercase_of(s: Seq<char>) -> Seq<char>;

/// `str::to_lowercase`: std documents the result as the text mapped to
/// lower case by Unicode's rules, a function of the text alone, named
/// `lowercase_of`.
#[verifier::external_body]
fn to_lowercase(s: &str) -> (r: String)
    ensures
        r@ == lowercase_of(s@),
{
    s.to_lowercase()
}

/// A file an installer-based loader produced as its server jar: in lower
/// case, its name starts with the software's name, ends in `.jar`, and
/// mentions neither `installer` nor `client`.
pub open spec fn is_loader_server_jar_spec(file_name: Seq<char>, software: ServerSoftware) -> bool {
    let lower = lowercase_of(file_name);
    has_prefix(lower, software.lower_name_spec()) && has_suffix(lower, ".jar"@) && !has_infix(
        lower,
        "installer"@,
    ) && !has_infix(lower, "client"@)
}

/// Whether a file left by an installer is the loader's server jar.
pub fn is_loader_server_jar(file_name: &str, software: ServerSoftware) -> (r: bool)
    ensures
        r == is_loader_server_jar_spec(file_name@, software),
{
    let lower = to_lowercase(file_name);
    let name = chars_of(lower.as_str());
    let prefix = chars_of(software.lower_name());
    let jar = chars_of(".jar");
    let installer = chars_of("installer");
    let client = chars_of("client");
    starts_with_chars(name.as_slice(), prefix.as_slice()) && ends_with_chars(name.as_slice(), jar.as_slice())
        && !contains_chars(name.as_slice(), installer.as_slice()) && !contains_chars(
        name.as_slice(),
        client.as_slice(),
    )
}

/// The index of the first name that is the loader's server jar, in the
/// order given.
pub fn first_loader_server_jar(names: &Vec<String>, software: ServerSoftware) -> (r: Option<usize>)
    ensures
        match r {
            Some(i) => i < names@.len() && is_loader_server_jar_spec(names@[i as int]@, software)
                && forall|k: int| 0 <= k < i ==> !is_loader_server_jar_spec(#[trigger] names@[k]@, software),
            None => forall|k: int| 0 <= k < names@.len() ==> !is_loader_server_jar_spec(#[trigger] names@[k]@, software),
        },
{
    let mut i: usize = 0;
    while i < names.len()
        invariant
            i <= names@.len(),
            forall|k: int| 0 <= k < i ==> !is_loader_server_jar_spec(#[trigger] names@[k]@, software),
        decreases names.len() - i,
    {
        if is_loader_server_jar(names[i].as_str(), software) {
            return Some(i);
        }
        i = i + 1;
    }
    None
}

/// What follows a loader installer that ran successfully.
#[derive(Debug)]
pub enum InstallerFollowUp {
    /// The installer left `run.sh`: write the start script around it.
    WriteStartScript,
    /// Use this jar the installer produced as `server.jar`.
    UseServerJar(String),
}

/// After an installer ran: a `run.sh` means a start script is written;
/// otherwise the loader's server jar, when one was found, becomes the
/// server jar; with neither the installation failed.
pub fn installer_follow_up(software: ServerSoftware, has_run_script: bool, loader_jar: Option<String>) -> (r:
    Result<InstallerFollowUp, String>)
    ensures
        has_run_script ==> (r matches Ok(f) && f is WriteStartScript),
        !has_run_script && loader_jar is Some ==> (r matches Ok(InstallerFollowUp::UseServerJar(p)) && p
            == loader_jar->0),
        !has_run_script && loader_jar is None ==> (r matches Err(e) && e@ == "El instalador de "@
            + software.name_spec() + " no generó run.sh ni un JAR de servidor reconocible"@),
{
    if has_run_script {
        return Ok(InstallerFollowUp::WriteStartScript);
    }
    match loader_jar {
        Some(p) => Ok(InstallerFollowUp::UseServerJar(p)),
        None => Err(
            concat3("El instalador de ", software.name(), " no generó run.sh ni un JAR de servidor reconocible"),
        ),
    }
}

} // verus!
