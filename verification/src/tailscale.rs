//! Tailscale connectivity: locating the `tailscale` binary, reading the
//! state out of `tailscale status --json`, and the address players connect to.

use vstd::prelude::*;
use crate::error::CubedError;
use crate::text::{concat3, decimal_of, decimal_text, str_eq};

verus! {

/// The state of the Tailscale network on this machine.
#[derive(Debug)]
pub enum TailscaleStatus {
    NotInstalled,
    Disconnected,
    Connected { ip: String, hostname: String },
}

/// The Tailscale state as shown to the user.
#[derive(Debug)]
pub struct TailscaleStatusDto {
    /// "not_installed", "disconnected" or "connected".
    pub state: String,
    pub ip: Option<String>,
    pub hostname: Option<String>,
}

/// The string found at a JSON pointer of a JSON document.
pub uninterp spec fn json_text_at(document: Seq<u8>, pointer: Seq<char>) -> Option<Seq<char>>;

/// Parses `document` with `serde_json::from_slice` into a
/// `serde_json::Value`, follows `pointer` with `Value::pointer` and reads the
/// string there with `Value::as_str`. The result depends on the document and
/// the pointer alone, and is named `json_text_at`; `None` when the document
/// is not JSON, nothing is at the pointer, or the value is not a string.
#[verifier::external_body]
fn string_at_pointer(document: &[u8], pointer: &str) -> (r: Option<String>)
    ensures
        match r {
            Some(s) => json_text_at(document@, pointer@) == Some(s@),
            None => json_text_at(document@, pointer@) is None,
        },
{
    match serde_json::from_slice::<serde_json::Value>(document) {
        Ok(value) => match value.pointer(pointer) {
            Some(found) => match found.as_str() {
                Some(text) => Some(text.to_string()),
                None => None,
            },
            None => None,
        },
        Err(_) => None,
    }
}

/// The state reported by the fields of `tailscale status --json`: connected
/// when the backend is "Running" (a missing state counts as stopped) and the
/// node has an address; the host name defaults to empty.
pub open spec fn status_from_fields_spec(
    backend_state: Option<Seq<char>>,
    ip: Option<Seq<char>>,
    hostname: Option<Seq<char>>,
) -> (Option<(Seq<char>, Seq<char>)>) {
    let state = match backend_state {
        Some(s) => s,
        None => "Stopped"@,
    };
    let addr = match ip {
        Some(s) => s,
        None => Seq::<char>::empty(),
    };
    if state != "Running"@ {
        None
    } else if addr.len() == 0 {
        None
    } else {
        Some(
            (
                addr,
                match hostname {
                    Some(h) => h,
                    None => Seq::<char>::empty(),
                },
            ),
        )
    }
}

/// A node is connected exactly when its backend state is `Running` and it
/// has a non-empty address; it is then reached at that address under its
/// host name (empty when absent). A stopped, starting or missing backend is
/// disconnected whatever addresses are still listed.
pub proof fn law_connected_only_when_running(
    backend_state: Option<Seq<char>>,
    ip: Option<Seq<char>>,
    hostname: Option<Seq<char>>,
)
    ensures
        status_from_fields_spec(backend_state, ip, hostname) is Some <==> (backend_state == Some("Running"@)
            && ip is Some && ip->0.len() > 0),
        status_from_fields_spec(backend_state, ip, hostname) is Some ==> status_from_fields_spec(
            backend_state,
            ip,
            hostname,
        ) == Some(
            (
                ip->0,
                match hostname {
                    Some(h) => h,
                    None => Seq::<char>::empty(),
                },
            ),
        ),
{
    reveal_strlit("Stopped");
    reveal_strlit("Running");
    assert("Stopped"@[1] != "Running"@[1]);
}

/// The view of a status: `Some((ip, hostname))` when connected.
pub open spec fn connection_of(s: TailscaleStatus) -> Option<(Seq<char>, Seq<char>)> {
    match s {
        TailscaleStatus::Connected { ip, hostname } => Some((ip@, hostname@)),
        _ => None,
    }
}

/// The characters of an optional string.
pub open spec fn opt_view(o: Option<String>) -> Option<Seq<char>> {
    match o {
        Some(s) => Some(s@),
        None => None,
    }
}

/// The state reported by the fields of `tailscale status --json`.
pub fn status_from_fields(backend_state: Option<String>, ip: Option<String>, hostname: Option<String>) -> (r:
    TailscaleStatus)
    ensures
        r is Connected || r is Disconnected,
        connection_of(r) == status_from_fields_spec(opt_view(backend_state), opt_view(ip), opt_view(hostname)),
{
    let running = match &backend_state {
        Some(s) => str_eq(s.as_str(), "Running"),
        None => {
            proof {
                reveal_strlit("Stopped");
                reveal_strlit("Running");
                assert("Stopped"@[1] != "Running"@[1]);
            }
            false
        },
    };
    if !running {
        return TailscaleStatus::Disconnected;
    }
    let addr = match ip {
        Some(s) => s,
        None => String::new(),
    };
    if addr.as_str().is_empty() {
        return TailscaleStatus::Disconnected;
    }
    let host = match hostname {
        Some(h) => h,
        None => String::new(),
    };
    TailscaleStatus::Connected { ip: addr, hostname: host }
}

/// The JSON pointer of the backend state.
pub open spec fn backend_state_pointer() -> Seq<char> {
    "/BackendState"@
}

/// The JSON pointer of the node's first Tailscale address.
pub open spec fn ip_pointer() -> Seq<char> {
    "/Self/TailscaleIPs/0"@
}

/// The JSON pointer of the node's host name.
pub open spec fn hostname_pointer() -> Seq<char> {
    "/Self/HostName"@
}

/// The state after running `tailscale status --json`: a failed run means
/// Tailscale is installed but not running; otherwise the JSON fields decide
/// (a document that does not parse reads as stopped).
pub fn status_from_output(exit_success: bool, stdout: &[u8]) -> (r: TailscaleStatus)
    ensures
        r is Connected || r is Disconnected,
        !exit_success ==> r is Disconnected,
        exit_success ==> connection_of(r) == status_from_fields_spec(
            json_text_at(stdout@, backend_state_pointer()),
            json_text_at(stdout@, ip_pointer()),
            json_text_at(stdout@, hostname_pointer()),
        ),
{
    if !exit_success {
        return TailscaleStatus::Disconnected;
    }
    let state = string_at_pointer(stdout, "/BackendState");
    let ip = string_at_pointer(stdout, "/Self/TailscaleIPs/0");
    let host = string_at_pointer(stdout, "/Self/HostName");
    status_from_fields(state, ip, host)
}

/// What running `tailscale status --json` gave: whether it exited
/// successfully, and its standard output.
#[derive(Debug)]
pub struct RunOutput {
    pub success: bool,
    pub stdout: Vec<u8>,
}

/// The Tailscale state: not installed when no binary was found; an error
/// when the binary could not be run; otherwise what the run reports.
pub fn status_from_run(binary_found: bool, run: Option<RunOutput>) -> (r: Result<TailscaleStatus, CubedError>)
    ensures
        !binary_found ==> (r matches Ok(s) && s is NotInstalled),
        binary_found && run is None ==> (r matches Err(e) && e is TailscaleUnavailable),
        binary_found && run is Some ==> (r matches Ok(s) && (s is Connected || s is Disconnected) && (
        !run->0.success ==> s is Disconnected) && (run->0.success ==> connection_of(s)
            == status_from_fields_spec(
            json_text_at(run->0.stdout@, backend_state_pointer()),
            json_text_at(run->0.stdout@, ip_pointer()),
            json_text_at(run->0.stdout@, hostname_pointer()),
        ))),
{
    if !binary_found {
        return Ok(TailscaleStatus::NotInstalled);
    }
    match run {
        None => Err(CubedError::TailscaleUnavailable),
        Some(out) => Ok(status_from_output(out.success, out.stdout.as_slice())),
    }
}

/// The Tailscale address when connected.
pub fn tailscale_ip(status: &TailscaleStatus) -> (r: Option<String>)
    ensures
        match connection_of(*status) {
            Some((ip, _)) => r matches Some(s) && s@ == ip,
            None => r is None,
        },
{
    match status {
        TailscaleStatus::Connected { ip, .. } => Some(ip.clone()),
        _ => None,
    }
}

/// The status as shown to the user.
pub fn status_to_dto(status: &TailscaleStatus) -> (r: TailscaleStatusDto)
    ensures
        status is NotInstalled ==> r.state@ == "not_installed"@ && r.ip is None && r.hostname is None,
        status is Disconnected ==> r.state@ == "disconnected"@ && r.ip is None && r.hostname is None,
        connection_of(*status) matches Some((ip, host)) ==> r.state@ == "connected"@
            && opt_view(r.ip) == Some(ip) && opt_view(r.hostname) == Some(host),
{
    match status {
        TailscaleStatus::NotInstalled => TailscaleStatusDto {
            state: String::from_str("not_installed"),
            ip: None,
            hostname: None,
        },
        TailscaleStatus::Disconnected => TailscaleStatusDto {
            state: String::from_str("disconnected"),
            ip: None,
            hostname: None,
        },
        TailscaleStatus::Connected { ip, hostname } => TailscaleStatusDto {
            state: String::from_str("connected"),
            ip: Some(ip.clone()),
            hostname: Some(hostname.clone()),
        },
    }
}

/// The address to join a server with: `<tailscale ip>:<port>`, when
/// connected.
pub fn connect_address(ip: Option<String>, port: u16) -> (r: Option<String>)
    ensures
        match ip {
            Some(a) => r matches Some(s) && s@ == a@ + ":"@ + decimal_text(port as nat),
            None => r is None,
        },
{
    match ip {
        Some(a) => {
            let p = decimal_of(port as u64);
            Some(concat3(a.as_str(), ":", p.as_str()))
        },
        None => None,
    }
}

/// Finds and queries the `tailscale` binary.
#[derive(Debug)]
pub struct TailscaleNetworkManager;

/// Where the binary is looked for after `PATH`.
pub open spec fn candidate_paths() -> Seq<Seq<char>> {
    seq!["/usr/bin/tailscale"@, "/usr/local/bin/tailscale"@, "/snap/bin/tailscale"@]
}

impl Default for TailscaleNetworkManager {
    /// The same as `new`.
    fn default() -> (r: TailscaleNetworkManager)
        ensures
            r == TailscaleNetworkManager,
    {
        TailscaleNetworkManager
    }
}

impl TailscaleNetworkManager {
    pub fn new() -> (r: TailscaleNetworkManager) {
        TailscaleNetworkManager
    }

    /// The binary to run: "tailscale" when `PATH` has it, else the first
    /// known location that exists, else none. Both questions are asked of the
    /// caller's probes.
    pub fn find_binary<W: Fn() -> bool, E: Fn(&str) -> bool>(on_path: W, present: E) -> (r: Option<String>)
        requires
            on_path.requires(()),
            forall|p: &str| #[trigger] present.requires((p,)),
        ensures
            r matches Some(b) ==> (on_path.ensures((), true) && b@ == "tailscale"@) || (on_path.ensures(
                (),
                false,
            ) && exists|k: int|
                0 <= k < candidate_paths().len() && b@ == #[trigger] candidate_paths()[k] && (exists|p: &str|
                    p@ == candidate_paths()[k] && #[trigger] present.ensures((p,), true)) && (forall|j: int|
                    0 <= j < k ==> exists|p: &str|
                        p@ == #[trigger] candidate_paths()[j] && present.ensures((p,), false))),
            r is None ==> on_path.ensures((), false) && forall|k: int|
                0 <= k < candidate_paths().len() ==> exists|p: &str|
                    p@ == #[trigger] candidate_paths()[k] && present.ensures((p,), false),
    {
        if on_path() {
            return Some(String::from_str("tailscale"));
        }
        let paths = vec!["/usr/bin/tailscale", "/usr/local/bin/tailscale", "/snap/bin/tailscale"];
        let mut i: usize = 0;
        while i < paths.len()
            invariant
                i <= paths@.len(),
                paths@.len() == candidate_paths().len(),
                forall|k: int| 0 <= k < paths@.len() ==> #[trigger] paths@[k]@ == candidate_paths()[k],
                forall|p: &str| #[trigger] present.requires((p,)),
                on_path.ensures((), false),
                forall|k: int|
                    0 <= k < i ==> exists|p: &str|
                        p@ == #[trigger] candidate_paths()[k] && present.ensures((p,), false),
            decreases paths.len() - i,
        {
            let here = paths[i];
            if present(here) {
                assert(here@ == candidate_paths()[i as int]);
                return Some(String::from_str(here));
            }
            assert(here@ == candidate_paths()[i as int]);
            i = i + 1;
        }
        None
    }
}

} // verus!
