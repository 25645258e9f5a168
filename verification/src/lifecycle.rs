//! Server life cycle: the status changes a server goes through, and the
//! decisions taken around starting, stopping, restarting, deleting and
//! recovering servers.

use vstd::prelude::*;
use crate::console::ConsoleLine;
use crate::entities::{Server, ServerStatus};
use crate::error::CubedError;
use crate::repo::{Record, Table, key_is_not, saved};
use crate::text::{chars_of, contains_chars, has_infix};

verus! {

broadcast use vstd::seq_lib::group_seq_properties;

/// A request to change a server's status.
#[derive(Clone, Copy, PartialEq, Eq, Structural, Debug)]
pub enum StatusEvent {
    /// A start is requested.
    Start,
    /// The server printed its ready line.
    Ready,
    /// A stop is requested.
    Stop,
    /// The process ended after a stop or after running.
    Stopped,
    /// The process failed: it could not start or ended before running.
    Failed,
}

/// The status after an event, when the event is allowed: a stopped or
/// crashed server starts; a starting server becomes ready; a running server
/// stops; a stopping or running server ends offline; any server whose
/// process failed is crashed.
pub open spec fn next_status(from: ServerStatus, ev: StatusEvent) -> Option<ServerStatus> {
    match (ev, from) {
        (StatusEvent::Start, ServerStatus::Offline) => Some(ServerStatus::Starting),
        (StatusEvent::Start, ServerStatus::Crashed) => Some(ServerStatus::Starting),
        (StatusEvent::Ready, ServerStatus::Starting) => Some(ServerStatus::Running),
        (StatusEvent::Stop, ServerStatus::Running) => Some(ServerStatus::Stopping),
        (StatusEvent::Stopped, ServerStatus::Stopping) => Some(ServerStatus::Offline),
        (StatusEvent::Stopped, ServerStatus::Running) => Some(ServerStatus::Offline),
        (StatusEvent::Failed, _) => Some(ServerStatus::Crashed),
        _ => None,
    }
}

/// A full run of a server, started from offline or crashed, made ready,
/// stopped and ended, leaves it offline; and no event moves a server out of
/// a status other than the ones `next_status` lists.
pub proof fn law_run_cycle_returns_offline(from: ServerStatus)
    requires
        from == ServerStatus::Offline || from == ServerStatus::Crashed,
    ensures
        next_status(from, StatusEvent::Start) == Some(ServerStatus::Starting),
        next_status(ServerStatus::Starting, StatusEvent::Ready) == Some(ServerStatus::Running),
        next_status(ServerStatus::Running, StatusEvent::Stop) == Some(ServerStatus::Stopping),
        next_status(ServerStatus::Stopping, StatusEvent::Stopped) == Some(ServerStatus::Offline),
{
}

/// Only a running server can be asked to stop, and only an offline or
/// crashed one to start.
pub proof fn law_start_and_stop_guards(from: ServerStatus)
    ensures
        next_status(from, StatusEvent::Stop) is Some <==> from == ServerStatus::Running,
        next_status(from, StatusEvent::Start) is Some <==> (from == ServerStatus::Offline || from
            == ServerStatus::Crashed),
{
}

/// A failed process leaves the server crashed, whatever its status was
/// (a Java process that could not be spawned, or one that died while
/// starting); and no other event ever leads to a crash.
pub proof fn law_failure_crashes(from: ServerStatus, ev: StatusEvent)
    ensures
        next_status(from, StatusEvent::Failed) == Some(ServerStatus::Crashed),
        next_status(from, ev) == Some(ServerStatus::Crashed) <==> ev == StatusEvent::Failed,
{
}

/// Only a starting server becomes running, and only on its ready line; only
/// the end of a stopping or running process makes a server offline.
pub proof fn law_running_and_offline_entries(from: ServerStatus, ev: StatusEvent)
    ensures
        next_status(from, ev) == Some(ServerStatus::Running) <==> (ev == StatusEvent::Ready && from
            == ServerStatus::Starting),
        next_status(from, ev) == Some(ServerStatus::Offline) <==> (ev == StatusEvent::Stopped && (from
            == ServerStatus::Stopping || from == ServerStatus::Running)),
        next_status(from, ev) == Some(ServerStatus::Starting) <==> (ev == StatusEvent::Start && (from
            == ServerStatus::Offline || from == ServerStatus::Crashed)),
        next_status(from, ev) == Some(ServerStatus::Stopping) <==> (ev == StatusEvent::Stop && from
            == ServerStatus::Running),
{
}

/// Applies an event to a server's status; a refused event leaves the server
/// unchanged.
pub fn apply_event(server: &mut Server, ev: StatusEvent) -> (r: Result<(), CubedError>)
    ensures
        match next_status(old(server).status, ev) {
            Some(s) => r is Ok && final(server).status == s,
            None => r == Err::<(), CubedError>(CubedError::InvalidTransition { from: old(server).status })
                && final(server).status == old(server).status,
        },
        final(server).id == old(server).id,
        final(server).name == old(server).name,
        final(server).version == old(server).version,
        final(server).software == old(server).software,
        final(server).port == old(server).port,
        final(server).java_path == old(server).java_path,
        final(server).created_at == old(server).created_at,
        final(server).updated_at == old(server).updated_at,
{
    let next = match (ev, server.status) {
        (StatusEvent::Start, ServerStatus::Offline) => ServerStatus::Starting,
        (StatusEvent::Start, ServerStatus::Crashed) => ServerStatus::Starting,
        (StatusEvent::Ready, ServerStatus::Starting) => ServerStatus::Running,
        (StatusEvent::Stop, ServerStatus::Running) => ServerStatus::Stopping,
        (StatusEvent::Stopped, ServerStatus::Stopping) => ServerStatus::Offline,
        (StatusEvent::Stopped, ServerStatus::Running) => ServerStatus::Offline,
        (StatusEvent::Failed, _) => ServerStatus::Crashed,
        _ => return Err(CubedError::InvalidTransition { from: server.status }),
    };
    server.status = next;
    Ok(())
}

/// What a restart does first.
#[derive(Clone, Copy, PartialEq, Eq, Structural, Debug)]
pub enum RestartPlan {
    /// Stop the running server, then start it.
    StopThenStart,
    /// The server is not running: just start it.
    Start,
}

/// How a restart proceeds from a status: a running server is stopped first;
/// a stopped or crashed one is started; a starting or stopping one is
/// refused.
pub fn restart_plan(status: ServerStatus) -> (r: Result<RestartPlan, CubedError>)
    ensures
        status == ServerStatus::Running ==> r == Ok::<RestartPlan, CubedError>(RestartPlan::StopThenStart),
        (status == ServerStatus::Offline || status == ServerStatus::Crashed) ==> r == Ok::<
            RestartPlan,
            CubedError,
        >(RestartPlan::Start),
        (status == ServerStatus::Starting || status == ServerStatus::Stopping) ==> r == Err::<
            RestartPlan,
            CubedError,
        >(CubedError::ServerBusy),
{
    match status {
        ServerStatus::Running => Ok(RestartPlan::StopThenStart),
        ServerStatus::Offline | ServerStatus::Crashed => Ok(RestartPlan::Start),
        ServerStatus::Starting | ServerStatus::Stopping => Err(CubedError::ServerBusy),
    }
}

/// A server may be deleted only when it is offline or crashed.
pub fn check_deletable(status: ServerStatus) -> (r: Result<(), CubedError>)
    ensures
        (status == ServerStatus::Offline || status == ServerStatus::Crashed) <==> r is Ok,
        r is Err ==> r == Err::<(), CubedError>(CubedError::ServerNotStopped),
{
    match status {
        ServerStatus::Offline | ServerStatus::Crashed => Ok(()),
        _ => Err(CubedError::ServerNotStopped),
    }
}

/// The line Minecraft prints once it accepts players: on standard output,
/// containing "Done" and "For help"; only the first one counts.
pub open spec fn is_ready_line_spec(line: ConsoleLine, already_running: bool) -> bool {
    line.is_stdout && !already_running && has_infix(line.text@, "Done"@) && has_infix(line.text@, "For help"@)
}

/// Only the first standard-output line that holds both "Done" and
/// "For help" marks a server as running: a line on standard error, a line
/// missing either text, or any line once the server runs never does.
pub proof fn law_ready_line(line: ConsoleLine, already_running: bool)
    ensures
        is_ready_line_spec(line, already_running) ==> line.is_stdout && !already_running,
        is_ready_line_spec(line, already_running) <==> (line.is_stdout && !already_running && has_infix(
            line.text@,
            "Done"@,
        ) && has_infix(line.text@, "For help"@)),
{
}

/// Whether a console line marks the server as running.
pub fn is_ready_line(line: &ConsoleLine, already_running: bool) -> (r: bool)
    ensures
        r == is_ready_line_spec(*line, already_running),
{
    if !line.is_stdout || already_running {
        return false;
    }
    let text = chars_of(line.text.as_str());
    let done = chars_of("Done");
    let help = chars_of("For help");
    contains_chars(text.as_slice(), done.as_slice()) && contains_chars(text.as_slice(), help.as_slice())
}

/// What the end of a server process means.
#[derive(Debug)]
pub struct ExitOutcome {
    /// The status to record.
    pub status: ServerStatus,
    /// `true`: the server stopped cleanly; `false`: it crashed.
    pub stopped: bool,
}

/// When a process ends: after a stop request or after reaching running it
/// stopped (the status becomes offline where that change is allowed);
/// otherwise it crashed.
pub fn exit_outcome(status: ServerStatus, reached_running: bool) -> (r: ExitOutcome)
    ensures
        (status == ServerStatus::Stopping || reached_running) ==> r.stopped && r.status == match next_status(
            status,
            StatusEvent::Stopped,
        ) {
            Some(s) => s,
            None => status,
        },
        !(status == ServerStatus::Stopping || reached_running) ==> !r.stopped && r.status
            == ServerStatus::Crashed,
{
    if status == ServerStatus::Stopping || reached_running {
        let next = match status {
            ServerStatus::Stopping | ServerStatus::Running => ServerStatus::Offline,
            other => other,
        };
        ExitOutcome { status: next, stopped: true }
    } else {
        ExitOutcome { status: ServerStatus::Crashed, stopped: false }
    }
}

/// Some row of `rows` has identifier `id`.
pub open spec fn has_id(rows: Seq<Server>, id: u128) -> bool {
    exists|k: int| 0 <= k < rows.len() && #[trigger] rows[k].id == id
}

/// No row is starting, running or stopping.
pub open spec fn all_settled(rows: Seq<Server>) -> bool {
    forall|k: int| 0 <= k < rows.len() ==> !(#[trigger] rows[k].status.is_transitional_spec())
}

/// A server set back to offline, all else kept.
pub open spec fn settled(s: Server) -> Server {
    Server {
        id: s.id,
        name: s.name,
        version: s.version,
        software: s.software,
        port: s.port,
        java_path: s.java_path,
        status: ServerStatus::Offline,
        created_at: s.created_at,
        updated_at: s.updated_at,
    }
}

/// The table after the start-up pass has gone through the first `n` rows
/// of `snapshot`: each row left starting, running or stopping is saved back
/// as offline.
pub open spec fn reconciled(rows: Seq<Server>, snapshot: Seq<Server>, n: nat) -> Seq<Server>
    decreases n,
{
    if n == 0 {
        rows
    } else {
        let prev = reconciled(rows, snapshot, (n - 1) as nat);
        let s = snapshot[n - 1];
        if s.status.is_transitional_spec() {
            saved(prev, settled(s))
        } else {
            prev
        }
    }
}

/// The servers to save back at start-up, in order: each one left starting,
/// running or stopping, set to offline.
pub open spec fn to_settle(servers: Seq<Server>) -> Seq<Server>
    decreases servers.len(),
{
    if servers.len() == 0 {
        Seq::empty()
    } else {
        let prev = to_settle(servers.drop_last());
        if servers.last().status.is_transitional_spec() {
            prev.push(settled(servers.last()))
        } else {
            prev
        }
    }
}

/// The servers a store must save back at start-up: those a previous run
/// left starting, running or stopping, now offline, in stored order.
pub fn servers_to_settle(servers: &Vec<Server>) -> (r: Vec<Server>)
    ensures
        r@ == to_settle(servers@),
{
    let mut out: Vec<Server> = Vec::new();
    let mut i: usize = 0;
    while i < servers.len()
        invariant
            i <= servers@.len(),
            out@ == to_settle(servers@.take(i as int)),
        decreases servers.len() - i,
    {
        proof {
            assert(servers@.take(i + 1).drop_last() == servers@.take(i as int));
            assert(servers@.take(i + 1).last() == servers@[i as int]);
        }
        if servers[i].status.is_transitional() {
            let mut s = servers[i].duplicate();
            s.status = ServerStatus::Offline;
            assert(s == settled(servers@[i as int]));
            out.push(s);
        }
        i = i + 1;
    }
    proof {
        assert(servers@.take(servers@.len() as int) == servers@);
    }
    out
}

/// At start-up no server process can be alive: every server that a
/// previous run left starting, running or stopping is saved back as
/// offline, in stored order. Afterwards no server is in such a state, and
/// the same servers are stored.
pub fn reconcile_startup(table: &mut Table<Server>)
    ensures
        final(table)@ == reconciled(old(table)@, old(table)@, old(table)@.len()),
        all_settled(final(table)@),
        forall|id: u128| #[trigger] has_id(final(table)@, id) == has_id(old(table)@, id),
{
    let snapshot = table.all();
    let ghost snap = snapshot@;
    let n = snapshot.len();
    let mut i: usize = 0;
    while i < n
        invariant
            i <= n,
            n == snap.len(),
            snapshot@ == snap,
            snap == old(table)@,
            table@ == reconciled(snap, snap, i as nat),
            forall|k: int|
                0 <= k < table@.len() ==> !(#[trigger] table@[k].status.is_transitional_spec())
                    || exists|j: int| i <= j < n && table@[k] == snap[j],
            forall|id: u128| #[trigger] has_id(table@, id) == has_id(snap, id),
        decreases n - i,
    {
        if snapshot[i].status.is_transitional() {
            let mut s = snapshot[i].duplicate();
            s.status = ServerStatus::Offline;
            let ghost before = table@;
            let ghost id = s.id;
            assert(s == settled(snap[i as int]));
            table.save(s);
            proof {
                let f = before.filter(key_is_not::<Server>(id));
                assert(table@ == f.push(s));
                assert forall|k: int|
                    0 <= k < table@.len() implies !(#[trigger] table@[k].status.is_transitional_spec())
                    || exists|j: int| i + 1 <= j < n && table@[k] == snap[j] by {
                    if k < f.len() {
                        let row = f[k];
                        assert(f.contains(row));
                        before.lemma_filter_contains_rev(key_is_not::<Server>(id), row);
                        before.lemma_filter_pred(key_is_not::<Server>(id), k);
                        assert(before.contains(row));
                        let m = choose|m: int| 0 <= m < before.len() && before[m] == row;
                        assert(row.id != id);
                        if row.status.is_transitional_spec() {
                            let j = choose|j: int| i <= j < n && before[m] == snap[j];
                            assert(j != i);
                        }
                    }
                }
                assert forall|q: u128| #[trigger] has_id(table@, q) == has_id(snap, q) by {
                    if q == id {
                        assert(table@[table@.len() - 1].id == id);
                        assert(snap[i as int].id == id);
                    } else {
                        if has_id(before, q) {
                            let m = choose|m: int| 0 <= m < before.len() && #[trigger] before[m].id == q;
                            assert(key_is_not::<Server>(id)(before[m]));
                            before.lemma_filter_contains(key_is_not::<Server>(id), m);
                            assert(f.contains(before[m]));
                            let z = choose|z: int| 0 <= z < f.len() && f[z] == before[m];
                            assert(table@[z] == f[z]);
                        }
                        if has_id(table@, q) {
                            let z = choose|z: int| 0 <= z < table@.len() && #[trigger] table@[z].id == q;
                            assert(z < f.len());
                            assert(f.contains(f[z]));
                            before.lemma_filter_contains_rev(key_is_not::<Server>(id), f[z]);
                            assert(before.contains(f[z]));
                            let m = choose|m: int| 0 <= m < before.len() && before[m] == f[z];
                            assert(before[m].id == q);
                        }
                    }
                }
            }
        } else {
            proof {
                assert forall|k: int|
                    0 <= k < table@.len() implies !(#[trigger] table@[k].status.is_transitional_spec())
                    || exists|j: int| i + 1 <= j < n && table@[k] == snap[j] by {
                    if table@[k].status.is_transitional_spec() {
                        let j = choose|j: int| i <= j < n && table@[k] == snap[j];
                        assert(j != i);
                    }
                }
            }
        }
        i = i + 1;
    }
}

} // verus!
