use cubed::console::ConsoleLine;
use cubed::entities::{Server, ServerStatus, Timestamp};
use cubed::error::CubedError;
use cubed::lifecycle::{
    apply_event, check_deletable, exit_outcome, is_ready_line, reconcile_startup, restart_plan,
    servers_to_settle, RestartPlan, StatusEvent,
};
use cubed::repo::Table;
use cubed::software::ServerSoftware;

fn server(id: u128, status: ServerStatus) -> Server {
    Server {
        id,
        name: format!("s{}", id),
        version: "1.21.4".into(),
        software: ServerSoftware::Purpur,
        port: 25565,
        java_path: "/usr/bin/java".into(),
        status,
        created_at: Timestamp { secs: 1, nanos: 2 },
        updated_at: Timestamp { secs: 3, nanos: 4 },
    }
}

#[test]
fn allowed_transitions() {
    let mut s = server(1, ServerStatus::Offline);
    assert!(apply_event(&mut s, StatusEvent::Start).is_ok());
    assert_eq!(s.status, ServerStatus::Starting);
    assert!(apply_event(&mut s, StatusEvent::Ready).is_ok());
    assert_eq!(s.status, ServerStatus::Running);
    assert!(apply_event(&mut s, StatusEvent::Stop).is_ok());
    assert_eq!(s.status, ServerStatus::Stopping);
    assert!(apply_event(&mut s, StatusEvent::Stopped).is_ok());
    assert_eq!(s.status, ServerStatus::Offline);
    let mut c = server(2, ServerStatus::Crashed);
    assert!(apply_event(&mut c, StatusEvent::Start).is_ok());
    assert_eq!(c.status, ServerStatus::Starting);
}

#[test]
fn refused_transitions_change_nothing() {
    let mut s = server(1, ServerStatus::Offline);
    match apply_event(&mut s, StatusEvent::Stop) {
        Err(CubedError::InvalidTransition { from }) => assert_eq!(from, ServerStatus::Offline),
        _ => panic!("expected InvalidTransition"),
    }
    assert_eq!(s.status, ServerStatus::Offline);
    let mut r = server(1, ServerStatus::Running);
    assert!(apply_event(&mut r, StatusEvent::Start).is_err());
    assert_eq!(r.status, ServerStatus::Running);
}

#[test]
fn restart_and_delete_rules() {
    assert!(matches!(restart_plan(ServerStatus::Running), Ok(RestartPlan::StopThenStart)));
    assert!(matches!(restart_plan(ServerStatus::Offline), Ok(RestartPlan::Start)));
    assert!(matches!(restart_plan(ServerStatus::Stopping), Err(CubedError::ServerBusy)));
    assert!(check_deletable(ServerStatus::Crashed).is_ok());
    assert!(matches!(check_deletable(ServerStatus::Starting), Err(CubedError::ServerNotStopped)));
}

#[test]
fn ready_line_detection() {
    let done = ConsoleLine {
        server_id: 1,
        is_stdout: true,
        text: "[12:00:00] Done (3.456s)! For help, type \"help\"".into(),
    };
    assert!(is_ready_line(&done, false));
    assert!(!is_ready_line(&done, true));
    let err = ConsoleLine { server_id: 1, is_stdout: false, text: done.text.clone() };
    assert!(!is_ready_line(&err, false));
    let other = ConsoleLine { server_id: 1, is_stdout: true, text: "Done loading".into() };
    assert!(!is_ready_line(&other, false));
}

#[test]
fn process_exit_outcomes() {
    let o = exit_outcome(ServerStatus::Stopping, false);
    assert!(o.stopped);
    assert_eq!(o.status, ServerStatus::Offline);
    let o = exit_outcome(ServerStatus::Starting, true);
    assert!(o.stopped);
    assert_eq!(o.status, ServerStatus::Starting);
    let o = exit_outcome(ServerStatus::Running, true);
    assert_eq!(o.status, ServerStatus::Offline);
    let o = exit_outcome(ServerStatus::Starting, false);
    assert!(!o.stopped);
    assert_eq!(o.status, ServerStatus::Crashed);
}

#[test]
fn startup_reconciles_live_states() {
    let mut t = Table::from_rows(vec![
        server(1, ServerStatus::Running),
        server(2, ServerStatus::Crashed),
        server(3, ServerStatus::Starting),
        server(4, ServerStatus::Offline),
    ]);
    reconcile_startup(&mut t);
    let all = t.all();
    assert_eq!(all.len(), 4);
    for s in &all {
        assert!(matches!(s.status, ServerStatus::Offline | ServerStatus::Crashed));
    }
    assert_eq!(t.find_by_id(2).unwrap().status, ServerStatus::Crashed);
    assert_eq!(t.find_by_id(1).unwrap().status, ServerStatus::Offline);
    assert_eq!(t.find_by_id(3).unwrap().name, "s3");
}

#[test]
fn only_live_servers_are_settled() {
    let servers = vec![
        server(1, ServerStatus::Running),
        server(2, ServerStatus::Offline),
        server(3, ServerStatus::Stopping),
        server(4, ServerStatus::Crashed),
        server(5, ServerStatus::Starting),
    ];
    let settled = servers_to_settle(&servers);
    let ids: Vec<u128> = settled.iter().map(|s| s.id).collect();
    assert_eq!(ids, vec![1, 3, 5]);
    assert!(settled.iter().all(|s| s.status == ServerStatus::Offline));
    assert_eq!(settled[0].name, "s1");
    assert!(servers_to_settle(&Vec::new()).is_empty());
}
