use cubed::backup::{
    archive_args, auto_backup_targets, backup_destination, new_backup_destination, restore_args,
    sort_newest_first,
};
use cubed::entities::{
    ModEntry, parse_modpack_format, parse_status, parse_status_on_reload, Backup, ModpackFormat, Server,
    ServerStatus, Timestamp,
};
use cubed::error::CubedError;
use cubed::integrity::{contains_name, integrity_report, missing_from};
use cubed::records::{open_records, record_to_server, row_to_server, server_to_record, ServerRecord, ServerRow};
use cubed::repo::Table;
use cubed::resources::{disk_totals, network_totals, uptime_secs, DiskSpace, Traffic};
use cubed::software::{parse_software, ServerSoftware};
use cubed::commands::mod_to_dto;
use cubed::stamps::timestamp_text;

fn server(status: ServerStatus) -> Server {
    Server {
        id: 11,
        name: "survival".into(),
        version: "1.21.4".into(),
        software: ServerSoftware::Forge,
        port: 25570,
        java_path: "/usr/bin/java".into(),
        status,
        created_at: Timestamp { secs: 10, nanos: 1 },
        updated_at: Timestamp { secs: 20, nanos: 2 },
    }
}

fn strings(v: &[&str]) -> Vec<String> {
    v.iter().map(|s| s.to_string()).collect()
}

fn reopened_servers(store: &Table<ServerRecord>) -> Vec<Server> {
    open_records(store.all()).all().into_iter().map(|r| record_to_server(r).unwrap()).collect()
}

#[test]
fn persist_and_reload() {
    let mut store = open_records(Vec::new());
    store.save(server_to_record(&server(ServerStatus::Offline)));
    assert_eq!(store.all().len(), 1);
    let servers = reopened_servers(&store);
    assert_eq!(servers.len(), 1);
    assert_eq!(servers[0].name, "survival");
}

#[test]
fn record_round_trip() {
    let rec = server_to_record(&server(ServerStatus::Crashed));
    assert_eq!(rec.software, "Forge");
    assert_eq!(rec.status, "crashed");
    let back = record_to_server(rec).unwrap();
    assert_eq!(back.id, 11);
    assert_eq!(back.name, "survival");
    assert_eq!(back.software, ServerSoftware::Forge);
    assert_eq!(back.status, ServerStatus::Crashed);
    assert_eq!(back.port, 25570);
    assert_eq!(back.updated_at, Timestamp { secs: 20, nanos: 2 });
}

#[test]
fn status_normalised_to_offline_on_reload() {
    let mut store = open_records(Vec::new());
    store.save(server_to_record(&server(ServerStatus::Running)));
    let reloaded = reopened_servers(&store);
    assert_eq!(reloaded[0].status, ServerStatus::Offline);
    for st in [ServerStatus::Starting, ServerStatus::Running, ServerStatus::Stopping, ServerStatus::Offline] {
        let mut one = open_records(Vec::new());
        one.save(server_to_record(&server(st)));
        assert_eq!(reopened_servers(&one)[0].status, ServerStatus::Offline);
    }
    let mut crashed = open_records(Vec::new());
    crashed.save(server_to_record(&server(ServerStatus::Crashed)));
    assert_eq!(reopened_servers(&crashed)[0].status, ServerStatus::Crashed);
    assert_eq!(parse_status_on_reload("running"), Some(ServerStatus::Offline));
    assert_eq!(parse_status("running"), Some(ServerStatus::Running));
    assert_eq!(parse_status("Running"), None);
}

#[test]
fn running_status_reads_back_from_the_same_store() {
    let mut store = open_records(Vec::new());
    store.save(server_to_record(&server(ServerStatus::Running)));
    let found = record_to_server(store.find_by_id(11).unwrap()).unwrap();
    assert_eq!(found.status, ServerStatus::Running);
    for st in [ServerStatus::Starting, ServerStatus::Stopping, ServerStatus::Crashed] {
        assert_eq!(record_to_server(server_to_record(&server(st))).unwrap().status, st);
    }
    assert!(store.record_port_in_use(25570));
    assert!(!store.record_port_in_use(25571));
}

#[test]
fn unknown_names_are_refused() {
    let mut rec: ServerRecord = server_to_record(&server(ServerStatus::Offline));
    rec.software = "Spigot".into();
    match record_to_server(rec) {
        Err(CubedError::UnknownSoftware { value }) => assert_eq!(value, "Spigot"),
        _ => panic!("expected UnknownSoftware"),
    }
    let mut rec2 = server_to_record(&server(ServerStatus::Offline));
    rec2.status = "paused".into();
    match record_to_server(rec2) {
        Err(CubedError::UnknownStatus { value }) => assert_eq!(value, "paused"),
        _ => panic!("expected UnknownStatus"),
    }
    assert_eq!(parse_software("NeoForge"), Some(ServerSoftware::NeoForge));
    assert_eq!(parse_modpack_format(".mrpack"), Some(ModpackFormat::Mrpack));
    assert_eq!(parse_modpack_format("zip"), Some(ModpackFormat::Zip));
    assert_eq!(parse_modpack_format("rar"), None);
}

#[test]
fn integrity_finds_both_kinds_of_gap() {
    let db = strings(&["alpha", "beta", "alpha", "gamma"]);
    let disk = strings(&["beta", "delta", "delta"]);
    let r = integrity_report(&db, &disk);
    assert_eq!(r.missing_dirs, strings(&["alpha", "gamma"]));
    assert_eq!(r.unregistered_dirs, strings(&["delta"]));
    assert!(contains_name(&db, "beta"));
    assert!(!contains_name(&db, "omega"));
    assert!(missing_from(&db, &db).is_empty());
}

#[test]
fn resource_totals() {
    let disks = vec![DiskSpace { total: 100, available: 40 }, DiskSpace { total: 50, available: 50 }];
    assert_eq!(disk_totals(&disks), (150, 60));
    let nets = vec![Traffic { received: 5, transmitted: 7 }, Traffic { received: 1, transmitted: 2 }];
    assert_eq!(network_totals(&nets), (6, 9));
    assert_eq!(disk_totals(&Vec::new()), (0, 0));
    assert_eq!(uptime_secs(100, 40), 60);
    assert_eq!(uptime_secs(40, 100), 0);
}

#[test]
fn backup_naming_and_commands() {
    assert_eq!(
        backup_destination("/home/cubed/backups", "survival", "20240101_120000"),
        "/home/cubed/backups/survival_20240101_120000.tar.gz"
    );
    let fresh = new_backup_destination("/b", "s");
    assert!(fresh.starts_with("/b/s_"));
    assert!(fresh.ends_with(".tar.gz"));
    assert_eq!(fresh.len(), "/b/s_".len() + 15 + ".tar.gz".len());
    let stamp: Vec<char> = fresh["/b/s_".len()..fresh.len() - ".tar.gz".len()].chars().collect();
    for (i, c) in stamp.iter().enumerate() {
        if i == 8 {
            assert_eq!(*c, '_');
        } else {
            assert!(c.is_ascii_digit());
        }
    }
    assert_eq!(archive_args("/b/x.tar.gz", "/srv", "s"), vec!["-czf", "/b/x.tar.gz", "-C", "/srv", "s"]);
    assert_eq!(restore_args("/b/x.tar.gz", "/r"), vec!["-xzf", "/b/x.tar.gz", "-C", "/r"]);
}

#[test]
fn auto_backup_covers_every_server() {
    let servers = vec![server(ServerStatus::Offline)];
    let t = auto_backup_targets(3600, &servers, "/srv");
    assert_eq!(t.len(), 1);
    assert_eq!(t[0].server_id, 11);
    assert_eq!(t[0].server_dir, "/srv/survival");
    assert!(auto_backup_targets(0, &servers, "/srv").is_empty());
}

#[test]
fn backups_listed_newest_first() {
    let b = |id: u128, secs: i64, nanos: u32| Backup {
        id,
        server_id: 1,
        path: format!("/b/{}", id),
        size_bytes: 0,
        created_at: Timestamp { secs, nanos },
    };
    let list = vec![b(1, 10, 0), b(2, 30, 0), b(3, 10, 5), b(4, 30, 0)];
    let ids: Vec<u128> = sort_newest_first(&list).iter().map(|x| x.id).collect();
    assert_eq!(ids, vec![2, 4, 3, 1]);
}

#[test]
fn identifiers_and_times_as_text() {
    let shown = |id: u128, owner: u128| {
        let m = ModEntry { id, server_id: owner, file_name: "m.jar".into(), path: "/m.jar".into() };
        let dto = mod_to_dto(&m);
        (dto.id, dto.server_id)
    };
    let (a, b) = shown(0, u128::MAX);
    assert_eq!(a, "00000000-0000-0000-0000-000000000000");
    assert_eq!(b, "ffffffff-ffff-ffff-ffff-ffffffffffff");
    let (c, _) = shown(0x0123456789abcdef0123456789abcdef, 1);
    assert_eq!(c, "01234567-89ab-cdef-0123-456789abcdef");
    assert_eq!(timestamp_text(Timestamp { secs: 0, nanos: 0 }), "1970-01-01T00:00:00+00:00");
    assert_eq!(timestamp_text(Timestamp { secs: i64::MAX, nanos: 0 }), "");
}

#[test]
fn database_rows_keep_their_status() {
    let row = ServerRow {
        id: 5,
        name: "db".into(),
        version: "1.20.1".into(),
        software: "Paper".into(),
        port: 25565,
        java_path: "/usr/bin/java".into(),
        status: "running".into(),
        created_at: Timestamp { secs: 1, nanos: 0 },
        updated_at: Timestamp { secs: 2, nanos: 0 },
    };
    let s = row_to_server(row).unwrap();
    assert_eq!(s.status, ServerStatus::Running);
    assert_eq!(s.port, 25565);
    let wide = ServerRow {
        id: 5,
        name: "db".into(),
        version: "1.20.1".into(),
        software: "Paper".into(),
        port: 65536 + 80,
        java_path: "/usr/bin/java".into(),
        status: "offline".into(),
        created_at: Timestamp { secs: 1, nanos: 0 },
        updated_at: Timestamp { secs: 2, nanos: 0 },
    };
    assert_eq!(row_to_server(wide).unwrap().port, 80);
    let bad = ServerRow {
        id: 5,
        name: "db".into(),
        version: "1.20.1".into(),
        software: "Paper".into(),
        port: 1,
        java_path: "/usr/bin/java".into(),
        status: "zombie".into(),
        created_at: Timestamp { secs: 1, nanos: 0 },
        updated_at: Timestamp { secs: 2, nanos: 0 },
    };
    assert!(matches!(row_to_server(bad), Err(CubedError::UnknownStatus { .. })));
}
