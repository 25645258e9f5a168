use cubed::entities::{Backup, ModEntry, Modpack, ModpackFormat, Server, ServerStatus, Timestamp};
use cubed::records::{open_records, server_to_record, ServerRecord};
use cubed::repo::Table;
use cubed::software::ServerSoftware;

fn server(id: u128, name: &str, port: u16) -> Server {
    Server {
        id,
        name: name.into(),
        version: "1.21.4".into(),
        software: ServerSoftware::Paper,
        port,
        java_path: "/usr/bin/java".into(),
        status: ServerStatus::Offline,
        created_at: Timestamp { secs: 0, nanos: 0 },
        updated_at: Timestamp { secs: 0, nanos: 0 },
    }
}

fn backup(id: u128, server_id: u128, size: u64) -> Backup {
    Backup {
        id,
        server_id,
        path: format!("/home/cubed/backups/{}.tar.gz", id),
        size_bytes: size,
        created_at: Timestamp { secs: id as i64, nanos: 0 },
    }
}

#[test]
fn read_after_save_and_delete() {
    let mut t: Table<Server> = Table::new();
    t.save(server(1, "a", 25565));
    t.save(server(2, "b", 25566));
    assert_eq!(t.find_by_id(1).unwrap().name, "a");
    t.save(server(1, "a2", 25567));
    assert_eq!(t.find_by_id(1).unwrap().name, "a2");
    assert_eq!(t.all().len(), 2);
    assert_eq!(t.all()[1].name, "a2");
    t.delete(1);
    assert!(t.find_by_id(1).is_none());
    assert_eq!(t.find_by_id(2).unwrap().name, "b");
    t.delete(99);
    assert_eq!(t.all().len(), 1);
}

#[test]
fn multiple_servers_persist() {
    let mut store: Table<ServerRecord> = open_records(Vec::new());
    store.save(server_to_record(&server(1, "s1", 25565)));
    store.save(server_to_record(&server(2, "s2", 25566)));
    store.save(server_to_record(&server(3, "s3", 25567)));
    let reopened = open_records(store.all());
    assert_eq!(reopened.all().len(), 3);
    assert!(reopened.record_port_in_use(25566));
    assert!(!reopened.record_port_in_use(25570));
}

#[test]
fn port_in_use_looks_at_every_server() {
    let t = Table::from_rows(vec![server(1, "a", 25565), server(2, "b", 25566)]);
    assert_eq!(t.all().len(), 2);
    assert!(t.port_in_use(25566));
    assert!(!t.port_in_use(25570));
}

#[test]
fn backup_records_persist_and_delete() {
    let mut t: Table<Backup> = Table::new();
    let server_id = 77;
    t.save(backup(5, server_id, 42));
    t.save(backup(6, 78, 1));
    assert!(t.find_by_id(5).is_some());
    assert_eq!(t.find_by_server(server_id)[0].size_bytes, 42);
    assert_eq!(t.find_by_server(server_id).len(), 1);
    t.delete(5);
    assert!(t.find_by_id(5).is_none());
}

#[test]
fn mod_records_persist_and_delete() {
    let mut t: Table<ModEntry> = Table::new();
    t.save(ModEntry { id: 1, server_id: 9, file_name: "a.jar".into(), path: "/m/a.jar".into() });
    t.save(ModEntry { id: 2, server_id: 9, file_name: "b.jar".into(), path: "/m/b.jar".into() });
    assert_eq!(t.find_by_server(9).len(), 2);
    t.delete(1);
    assert_eq!(t.find_by_server(9).len(), 1);
    assert_eq!(t.find_by_server(9)[0].file_name, "b.jar");
}

#[test]
fn saving_twice_equals_saving_once() {
    let mut once: Table<Server> = Table::new();
    once.save(server(1, "a", 1));
    once.save(server(2, "b", 2));
    let mut twice: Table<Server> = Table::new();
    twice.save(server(1, "a", 1));
    twice.save(server(2, "b", 2));
    twice.save(server(2, "b", 2));
    let a: Vec<u128> = once.all().iter().map(|s| s.id).collect();
    let b: Vec<u128> = twice.all().iter().map(|s| s.id).collect();
    assert_eq!(a, b);
}

#[test]
fn delete_persists() {
    let mut store: Table<ServerRecord> = open_records(Vec::new());
    store.save(server_to_record(&server(1, "to-delete", 25570)));
    store.delete(1);
    let reopened = open_records(store.all());
    assert!(reopened.find_by_id(1).is_none());
    assert_eq!(reopened.all().len(), 0);
}

#[test]
fn modpack_records_persist_and_delete() {
    let mut t: Table<Modpack> = Table::new();
    let pack = Modpack {
        id: 31,
        server_id: 3,
        name: "Pack".into(),
        format: ModpackFormat::Mrpack,
        source_path: "/p.mrpack".into(),
    };
    t.save(pack);
    let reloaded = Table::from_rows(t.all());
    assert!(reloaded.find_by_id(31).is_some());
    assert_eq!(reloaded.find_by_server(3)[0].name, "Pack");
    let mut r = reloaded;
    r.delete(31);
    assert!(r.find_by_id(31).is_none());
}
