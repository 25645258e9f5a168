use cubed::commands::{
    backup_to_dto, check_create_request, chosen_servers_dir, console_event_name, delete_decision,
    java_to_dto, launch_target, line_to_event, lines_to_events, mod_to_dto, modpack_to_dto,
    not_found_message, port_taken_message, progress_event_name, restart_decision, server_to_dto,
    software_for, summary_to_dto, work_dir, CreateServerCmd, LaunchTarget,
};
use cubed::console::ConsoleLine;
use cubed::entities::{Backup, ModEntry, Modpack, ModpackFormat, Server, ServerStatus, Timestamp};
use cubed::java::JavaInstallation;
use cubed::lifecycle::RestartPlan;
use cubed::modpack::InstallSummary;
use cubed::software::ServerSoftware;

const ID: u128 = 0x67e55044_10b1_426f_9247_bb680e5fe0c8;

fn server(status: ServerStatus) -> Server {
    Server {
        id: ID,
        name: "survival".into(),
        version: "1.21.4".into(),
        software: ServerSoftware::NeoForge,
        port: 25565,
        java_path: "/usr/bin/java".into(),
        status,
        created_at: Timestamp { secs: 0, nanos: 0 },
        updated_at: Timestamp { secs: 0, nanos: 0 },
    }
}

fn create(name: &str, port: u16) -> CreateServerCmd {
    CreateServerCmd {
        name: name.into(),
        version: "1.21.4".into(),
        software: "Paper".into(),
        port,
        java_path: "/usr/bin/java".into(),
        servers_dir: "".into(),
    }
}

#[test]
fn server_dto_shows_all_fields() {
    let dto = server_to_dto(&server(ServerStatus::Stopping));
    assert_eq!(dto.id, "67e55044-10b1-426f-9247-bb680e5fe0c8");
    assert_eq!(dto.name, "survival");
    assert_eq!(dto.version, "1.21.4");
    assert_eq!(dto.software, "NeoForge");
    assert_eq!(dto.port, 25565);
    assert_eq!(dto.status, "stopping");
}

#[test]
fn console_events_carry_hyphenated_id() {
    let l = ConsoleLine { server_id: 1, is_stdout: false, text: "oops".into() };
    let e = line_to_event(l);
    assert_eq!(e.server_id, "00000000-0000-0000-0000-000000000001");
    assert!(!e.is_stdout);
    assert_eq!(e.text, "oops");
    let lines = vec![
        ConsoleLine { server_id: ID, is_stdout: true, text: "a".into() },
        ConsoleLine { server_id: ID, is_stdout: true, text: "b".into() },
    ];
    let events = lines_to_events(lines);
    assert_eq!(events.len(), 2);
    assert_eq!(events[1].text, "b");
    assert_eq!(console_event_name("abc"), "console-line:abc");
    assert_eq!(progress_event_name("abc"), "modpack-progress:abc");
}

#[test]
fn backup_and_mod_dtos() {
    let b = Backup {
        id: 2,
        server_id: ID,
        path: "/b/s.tar.gz".into(),
        size_bytes: 42,
        created_at: Timestamp { secs: 1_700_000_000, nanos: 0 },
    };
    let dto = backup_to_dto(&b);
    assert_eq!(dto.server_id, "67e55044-10b1-426f-9247-bb680e5fe0c8");
    assert_eq!(dto.size_bytes, 42);
    assert_eq!(dto.created_at, "2023-11-14T22:13:20+00:00");
    let m = ModEntry { id: 3, server_id: ID, file_name: "a.jar".into(), path: "/m/a.jar".into() };
    let md = mod_to_dto(&m);
    assert_eq!(md.id, "00000000-0000-0000-0000-000000000003");
    assert_eq!(md.file_name, "a.jar");
    assert_eq!(md.path, "/m/a.jar");
}

#[test]
fn modpack_and_summary_dtos() {
    let m = Modpack {
        id: 4,
        server_id: ID,
        name: "Pack".into(),
        format: ModpackFormat::Zip,
        source_path: "/p.zip".into(),
    };
    assert_eq!(modpack_to_dto(&m).format, "zip");
    let s = InstallSummary {
        name: "Pack".into(),
        total_files: 3,
        downloaded: 2,
        skipped: 1,
        loader_info: Some("forge 47".into()),
    };
    let dto = summary_to_dto(&m, s);
    assert_eq!(dto.modpack.name, "Pack");
    assert_eq!(dto.total_files, 3);
    assert_eq!(dto.downloaded, 2);
    assert_eq!(dto.skipped, 1);
    assert_eq!(dto.loader_info.as_deref(), Some("forge 47"));
    let j = java_to_dto(JavaInstallation {
        path: "/j".into(),
        major_version: 21,
        version_string: "openjdk 21".into(),
    });
    assert_eq!(j.major_version, 21);
    assert_eq!(j.path, "/j");
}

#[test]
fn create_request_checks_in_order() {
    assert!(check_create_request(&create("survival", 25565)).is_ok());
    assert_eq!(
        check_create_request(&create("   ", 10)).unwrap_err(),
        "El nombre del servidor no puede estar vacío"
    );
    assert_eq!(
        check_create_request(&create(&"x".repeat(65), 10)).unwrap_err(),
        "El nombre del servidor no puede superar 64 caracteres"
    );
    assert!(check_create_request(&create(&"x".repeat(64), 25565)).is_ok());
    // 33 two-byte characters are 66 bytes.
    assert!(check_create_request(&create(&"ñ".repeat(33), 25565)).is_err());
    assert_eq!(
        check_create_request(&create("ok", 1023)).unwrap_err(),
        "El puerto debe ser >= 1024"
    );
    assert!(check_create_request(&create("ok", 1024)).is_ok());
}

#[test]
fn create_request_messages() {
    assert_eq!(port_taken_message(25565), "El puerto 25565 ya está ocupado por el sistema");
    assert_eq!(software_for("Fabric").unwrap(), ServerSoftware::Fabric);
    assert_eq!(software_for("paper").unwrap_err(), "Software desconocido: paper");
    assert_eq!(chosen_servers_dir("  ", "/srv"), "/srv");
    assert_eq!(chosen_servers_dir(" /data ", "/srv"), "/data");
    assert_eq!(work_dir("/srv", "survival"), "/srv/survival");
    assert_eq!(not_found_message("x"), "Servidor x no encontrado");
}

#[test]
fn launch_prefers_script() {
    assert_eq!(launch_target(true, true, "/w").unwrap(), LaunchTarget::Script);
    assert_eq!(launch_target(false, true, "/w").unwrap(), LaunchTarget::Jar);
    assert_eq!(
        launch_target(false, false, "/w").unwrap_err(),
        "No se encontró un runtime arrancable en '/w'. Descarga el servidor primero."
    );
}

#[test]
fn restart_and_delete_decisions() {
    assert_eq!(restart_decision(ServerStatus::Running).unwrap(), RestartPlan::StopThenStart);
    assert_eq!(restart_decision(ServerStatus::Crashed).unwrap(), RestartPlan::Start);
    assert_eq!(
        restart_decision(ServerStatus::Starting).unwrap_err(),
        "No se puede reiniciar mientras el servidor está cambiando de estado"
    );
    assert!(delete_decision(ServerStatus::Offline).is_ok());
    assert_eq!(
        delete_decision(ServerStatus::Running).unwrap_err(),
        "Detén el servidor antes de eliminarlo"
    );
}
