use cubed::settings::{
    default_settings_for_data_dir, ensure_absolute_path, path_checks, settings_to_dto,
    uses_builtin_storage_defaults, validate_settings_change, JsonSettingsStore, SaveSettingsCmd,
    Settings, DEFAULT_BACKUP_INTERVAL_SECS,
};

fn cmd(servers: &str, backups: &str, downloads: &str, java: &str) -> SaveSettingsCmd {
    SaveSettingsCmd {
        servers_dir: servers.into(),
        backups_dir: backups.into(),
        downloads_dir: downloads.into(),
        default_java_path: java.into(),
        backup_interval_secs: 3_600,
    }
}

#[test]
fn absolute_path_validation_rejects_relative_paths() {
    assert!(ensure_absolute_path("servidores", "cubed/servers").is_err());
}

#[test]
fn absolute_path_validation_message_and_success() {
    assert_eq!(
        ensure_absolute_path("servidores", "cubed/servers").unwrap_err(),
        "servidores debe ser una ruta absoluta"
    );
    assert!(ensure_absolute_path("servidores", "/srv/cubed").is_ok());
    assert!(ensure_absolute_path("x", "").is_err());
}

#[test]
fn app_data_defaults_replace_builtin_storage_dirs() {
    let settings = default_settings_for_data_dir("/tmp/cubed-app-data");

    assert_eq!(settings.servers_dir, "/tmp/cubed-app-data/servers");
    assert_eq!(settings.backups_dir, "/tmp/cubed-app-data/backups");
    assert_eq!(settings.downloads_dir, "/tmp/cubed-app-data/downloads");
    assert_eq!(settings.backup_interval_secs, 18_000);
}

#[test]
fn builtin_storage_defaults_are_detected() {
    assert!(uses_builtin_storage_defaults(&Settings::default()));

    let custom = Settings {
        servers_dir: "/tmp/cubed/servers".into(),
        ..Settings::default()
    };
    assert!(!uses_builtin_storage_defaults(&custom));
}

#[test]
fn builtin_defaults_values() {
    let s = Settings::default();
    assert_eq!(s.servers_dir, "/home/cubed/servers");
    assert_eq!(s.backups_dir, "/home/cubed/backups");
    assert_eq!(s.downloads_dir, "/home/cubed/downloads");
    assert_eq!(s.default_java_path, "/usr/bin/java");
    assert_eq!(s.backup_interval_secs, DEFAULT_BACKUP_INTERVAL_SECS);
    let java_changed = Settings { default_java_path: "/opt/java".into(), ..Settings::default() };
    assert!(uses_builtin_storage_defaults(&java_changed));
}

#[test]
fn data_dir_with_trailing_slash() {
    let s = default_settings_for_data_dir("/data/");
    assert_eq!(s.servers_dir, "/data/servers");
    assert_eq!(s.default_java_path, "/usr/bin/java");
}

#[test]
fn settings_change_trims_and_accepts() {
    let s = validate_settings_change(&cmd(" /srv/servers ", "/srv/backups", "/srv/dl\n", "/usr/bin/java")).unwrap();
    assert_eq!(s.servers_dir, "/srv/servers");
    assert_eq!(s.downloads_dir, "/srv/dl");
    assert_eq!(s.backup_interval_secs, 3_600);
    let dto = settings_to_dto(&s);
    assert_eq!(dto.backups_dir, "/srv/backups");
    assert_eq!(dto.backup_interval_secs, 3_600);
}

#[test]
fn settings_change_empty_fields_in_order() {
    assert_eq!(
        validate_settings_change(&cmd("  ", "", "", "")).unwrap_err(),
        "El directorio de servidores no puede estar vacío"
    );
    assert_eq!(
        validate_settings_change(&cmd("/a", " ", "", "")).unwrap_err(),
        "El directorio de backups no puede estar vacío"
    );
    assert_eq!(
        validate_settings_change(&cmd("/a", "/b", "", "rel")).unwrap_err(),
        "El directorio de descargas no puede estar vacío"
    );
    assert_eq!(
        validate_settings_change(&cmd("/a", "/b", "/c", "\t")).unwrap_err(),
        "La ruta de Java por defecto no puede estar vacía"
    );
}

fn first_refused_path(servers: &str, backups: &str, downloads: &str, java: &str) -> Result<Vec<String>, String> {
    let next = validate_settings_change(&cmd(servers, backups, downloads, java))?;
    let mut created = Vec::new();
    for check in path_checks(&next) {
        ensure_absolute_path(check.label, &check.path)?;
        if check.create_dir {
            created.push(check.path.clone());
        }
    }
    Ok(created)
}

#[test]
fn settings_change_relative_paths_in_order() {
    assert!(validate_settings_change(&cmd("a", "b", "c", "d")).is_ok());
    assert_eq!(first_refused_path("a", "b", "c", "d").unwrap_err(), "servidores debe ser una ruta absoluta");
    assert_eq!(first_refused_path("/a", "b", "c", "d").unwrap_err(), "backups debe ser una ruta absoluta");
    assert_eq!(first_refused_path("/a", "/b", "c", "d").unwrap_err(), "descargas debe ser una ruta absoluta");
    assert_eq!(
        first_refused_path("/a", "/b", "/c", "java").unwrap_err(),
        "Java por defecto debe ser una ruta absoluta"
    );
    assert_eq!(
        first_refused_path("/a", "/b", "/c", "/usr/bin/java").unwrap(),
        vec!["/a".to_string(), "/b".to_string(), "/c".to_string()]
    );
}

#[test]
fn path_checks_follow_the_settings_order() {
    let next = validate_settings_change(&cmd(" /srv ", "/bk", "/dl", "/usr/bin/java")).unwrap();
    let checks = path_checks(&next);
    let labels: Vec<&str> = checks.iter().map(|c| c.label).collect();
    assert_eq!(labels, vec!["servidores", "backups", "descargas", "Java por defecto"]);
    let paths: Vec<String> = checks.iter().map(|c| c.path.clone()).collect();
    assert_eq!(paths, vec!["/srv", "/bk", "/dl", "/usr/bin/java"]);
    let creates: Vec<bool> = checks.iter().map(|c| c.create_dir).collect();
    assert_eq!(creates, vec![true, true, true, false]);
}

#[test]
fn settings_store_keeps_its_path() {
    let store = JsonSettingsStore::new("/tmp/settings.json".into());
    assert_eq!(store.path, "/tmp/settings.json");
}
