use cubed::layout::{
    eula_accepted_text, eula_path, first_loader_server_jar, installer_file_name, installer_follow_up,
    is_loader_server_jar, java_launch_args, server_jar_path, shell_single_quote, start_script,
    start_script_path, InstallerFollowUp, LocalFileSystem,
};
use cubed::software::{uses_installer, ServerSoftware};

#[test]
fn server_dir_returns_correct_path() {
    let fs = LocalFileSystem::new("/home/cubed".into());
    assert_eq!(fs.server_dir("/cubed/servers", "survival"), "/cubed/servers/survival");
}

#[test]
fn global_and_server_dirs() {
    let fs = LocalFileSystem::new("/home/cubed".into());
    assert_eq!(
        fs.cubed_dir_paths(),
        vec![
            "/home/cubed/servers",
            "/home/cubed/backups",
            "/home/cubed/downloads",
            "/home/cubed/temp",
            "/home/cubed/config",
            "/home/cubed/logs"
        ]
    );
    assert_eq!(
        fs.server_dir_paths("/srv", "s1"),
        vec!["/srv/s1", "/srv/s1/mods", "/srv/s1/world", "/srv/s1/config", "/srv/s1/logs"]
    );
}

#[test]
fn launch_files() {
    assert_eq!(server_jar_path("/w"), "/w/server.jar");
    assert_eq!(start_script_path("/w"), "/w/cubed-start.sh");
    assert_eq!(eula_path("/w"), "/w/eula.txt");
    assert_eq!(eula_accepted_text(), "eula=true\n");
    assert_eq!(installer_file_name(ServerSoftware::NeoForge), "neoforge-installer.jar");
}

#[test]
fn single_quote_escaping() {
    assert_eq!(shell_single_quote("/usr/lib/jvm/bin"), "/usr/lib/jvm/bin");
    assert_eq!(shell_single_quote("it's"), "it'\\''s");
    assert_eq!(shell_single_quote(""), "");
}

#[test]
fn start_script_text() {
    assert_eq!(
        start_script("/opt/j'dk/bin"),
        "#!/bin/sh\ncd \"$(dirname \"$0\")\"\nexport PATH='/opt/j'\\''dk/bin':\"$PATH\"\nexec sh ./run.sh --nogui\n"
    );
}

#[test]
fn java_arguments() {
    assert_eq!(
        java_launch_args("/w/server.jar", 2048),
        vec!["-Xms1024M", "-Xmx2048M", "-jar", "/w/server.jar", "--nogui"]
    );
    assert_eq!(java_launch_args("s.jar", 3)[0], "-Xms1M");
}

#[test]
fn loader_server_jar_detection() {
    assert!(is_loader_server_jar("forge-1.20.1-47.3.0-shim.jar", ServerSoftware::Forge));
    assert!(is_loader_server_jar("FORGE-1.20.1-Universal.JAR", ServerSoftware::Forge));
    assert!(!is_loader_server_jar("forge-1.20.1-installer.jar", ServerSoftware::Forge));
    assert!(!is_loader_server_jar("forge-1.20.1-client.jar", ServerSoftware::Forge));
    assert!(!is_loader_server_jar("neoforge-21.1.jar", ServerSoftware::Forge));
    assert!(is_loader_server_jar("neoforge-21.1.jar", ServerSoftware::NeoForge));
    assert!(!is_loader_server_jar("forge.txt", ServerSoftware::Forge));
}

#[test]
fn init_cubed_dirs_creates_all_global_dirs() {
    let fs = LocalFileSystem::new("/tmp/root".into());
    let dirs = fs.cubed_dir_paths();
    for d in ["servers", "backups", "downloads", "temp", "config", "logs"] {
        assert!(dirs.contains(&format!("/tmp/root/{}", d)), "falta directorio: {}", d);
    }
}

#[test]
fn init_server_dirs_creates_subdirs() {
    let fs = LocalFileSystem::new("/tmp/root".into());
    let dirs = fs.server_dir_paths("/tmp/root/servers", "survival");
    for sub in ["mods", "world", "config", "logs"] {
        assert!(dirs.contains(&format!("/tmp/root/servers/survival/{}", sub)), "falta subdir: {}", sub);
    }
}

#[test]
fn loader_jar_search_and_follow_up() {
    let names: Vec<String> = ["run.bat", "forge-1.20.1-installer.jar", "forge-1.20.1-server.jar", "forge-x.jar"]
        .iter()
        .map(|s| s.to_string())
        .collect();
    assert_eq!(first_loader_server_jar(&names, ServerSoftware::Forge), Some(2));
    assert_eq!(first_loader_server_jar(&names, ServerSoftware::NeoForge), None);
    assert!(matches!(
        installer_follow_up(ServerSoftware::Forge, true, Some("/w/x.jar".into())),
        Ok(InstallerFollowUp::WriteStartScript)
    ));
    match installer_follow_up(ServerSoftware::Forge, false, Some("/w/x.jar".into())) {
        Ok(InstallerFollowUp::UseServerJar(p)) => assert_eq!(p, "/w/x.jar"),
        _ => panic!("expected UseServerJar"),
    }
    assert_eq!(
        installer_follow_up(ServerSoftware::NeoForge, false, None).unwrap_err(),
        "El instalador de NeoForge no generó run.sh ni un JAR de servidor reconocible"
    );
    assert!(uses_installer(ServerSoftware::Forge));
    assert!(uses_installer(ServerSoftware::NeoForge));
    assert!(!uses_installer(ServerSoftware::Paper));
}
