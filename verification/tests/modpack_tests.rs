use cubed::entities::{ModEntry, Modpack, ModpackFormat};
use cubed::modpack::{
    count_extracted, curseforge_file_name, display_name, entry_action, format_of_source,
    has_server_layout, list_modpacks_sorted, loader_info, pack_name, plan_extraction,
    server_files, summarize_downloads, zip_pack_name, EntryAction, MrpackFile, ZipEntryInfo,
};
use cubed::mods::{list_mods_sorted, mod_install_target, validate_jar_bytes};
use cubed::error::CubedError;

fn file(path: &str, env: Option<&str>) -> MrpackFile {
    MrpackFile {
        path: path.into(),
        downloads: vec![format!("https://cdn/{}", path)],
        env_server: env.map(|s| s.to_string()),
    }
}

fn entry(name: &str, is_dir: bool) -> ZipEntryInfo {
    ZipEntryInfo { name: name.into(), is_dir }
}

fn target(a: &EntryAction) -> String {
    match a {
        EntryAction::Skip => "skip".into(),
        EntryAction::MakeDir(p) => format!("dir {}", p),
        EntryAction::Extract(p) => format!("file {}", p),
    }
}

#[test]
fn install_unsupported_format_fails() {
    assert_eq!(format_of_source("/pack.tar.gz"), None);
    assert_eq!(format_of_source("/no/such.mrpack"), Some(ModpackFormat::Mrpack));
    assert_eq!(format_of_source("/x/pack.zip"), Some(ModpackFormat::Zip));
}

#[test]
fn unsupported_client_files_are_left_out() {
    let files = vec![
        file("mods/a.jar", None),
        file("mods/shader.jar", Some("unsupported")),
        file("mods/b.jar", Some("required")),
    ];
    let kept = server_files(files);
    let paths: Vec<&str> = kept.iter().map(|f| f.path.as_str()).collect();
    assert_eq!(paths, vec!["mods/a.jar", "mods/b.jar"]);
    assert_eq!(display_name("mods/a.jar"), "a.jar");
}

#[test]
fn loader_information() {
    let deps = vec![
        ("minecraft".to_string(), "1.21".to_string()),
        ("fabric-loader".to_string(), "0.15.0".to_string()),
        ("fabric-api".to_string(), "0.9".to_string()),
    ];
    assert_eq!(loader_info(&deps), "fabric-loader 0.15.0, fabric-api 0.9");
    assert_eq!(loader_info(&vec![("minecraft".to_string(), "1.21".to_string())]), "");
    assert!(loader_info(&deps).contains("fabric-loader"));
}

#[test]
fn names_of_packs_and_files() {
    assert_eq!(pack_name(Some("TestPack".into())), "TestPack");
    assert_eq!(pack_name(None), "Modpack");
    assert_eq!(curseforge_file_name(Some(238222), Some(4611100)), "238222-4611100.jar");
    assert_eq!(curseforge_file_name(None, Some(5)), "0-5.jar");
    assert_eq!(zip_pack_name("/packs/All The Mods.zip"), "All The Mods");
    assert_eq!(zip_pack_name("/"), "Modpack");
}

#[test]
fn download_counts_add_up() {
    let s = summarize_downloads("P".into(), &vec![true, false, true, true], None);
    assert_eq!(s.total_files, 4);
    assert_eq!(s.downloaded, 3);
    assert_eq!(s.skipped, 1);
    let empty = summarize_downloads("P".into(), &Vec::new(), Some("x".into()));
    assert_eq!(empty.total_files, 0);
    assert_eq!(empty.downloaded + empty.skipped, 0);
}

#[test]
fn server_layout_extraction_plan() {
    let entries = vec![
        entry("mods/", true),
        entry("mods/a.jar", false),
        entry("world/level.dat", false),
        entry("server.properties", false),
        entry("libraries/x.jar", false),
        entry("config/c.toml", false),
    ];
    assert!(has_server_layout(&entries));
    let plan = plan_extraction(&entries, "/srv/s");
    let shown: Vec<String> = plan.iter().map(target).collect();
    assert_eq!(
        shown,
        vec![
            "dir /srv/s/mods/",
            "file /srv/s/mods/a.jar",
            "skip",
            "file /srv/s/server.properties",
            "skip",
            "file /srv/s/config/c.toml"
        ]
    );
    assert_eq!(count_extracted(&plan), 3);
}

#[test]
fn flat_archive_extracts_jars_into_mods() {
    let entries = vec![entry("a/b/c.jar", false), entry("readme.txt", false)];
    assert!(!has_server_layout(&entries));
    let plan = plan_extraction(&entries, "/srv/s");
    assert_eq!(target(&plan[0]), "file /srv/s/mods/c.jar");
    assert_eq!(target(&plan[1]), "skip");
    assert_eq!(target(&entry_action("x.jar", false, false, "/i")), "file /i/mods/x.jar");
}

#[test]
fn modpacks_listed_by_name() {
    let packs = vec![
        Modpack { id: 1, server_id: 1, name: "b".into(), format: ModpackFormat::Zip, source_path: "/b.zip".into() },
        Modpack { id: 2, server_id: 1, name: "a".into(), format: ModpackFormat::Mrpack, source_path: "/a.mrpack".into() },
        Modpack { id: 3, server_id: 1, name: "b".into(), format: ModpackFormat::Zip, source_path: "/b2.zip".into() },
    ];
    let ids: Vec<u128> = list_modpacks_sorted(packs).iter().map(|p| p.id).collect();
    assert_eq!(ids, vec![2, 1, 3]);
}

#[test]
fn validate_jar_rejects_plain_text() {
    assert!(validate_jar_bytes("/tmp/x.jar", b"hello world").is_err());
    assert!(validate_jar_bytes("/tmp/x.jar", b"PK\x03\x04rest").is_ok());
    assert!(matches!(
        validate_jar_bytes("/tmp/x.jar", b"PK"),
        Err(CubedError::InvalidJarHeader { .. })
    ));
}

#[test]
fn install_rejects_non_jar_extension() {
    assert!(matches!(
        mod_install_target("/tmp/readme.txt", "/srv/s/mods"),
        Err(CubedError::NotAJar { .. })
    ));
    assert!(matches!(mod_install_target("/", "/m"), Err(CubedError::InvalidPath { .. })));
    let t = mod_install_target("/downloads/sodium.jar", "/srv/s/mods").unwrap();
    assert_eq!(t.file_name, "sodium.jar");
    assert_eq!(t.destination, "/srv/s/mods/sodium.jar");
}

#[test]
fn list_and_remove_mod() {
    let mods = vec![
        ModEntry { id: 1, server_id: 1, file_name: "zeta.jar".into(), path: "/m/zeta.jar".into() },
        ModEntry { id: 2, server_id: 1, file_name: "alpha.jar".into(), path: "/m/alpha.jar".into() },
        ModEntry { id: 3, server_id: 1, file_name: "Beta.jar".into(), path: "/m/Beta.jar".into() },
    ];
    let names: Vec<String> = list_mods_sorted(mods).into_iter().map(|m| m.file_name).collect();
    assert_eq!(names, vec!["Beta.jar", "alpha.jar", "zeta.jar"]);
}
