use cubed::downloader::{
    fabric_installers_url, fabric_loaders_url, fabric_server_url, first_fabric_loader,
    forge_promotions_url, forge_url_from_promos, jar_name, latest_paper_build, neoforge_prefix,
    neoforge_url_from_versions, neoforge_versions_url, paper_builds_url, paper_url_from_builds,
    purpur_url, static_url, PaperBuild,
};
use cubed::error::CubedError;
use cubed::software::ServerSoftware;

#[test]
fn purpur_url_format() {
    let url = purpur_url("1.21.4");
    assert!(url.contains("1.21.4"));
    assert!(url.starts_with("https://"));
}

#[test]
fn purpur_url_exact() {
    assert_eq!(
        purpur_url("1.21.4"),
        "https://api.purpurmc.org/v2/purpur/1.21.4/latest/download"
    );
}

#[test]
fn static_url_purpur_ok() {
    assert!(static_url(&ServerSoftware::Purpur, "1.21.4").is_ok());
}

#[test]
fn static_url_paper_needs_network() {
    assert!(static_url(&ServerSoftware::Paper, "1.21.4").is_err());
}

#[test]
fn jar_name_format() {
    assert_eq!(jar_name(&ServerSoftware::Paper, "1.21.4"), "paper-1.21.4.jar");
    assert_eq!(jar_name(&ServerSoftware::Purpur, "1.21.4"), "purpur-1.21.4.jar");
    assert_eq!(jar_name(&ServerSoftware::Fabric, "1.21.4"), "fabric-1.21.4.jar");
}

#[test]
fn build_url_purpur_is_static() {
    let url = static_url(&ServerSoftware::Purpur, "1.21.4").unwrap();
    assert!(url.contains("purpur"));
    assert!(url.contains("1.21.4"));
}

#[test]
fn build_url_paper_requires_network() {
    assert!(static_url(&ServerSoftware::Paper, "1.21.4").is_err());
}

#[test]
fn static_url_names_the_software() {
    match static_url(&ServerSoftware::Forge, "1.20.1") {
        Err(CubedError::OnlineResolutionRequired { software }) => {
            assert_eq!(software, ServerSoftware::Forge)
        }
        _ => panic!("expected OnlineResolutionRequired"),
    }
}

#[test]
fn paper_picks_latest_build() {
    assert_eq!(
        paper_builds_url("1.21.4"),
        "https://api.papermc.io/v2/projects/paper/versions/1.21.4/builds"
    );
    let builds = vec![
        PaperBuild { build: 10, application_name: "paper-10.jar".into() },
        PaperBuild { build: 232, application_name: "paper-232.jar".into() },
        PaperBuild { build: 40, application_name: "paper-40.jar".into() },
    ];
    assert_eq!(latest_paper_build(&builds), Some(1));
    assert_eq!(
        paper_url_from_builds("1.21.4", &builds).unwrap(),
        "https://api.papermc.io/v2/projects/paper/versions/1.21.4/builds/232/downloads/paper-232.jar"
    );
    match paper_url_from_builds("1.99", &Vec::new()) {
        Err(CubedError::NoPaperBuilds { minecraft_version }) => assert_eq!(minecraft_version, "1.99"),
        _ => panic!("expected NoPaperBuilds"),
    }
}

#[test]
fn paper_ties_take_the_last() {
    let builds = vec![
        PaperBuild { build: 7, application_name: "a.jar".into() },
        PaperBuild { build: 7, application_name: "b.jar".into() },
    ];
    assert_eq!(latest_paper_build(&builds), Some(1));
}

#[test]
fn fabric_urls() {
    assert_eq!(
        fabric_loaders_url("1.21.4"),
        "https://meta.fabricmc.net/v2/versions/loader/1.21.4"
    );
    assert_eq!(fabric_installers_url(), "https://meta.fabricmc.net/v2/versions/installer");
    let loader = first_fabric_loader("1.21.4", &vec!["0.16.9".to_string(), "0.16.8".to_string()]).unwrap();
    assert_eq!(loader, "0.16.9");
    assert_eq!(
        fabric_server_url("1.21.4", &loader, &vec!["1.0.1".to_string()]).unwrap(),
        "https://meta.fabricmc.net/v2/versions/loader/1.21.4/0.16.9/1.0.1/server/jar"
    );
    assert!(matches!(
        first_fabric_loader("1.0", &Vec::new()),
        Err(CubedError::NoFabricLoader { .. })
    ));
    assert!(matches!(
        fabric_server_url("1.21.4", "0.16.9", &Vec::new()),
        Err(CubedError::NoFabricInstaller)
    ));
}

#[test]
fn forge_uses_recommended_then_latest() {
    assert_eq!(
        forge_promotions_url(),
        "https://files.minecraftforge.net/net/minecraftforge/forge/promotions_slim.json"
    );
    let promos = vec![
        ("1.20.1-latest".to_string(), "47.3.10".to_string()),
        ("1.20.1-recommended".to_string(), "47.3.0".to_string()),
        ("1.19.2-latest".to_string(), "43.4.0".to_string()),
    ];
    assert_eq!(
        forge_url_from_promos("1.20.1", &promos).unwrap(),
        "https://maven.minecraftforge.net/net/minecraftforge/forge/1.20.1-47.3.0/forge-1.20.1-47.3.0-installer.jar"
    );
    assert_eq!(
        forge_url_from_promos("1.19.2", &promos).unwrap(),
        "https://maven.minecraftforge.net/net/minecraftforge/forge/1.19.2-43.4.0/forge-1.19.2-43.4.0-installer.jar"
    );
    assert!(matches!(
        forge_url_from_promos("1.8", &promos),
        Err(CubedError::NoForgeVersion { .. })
    ));
}

#[test]
fn neoforge_matches_version_prefix() {
    assert_eq!(neoforge_prefix("1.21.4"), "21.4.");
    assert_eq!(neoforge_prefix("1.21"), "21.0.");
    assert_eq!(
        neoforge_versions_url("1.21.4"),
        "https://maven.neoforged.net/api/maven/versions/releases/net/neoforged/neoforge?filter=21.4."
    );
    let versions = vec![
        "21.4.1".to_string(),
        "21.3.9".to_string(),
        "21.4.10-beta".to_string(),
    ];
    assert_eq!(
        neoforge_url_from_versions("1.21.4", &versions).unwrap(),
        "https://maven.neoforged.net/releases/net/neoforged/neoforge/21.4.10-beta/neoforge-21.4.10-beta-installer.jar"
    );
    assert!(matches!(
        neoforge_url_from_versions("1.20.1", &Vec::new()),
        Err(CubedError::NoNeoForgeVersion { .. })
    ));
}
