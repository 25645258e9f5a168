use cubed::error::CubedError;
use cubed::java::{
    assemble_installations, candidate_paths, installation_from_output, java_home_binary,
    min_java_for_minecraft, parse_major_version, select_for_required, sort_newest_first,
    which_output_path, JavaInstallation, ProbedPath, SystemJavaManager,
};

fn inst(path: &str, major: u32) -> JavaInstallation {
    JavaInstallation {
        path: path.to_string(),
        major_version: major,
        version_string: format!("openjdk {}", major),
    }
}

#[test]
fn min_java_for_old_minecraft_is_8() {
    assert_eq!(min_java_for_minecraft("1.16.5"), 8);
}

#[test]
fn min_java_for_1_17_is_16() {
    assert_eq!(min_java_for_minecraft("1.17.1"), 16);
}

#[test]
fn min_java_for_1_18_is_17() {
    assert_eq!(min_java_for_minecraft("1.18.2"), 17);
}

#[test]
fn min_java_for_1_20_5_is_21() {
    assert_eq!(min_java_for_minecraft("1.20.5"), 21);
}

#[test]
fn min_java_for_1_21_is_21() {
    assert_eq!(min_java_for_minecraft("1.21.4"), 21);
}

#[test]
fn parse_modern_java_version() {
    let out = r#"openjdk version "21.0.3" 2024-04-16
OpenJDK Runtime Environment (build 21.0.3+9-Ubuntu-1ubuntu122.04)
OpenJDK 64-Bit Server VM (build 21.0.3+9-Ubuntu-1ubuntu122.04, mixed mode, sharing)"#;
    assert_eq!(parse_major_version(out), Some(21));
}

#[test]
fn parse_java_8_version() {
    let out = r#"java version "1.8.0_412"
Java(TM) SE Runtime Environment (build 1.8.0_412-b08)
Java HotSpot(TM) 64-Bit Server VM (build 25.412-b08, mixed mode)"#;
    assert_eq!(parse_major_version(out), Some(8));
}

#[test]
fn parse_java_17_version() {
    let out = r#"openjdk version "17.0.11" 2024-04-16
OpenJDK Runtime Environment (build 17.0.11+9-Ubuntu-122.04.1)
OpenJDK 64-Bit Server VM (build 17.0.11+9-Ubuntu-122.04.1, mixed mode, sharing)"#;
    assert_eq!(parse_major_version(out), Some(17));
}

#[test]
fn validate_compatible_java() {
    let mgr = SystemJavaManager::new();
    let java = JavaInstallation {
        path: "/usr/bin/java".into(),
        major_version: 21,
        version_string: "openjdk 21".into(),
    };
    assert!(mgr.validate_compatibility(&java, "1.21.4").is_ok());
}

#[test]
fn validate_incompatible_java() {
    let mgr = SystemJavaManager::new();
    let java = JavaInstallation {
        path: "/usr/bin/java".into(),
        major_version: 11,
        version_string: "openjdk 11".into(),
    };
    assert!(mgr.validate_compatibility(&java, "1.21.4").is_err());
}

#[test]
fn incompatible_java_error_names_versions() {
    let mgr = SystemJavaManager::new();
    match mgr.validate_compatibility(&inst("/usr/bin/java", 11), "1.21.4") {
        Err(CubedError::JavaTooOld { minecraft_version, required, found }) => {
            assert_eq!(minecraft_version, "1.21.4");
            assert_eq!(required, 21);
            assert_eq!(found, 11);
        }
        _ => panic!("expected JavaTooOld"),
    }
}

#[test]
fn min_java_edge_versions() {
    assert_eq!(min_java_for_minecraft("1.20.4"), 17);
    assert_eq!(min_java_for_minecraft("1.20"), 17);
    assert_eq!(min_java_for_minecraft("1.21"), 21);
    assert_eq!(min_java_for_minecraft("1.17"), 16);
    assert_eq!(min_java_for_minecraft("1"), 8);
    assert_eq!(min_java_for_minecraft(""), 8);
    assert_eq!(min_java_for_minecraft("snapshot"), 8);
}

#[test]
fn parse_version_without_quotes_is_none() {
    assert_eq!(parse_major_version("no version here"), None);
    assert_eq!(parse_major_version("openjdk version \"abc\""), None);
}

#[test]
fn installation_from_output_keeps_first_line_trimmed() {
    let out = "  openjdk version \"17.0.2\" 2022-01-18  \nOpenJDK Runtime";
    let i = installation_from_output("/opt/java", out).unwrap();
    assert_eq!(i.path, "/opt/java");
    assert_eq!(i.major_version, 17);
    assert_eq!(i.version_string, "openjdk version \"17.0.2\" 2022-01-18");
    assert!(installation_from_output("/opt/java", "garbage").is_none());
}

#[test]
fn java_home_binary_appends_bin_java() {
    assert_eq!(java_home_binary("/opt/jdk-21"), "/opt/jdk-21/bin/java");
}

#[test]
fn select_prefers_lowest_compatible() {
    let all = vec![inst("/a", 21), inst("/b", 17), inst("/c", 8), inst("/d", 17)];
    let chosen = select_for_required(&all, 16).unwrap();
    assert_eq!(chosen.path, "/b");
    let mgr = SystemJavaManager::new();
    assert_eq!(mgr.select_for_version(&all, "1.21.4").unwrap().path, "/a");
    match select_for_required(&all, 22) {
        Err(CubedError::NoCompatibleJava { required }) => assert_eq!(required, 22),
        _ => panic!("expected NoCompatibleJava"),
    }
}

#[test]
fn sort_is_newest_first_and_stable() {
    let all = vec![inst("/a", 8), inst("/b", 21), inst("/c", 8), inst("/d", 17)];
    let sorted = sort_newest_first(&all);
    let paths: Vec<&str> = sorted.iter().map(|i| i.path.as_str()).collect();
    assert_eq!(paths, vec!["/b", "/d", "/a", "/c"]);
}

#[test]
fn detection_dedups_and_sorts() {
    assert_eq!(candidate_paths().len(), 10);
    assert_eq!(candidate_paths()[0], "/usr/bin/java");
    let answers = vec![
        Some(inst("/usr/bin/java", 17)),
        None,
        Some(inst("/usr/bin/java", 17)),
        Some(inst("/usr/lib/jvm/java-21-openjdk-amd64/bin/java", 21)),
    ];
    let which = Some(ProbedPath {
        path: which_output_path("/usr/bin/java\n"),
        answer: Some(inst("/usr/bin/java", 17)),
    });
    let home = Some(ProbedPath {
        path: java_home_binary("/opt/jdk8"),
        answer: Some(inst("/opt/jdk8/bin/java", 8)),
    });
    let found = assemble_installations(answers, which, home);
    let paths: Vec<&str> = found.iter().map(|i| i.path.as_str()).collect();
    assert_eq!(
        paths,
        vec![
            "/usr/lib/jvm/java-21-openjdk-amd64/bin/java",
            "/usr/bin/java",
            "/opt/jdk8/bin/java"
        ]
    );
}

#[test]
fn detection_ignores_empty_which_output() {
    let which = Some(ProbedPath {
        path: which_output_path("  \n"),
        answer: Some(inst("", 21)),
    });
    let found = assemble_installations(vec![None], which, None);
    assert!(found.is_empty());
}

#[test]
fn detect_finds_something_or_empty() {
    let none: Vec<Option<JavaInstallation>> = candidate_paths().iter().map(|_| None).collect();
    assert!(assemble_installations(none, None, None).is_empty());
}
