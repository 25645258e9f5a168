use cubed::error::CubedError;
use cubed::ports::{suggest_free_port, TcpPortManager};
use cubed::tailscale::{
    connect_address, status_from_fields, status_from_output, status_from_run, status_to_dto,
    tailscale_ip, RunOutput, TailscaleNetworkManager, TailscaleStatus,
};

const CONNECTED_JSON: &str = r#"{"BackendState":"Running","Self":{"HostName":"box","TailscaleIPs":["100.64.0.7","fd7a::7"]}}"#;

#[test]
fn connected_status_from_json() {
    let s = status_from_output(true, CONNECTED_JSON.as_bytes());
    match &s {
        TailscaleStatus::Connected { ip, hostname } => {
            assert_eq!(ip, "100.64.0.7");
            assert_eq!(hostname, "box");
        }
        _ => panic!("expected Connected"),
    }
    assert_eq!(tailscale_ip(&s).as_deref(), Some("100.64.0.7"));
    let dto = status_to_dto(&s);
    assert_eq!(dto.state, "connected");
    assert_eq!(dto.hostname.as_deref(), Some("box"));
}

#[test]
fn disconnected_statuses() {
    assert!(matches!(status_from_output(false, CONNECTED_JSON.as_bytes()), TailscaleStatus::Disconnected));
    assert!(matches!(status_from_output(true, b"not json"), TailscaleStatus::Disconnected));
    assert!(matches!(
        status_from_output(true, br#"{"BackendState":"Stopped"}"#),
        TailscaleStatus::Disconnected
    ));
    assert!(matches!(
        status_from_output(true, br#"{"BackendState":"Running","Self":{"TailscaleIPs":[]}}"#),
        TailscaleStatus::Disconnected
    ));
    assert!(matches!(status_from_fields(None, Some("1.2.3.4".into()), None), TailscaleStatus::Disconnected));
    let dto = status_to_dto(&TailscaleStatus::NotInstalled);
    assert_eq!(dto.state, "not_installed");
    assert!(dto.ip.is_none());
    assert_eq!(status_to_dto(&TailscaleStatus::Disconnected).state, "disconnected");
}

#[test]
fn status_returns_valid_variant() {
    assert!(matches!(status_from_run(false, None), Ok(TailscaleStatus::NotInstalled)));
    assert!(matches!(status_from_run(true, None), Err(CubedError::TailscaleUnavailable)));
    let run = RunOutput { success: true, stdout: CONNECTED_JSON.as_bytes().to_vec() };
    assert!(matches!(status_from_run(true, Some(run)), Ok(TailscaleStatus::Connected { .. })));
}

#[test]
fn tailscale_ip_consistent_with_status() {
    assert!(tailscale_ip(&TailscaleStatus::Disconnected).is_none());
    assert!(tailscale_ip(&TailscaleStatus::NotInstalled).is_none());
}

#[test]
fn connect_address_joins_ip_and_port() {
    assert_eq!(connect_address(Some("100.64.0.7".into()), 25565).as_deref(), Some("100.64.0.7:25565"));
    assert!(connect_address(None, 25565).is_none());
}

#[test]
fn binary_lookup_order() {
    assert_eq!(TailscaleNetworkManager::find_binary(|| true, |_p: &str| true).as_deref(), Some("tailscale"));
    assert_eq!(
        TailscaleNetworkManager::find_binary(|| false, |p: &str| p == "/snap/bin/tailscale").as_deref(),
        Some("/snap/bin/tailscale")
    );
    assert_eq!(
        TailscaleNetworkManager::find_binary(|| false, |p: &str| p != "/usr/bin/tailscale").as_deref(),
        Some("/usr/local/bin/tailscale")
    );
    assert!(TailscaleNetworkManager::find_binary(|| false, |_p: &str| false).is_none());
}

#[test]
fn validate_privileged_port_fails() {
    let mgr = TcpPortManager::new();
    assert!(matches!(mgr.validate(80, |_p: u16| true), Err(CubedError::PortReserved { port: 80 })));
    assert!(matches!(mgr.validate(25565, |_p: u16| false), Err(CubedError::PortBusy { port: 25565 })));
    assert!(mgr.validate(25565, |_p: u16| true).is_ok());
}

#[test]
fn find_free_skips_bound_port() {
    let mgr = TcpPortManager::new();
    assert_eq!(mgr.find_free_from(25565, |p: u16| p != 25565).unwrap(), 25566);
    assert_eq!(mgr.find_free_from(10, |_p: u16| true).unwrap(), 1024);
    assert!(matches!(
        mgr.find_free_from(65535, |_p: u16| false),
        Err(CubedError::NoFreePort { start: 65535 })
    ));
}

#[test]
fn suggested_port_avoids_registered_and_busy_ports() {
    let used = vec![25565, 25566];
    assert_eq!(suggest_free_port(&used, |p: u16| p != 25567).unwrap(), 25568);
    assert_eq!(suggest_free_port(&Vec::new(), |_p: u16| true).unwrap(), 25565);
    assert!(matches!(
        suggest_free_port(&used, |_p: u16| false),
        Err(CubedError::NoFreePort { start: 25565 })
    ));
}

#[test]
fn validate_bound_port_fails() {
    let mgr = TcpPortManager::new();
    let bound = 40000u16;
    assert!(mgr.validate(bound, |p: u16| p != bound).is_err());
}

#[test]
fn find_free_returns_a_port() {
    let mgr = TcpPortManager::new();
    let p = mgr.find_free_from(30000, |p: u16| p % 7 == 0).unwrap();
    assert!(p >= 30000);
    assert_eq!(p % 7, 0);
    assert_eq!(p, 30002);
}

#[test]
fn default_managers_behave_as_new() {
    let ports = TcpPortManager::default();
    assert_eq!(ports.find_free_from(25565, |p: u16| p != 25565).unwrap(), 25566);
    assert!(matches!(ports.validate(80, |_p: u16| true), Err(CubedError::PortReserved { port: 80 })));
    let _tailscale: TailscaleNetworkManager = Default::default();
    let _java: cubed::java::SystemJavaManager = Default::default();
}
