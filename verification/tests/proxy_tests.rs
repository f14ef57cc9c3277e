use slv_rust::net_addr::SockAddr;
use slv_rust::proxy::{ProxyConfig, ProxyMode};

#[test]
fn detection_prefers_transparent_mode_when_hippolyzer_answers() {
    assert_eq!(ProxyMode::from_probes(true, true, false), ProxyMode::WinHippoAutoProxy);
    assert_eq!(ProxyMode::from_probes(true, false, false), ProxyMode::ManualSocks5);
    assert_eq!(ProxyMode::from_probes(false, false, true), ProxyMode::WinHippoAutoProxy);
    assert_eq!(ProxyMode::force(ProxyMode::Direct), ProxyMode::Direct);
}

#[test]
fn hippolyzer_settings_and_target_addresses() {
    let manual = ProxyConfig::hippolyzer_with_mode(ProxyMode::ManualSocks5);
    assert_eq!(manual.socks5_addr, Some(SockAddr::v4(127, 0, 0, 1, 9061)));
    assert_eq!(manual.http_addr, Some(SockAddr::v4(127, 0, 0, 1, 9062)));
    assert_eq!(manual.ca_cert_path.as_deref(), Some("src/assets/CA.pem"));
    assert!(manual.has_socks5() && manual.has_http() && manual.requires_manual_socks5());
    assert!(!manual.is_transparent_proxy());
    let dest = SockAddr::v4(8, 8, 8, 8, 13000);
    assert_eq!(manual.get_target_address(dest), SockAddr::v4(127, 0, 0, 1, 9061));

    let transparent = ProxyConfig::hippolyzer_with_mode(ProxyMode::WinHippoAutoProxy);
    assert!(transparent.is_transparent_proxy());
    assert_eq!(transparent.get_target_address(dest), dest);

    let direct = ProxyConfig::default();
    assert!(!direct.has_socks5() && !direct.has_http());
    assert_eq!(direct.get_target_address(dest), dest);

    let custom = ProxyConfig::hippolyzer(ProxyMode::Direct, "ca.pem");
    assert!(!custom.has_socks5());
    assert_eq!(custom.ca_cert_path.as_deref(), Some("ca.pem"));
}
