use prism_proxy::proxy::proxy_config::{ProxyConfig, ProxyServerStatus};

#[test]
fn test_default_config() {
    let config = ProxyConfig::default();
    assert_eq!(config.host, "127.0.0.1");
    assert_eq!(config.port, 15288);
    assert!(config.validate(true).is_ok());
}

#[test]
fn test_config_validation() {
    let config = ProxyConfig { host: "invalid.ip.address".to_string(), port: 15288 };
    assert!(config.validate(false).is_err());

    let config = ProxyConfig { host: "0.0.0.0".to_string(), port: 0 };
    assert!(config.validate(true).is_err());
}

#[test]
fn validation_names_the_fault() {
    let bad_host = ProxyConfig { host: "nowhere".to_string(), port: 0 };
    assert_eq!(bad_host.validate(false), Err("Invalid host address: nowhere".to_string()));
    let bad_port = ProxyConfig { host: "0.0.0.0".to_string(), port: 0 };
    assert_eq!(bad_port.validate(true), Err("Port cannot be 0".to_string()));
    let fine = ProxyConfig { host: "::1".to_string(), port: 1 };
    assert_eq!(fine.validate(true), Ok(()));
}

#[test]
fn persistence_keys_are_fixed() {
    assert_eq!(ProxyConfig::config_key(), "proxy_server_config");
    assert_eq!(ProxyConfig::status_key(), "proxy_server_status");
}

#[test]
fn default_status_is_idle() {
    let s = ProxyServerStatus::default();
    assert!(!s.is_running);
    assert!(s.addr.is_none());
    assert!(s.started_at.is_none());
    assert_eq!(s.total_requests, 0);
    assert!(s.last_error.is_none());
}
