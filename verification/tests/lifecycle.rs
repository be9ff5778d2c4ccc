use prism_proxy::proxy::lifecycle::{Action, Command, Controller, Phase};
use prism_proxy::proxy::proxy_config::{ProxyConfig, ProxyServerStatus};

fn config(port: u16) -> ProxyConfig {
    ProxyConfig { host: "127.0.0.1".to_string(), port }
}

fn serving(port: u16, now: i64) -> Controller {
    let mut c = Controller::new(config(port), ProxyServerStatus::default());
    assert_eq!(c.start(true), Action::Bind);
    assert_eq!(c.bound(format!("127.0.0.1:{}", port), now), Action::Serve);
    c
}

#[test]
fn stale_running_status_is_reset_on_startup() {
    let stale = ProxyServerStatus {
        is_running: true,
        addr: Some("127.0.0.1:1".to_string()),
        started_at: Some(5),
        total_requests: 9,
        last_error: Some("old".to_string()),
    };
    let c = Controller::new(config(15288), stale);
    assert_eq!(c.phase, Phase::Starting);
    assert!(!c.status.is_running);
    assert_eq!(c.status.total_requests, 9);
    assert_eq!(c.status.addr.as_deref(), Some("127.0.0.1:1"));
}

#[test]
fn valid_config_is_bound_and_served() {
    let c = serving(15288, 1000);
    assert_eq!(c.phase, Phase::Serving);
    assert!(c.status.is_running);
    assert_eq!(c.status.addr.as_deref(), Some("127.0.0.1:15288"));
    assert_eq!(c.status.started_at, Some(1000));
    assert_eq!(c.status.last_error, None);
}

#[test]
fn invalid_config_parks_the_controller() {
    let mut c = Controller::new(config(0), ProxyServerStatus::default());
    assert_eq!(c.start(true), Action::Park);
    assert_eq!(c.phase, Phase::Idle);
    assert!(!c.status.is_running);
    assert_eq!(c.status.last_error.as_deref(), Some("Port cannot be 0"));
    let mut d = Controller::new(
        ProxyConfig { host: "nowhere".to_string(), port: 1 },
        ProxyServerStatus::default(),
    );
    assert_eq!(d.start(false), Action::Park);
    assert_eq!(d.status.last_error.as_deref(), Some("Invalid host address: nowhere"));
}

#[test]
fn bind_failure_parks_and_a_valid_config_restores_service() {
    let mut c = Controller::new(config(80), ProxyServerStatus::default());
    assert_eq!(c.start(true), Action::Bind);
    assert_eq!(c.bind_failed("permission denied".to_string()), Action::Park);
    assert_eq!(c.phase, Phase::Idle);
    assert!(!c.status.is_running);
    assert_eq!(c.status.last_error.as_deref(), Some("permission denied"));
    assert_eq!(c.command(Some(Command::Restart(config(15299)))), Action::Validate);
    assert_eq!(c.phase, Phase::Starting);
    assert_eq!(c.current.port, 15299);
    assert_eq!(c.start(true), Action::Bind);
    assert_eq!(c.bound("127.0.0.1:15299".to_string(), 7), Action::Serve);
    assert!(c.status.is_running);
    assert_eq!(c.status.last_error, None);
    assert_eq!(c.status.addr.as_deref(), Some("127.0.0.1:15299"));
}

#[test]
fn restart_listener_scenario() {
    let mut c = serving(15288, 1000);
    assert_eq!(c.command(Some(Command::Restart(config(15299)))), Action::StopThenValidate);
    assert_eq!(c.phase, Phase::Starting);
    assert!(!c.status.is_running);
    assert_eq!(c.status.addr, None);
    assert_eq!(c.start(true), Action::Bind);
    assert_eq!(c.bound("127.0.0.1:15299".to_string(), 2000), Action::Serve);
    assert_eq!(c.status.addr.as_deref(), Some("127.0.0.1:15299"));
    assert_eq!(c.status.started_at, Some(2000));
    assert_eq!(c.status.last_error, None);
    assert!(c.status.is_running);
}

#[test]
fn shutdown_and_closed_mailbox_end_the_controller() {
    let mut c = serving(15288, 1);
    assert_eq!(c.command(Some(Command::Shutdown)), Action::StopThenExit);
    assert_eq!(c.phase, Phase::Stopped);
    assert!(!c.status.is_running);
    assert_eq!(c.command(Some(Command::Restart(config(1)))), Action::Exit);
    assert_eq!(c.phase, Phase::Stopped);
    let mut d = Controller::new(config(0), ProxyServerStatus::default());
    d.start(true);
    assert_eq!(d.command(None), Action::Exit);
    assert_eq!(d.phase, Phase::Stopped);
    let mut e = serving(2, 2);
    assert_eq!(e.command(None), Action::StopThenExit);
}

#[test]
fn reports_out_of_turn_change_nothing() {
    let mut c = serving(15288, 1);
    assert_eq!(c.start(false), Action::Park);
    assert_eq!(c.bound("x".to_string(), 9), Action::Park);
    assert_eq!(c.bind_failed("x".to_string()), Action::Park);
    assert_eq!(c.phase, Phase::Serving);
    assert_eq!(c.status.started_at, Some(1));
    assert_eq!(c.status.last_error, None);
    let mut d = Controller::new(config(5), ProxyServerStatus::default());
    assert_eq!(d.command(Some(Command::Shutdown)), Action::Park);
    assert_eq!(d.phase, Phase::Starting);
    assert_eq!(d.current.port, 5);
}
