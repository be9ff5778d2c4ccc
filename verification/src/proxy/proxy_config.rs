//! The listener's address and its published status.

use vstd::prelude::*;
use vstd::string::*;

use crate::config::{clone_opt, opt_view};
use crate::text::concat;

verus! {

/// Where the proxy listens.
#[derive(Debug)]
pub struct ProxyConfig {
    /// The address to bind, as an IP literal.
    pub host: String,
    /// The port to bind.
    pub port: u16,
}

/// The mathematical content of a [`ProxyConfig`].
pub struct ProxyConfigView {
    pub host: Seq<char>,
    pub port: u16,
}

impl View for ProxyConfig {
    type V = ProxyConfigView;

    open spec fn view(&self) -> ProxyConfigView {
        ProxyConfigView { host: self.host@, port: self.port }
    }
}

impl Clone for ProxyConfig {
    fn clone(&self) -> (r: Self)
        ensures
            r@ == self@,
    {
        ProxyConfig { host: self.host.clone(), port: self.port }
    }
}

impl Default for ProxyConfig {
    fn default() -> (r: Self)
        ensures
            r@.host == "127.0.0.1"@,
            r@.port == 15288,
    {
        ProxyConfig { host: String::from_str("127.0.0.1"), port: 15288 }
    }
}

/// What `validate` answers for a configuration whose host does or does not
/// read as an IP address: the host is checked first, then the port.
pub open spec fn validation_of(config: ProxyConfigView, host_is_ip: bool) -> Result<
    (),
    Seq<char>,
> {
    if !host_is_ip {
        Err("Invalid host address: "@ + config.host)
    } else if config.port == 0 {
        Err("Port cannot be 0"@)
    } else {
        Ok(())
    }
}

/// The view of a validation result.
pub open spec fn outcome_view(r: Result<(), String>) -> Result<(), Seq<char>> {
    match r {
        Ok(_) => Ok(()),
        Err(e) => Err(e@),
    }
}

impl ProxyConfig {
    /// Checks the configuration. `host_is_ip` says whether the host reads as
    /// an IPv4 or IPv6 address, which the caller finds out.
    pub fn validate(&self, host_is_ip: bool) -> (r: Result<(), String>)
        ensures
            outcome_view(r) == validation_of(self@, host_is_ip),
            r is Ok <==> host_is_ip && self@.port != 0,
    {
        if !host_is_ip {
            return Err(concat("Invalid host address: ", self.host.as_str()));
        }
        if self.port == 0 {
            return Err(String::from_str("Port cannot be 0"));
        }
        Ok(())
    }

    /// The key under which the configuration is persisted.
    pub fn config_key() -> (r: &'static str)
        ensures
            r@ == "proxy_server_config"@,
    {
        "proxy_server_config"
    }

    /// The key under which the listener's status is persisted.
    pub fn status_key() -> (r: &'static str)
        ensures
            r@ == "proxy_server_status"@,
    {
        "proxy_server_status"
    }
}

/// What the listener publishes about itself.
#[derive(Debug)]
pub struct ProxyServerStatus {
    pub is_running: bool,
    /// The bound address, while running.
    pub addr: Option<String>,
    /// When the listener was started, in seconds since the Unix epoch.
    pub started_at: Option<i64>,
    pub total_requests: u64,
    /// Why the listener last failed to start.
    pub last_error: Option<String>,
}

/// The mathematical content of a [`ProxyServerStatus`].
pub struct ProxyServerStatusView {
    pub is_running: bool,
    pub addr: Option<Seq<char>>,
    pub started_at: Option<i64>,
    pub total_requests: u64,
    pub last_error: Option<Seq<char>>,
}

impl View for ProxyServerStatus {
    type V = ProxyServerStatusView;

    open spec fn view(&self) -> ProxyServerStatusView {
        ProxyServerStatusView {
            is_running: self.is_running,
            addr: opt_view(self.addr),
            started_at: self.started_at,
            total_requests: self.total_requests,
            last_error: opt_view(self.last_error),
        }
    }
}

impl Clone for ProxyServerStatus {
    fn clone(&self) -> (r: Self)
        ensures
            r@ == self@,
    {
        ProxyServerStatus {
            is_running: self.is_running,
            addr: clone_opt(&self.addr),
            started_at: self.started_at,
            total_requests: self.total_requests,
            last_error: clone_opt(&self.last_error),
        }
    }
}

/// The status of a listener that has not run yet.
pub open spec fn idle_status() -> ProxyServerStatusView {
    ProxyServerStatusView {
        is_running: false,
        addr: None,
        started_at: None,
        total_requests: 0,
        last_error: None,
    }
}

impl Default for ProxyServerStatus {
    fn default() -> (r: Self)
        ensures
            r@ == idle_status(),
    {
        ProxyServerStatus {
            is_running: false,
            addr: None,
            started_at: None,
            total_requests: 0,
            last_error: None,
        }
    }
}

} // verus!
