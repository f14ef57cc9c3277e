//! Proxy configuration: direct connections, a SOCKS5 proxy driven by the
//! client itself, or a transparent proxy that intercepts the client's UDP
//! traffic (WinHippoAutoProxy).

use vstd::prelude::*;
use crate::net_addr::SockAddr;

verus! {

/// How datagrams reach their destination.
#[derive(Debug, Clone, Copy, PartialEq, Eq, Structural)]
pub enum ProxyMode {
    /// No proxy: direct connections.
    Direct,
    /// The client speaks SOCKS5 to the proxy itself.
    ManualSocks5,
    /// A transparent proxy intercepts the client's UDP calls and handles SOCKS5.
    WinHippoAutoProxy,
}

/// The mode that probing the machine suggests: the transparent mode when
/// Hippolyzer answers on both of its ports or an external WinHippoAutoProxy
/// was detected, the manual SOCKS5 mode otherwise.
pub open spec fn detected_mode(socks5_port_open: bool, http_port_open: bool, external_autoproxy: bool) -> ProxyMode {
    if (socks5_port_open && http_port_open) || external_autoproxy {
        ProxyMode::WinHippoAutoProxy
    } else {
        ProxyMode::ManualSocks5
    }
}

impl ProxyMode {
    /// Chooses the mode from the results of probing the machine: whether
    /// Hippolyzer's SOCKS5 port (9061) and HTTP port (9062) accept
    /// connections, and whether an external WinHippoAutoProxy is known to run.
    pub fn from_probes(socks5_port_open: bool, http_port_open: bool, external_autoproxy: bool) -> (m: ProxyMode)
        ensures
            m == detected_mode(socks5_port_open, http_port_open, external_autoproxy),
    {
        let hippolyzer_running = socks5_port_open && http_port_open;
        if hippolyzer_running {
            return ProxyMode::WinHippoAutoProxy;
        }
        if external_autoproxy {
            return ProxyMode::WinHippoAutoProxy;
        }
        ProxyMode::ManualSocks5
    }

    /// Uses the given mode as it is (for tests or manual configuration).
    pub fn force(mode: ProxyMode) -> (m: ProxyMode)
        ensures
            m == mode,
    {
        mode
    }
}

/// Proxy settings.
#[derive(Debug, Clone)]
pub struct ProxyConfig {
    pub mode: ProxyMode,
    /// SOCKS5 proxy address (e.g. 127.0.0.1:9061).
    pub socks5_addr: Option<SockAddr>,
    /// HTTP proxy address (e.g. 127.0.0.1:9062).
    pub http_addr: Option<SockAddr>,
    pub username: Option<String>,
    pub password: Option<String>,
    /// Path of the CA certificate for HTTPS through the proxy.
    pub ca_cert_path: Option<String>,
}

/// Hippolyzer's SOCKS5 port on the loopback address.
pub open spec fn is_hippolyzer_socks5(a: SockAddr) -> bool {
    a@.ip == crate::net_addr::IpView::V4(seq![127u8, 0u8, 0u8, 1u8]) && a.port == 9061
}

/// Hippolyzer's HTTP port on the loopback address.
pub open spec fn is_hippolyzer_http(a: SockAddr) -> bool {
    a@.ip == crate::net_addr::IpView::V4(seq![127u8, 0u8, 0u8, 1u8]) && a.port == 9062
}

impl Default for ProxyConfig {
    fn default() -> (c: Self)
        ensures
            c.mode == ProxyMode::Direct,
            c.socks5_addr.is_none(),
            c.http_addr.is_none(),
            c.username.is_none(),
            c.password.is_none(),
            c.ca_cert_path.is_none(),
    {
        ProxyConfig {
            mode: ProxyMode::Direct,
            socks5_addr: None,
            http_addr: None,
            username: None,
            password: None,
            ca_cert_path: None,
        }
    }
}

impl ProxyConfig {
    /// Settings for Hippolyzer (SOCKS5 on 127.0.0.1:9061, HTTP on
    /// 127.0.0.1:9062, no credentials) in `mode`, with the CA certificate at
    /// `ca_cert_path`.
    pub fn hippolyzer(mode: ProxyMode, ca_cert_path: &str) -> (c: Self)
        ensures
            c.mode == mode,
            c.socks5_addr matches Some(a) && is_hippolyzer_socks5(a),
            c.http_addr matches Some(a) && is_hippolyzer_http(a),
            c.username.is_none(),
            c.password.is_none(),
            c.ca_cert_path matches Some(p) && p@ == ca_cert_path@,
    {
        ProxyConfig {
            mode,
            socks5_addr: Some(SockAddr::v4(127, 0, 0, 1, 9061)),
            http_addr: Some(SockAddr::v4(127, 0, 0, 1, 9062)),
            username: None,
            password: None,
            ca_cert_path: Some(String::from_str(ca_cert_path)),
        }
    }

    /// Settings for Hippolyzer in the given mode, with the CA certificate at
    /// `src/assets/CA.pem`.
    pub fn hippolyzer_with_mode(mode: ProxyMode) -> (c: Self)
        ensures
            c.mode == mode,
            c.socks5_addr matches Some(a) && is_hippolyzer_socks5(a),
            c.http_addr matches Some(a) && is_hippolyzer_http(a),
            c.username.is_none(),
            c.password.is_none(),
            c.ca_cert_path matches Some(p) && p@ == "src/assets/CA.pem"@,
    {
        let forced_mode = ProxyMode::force(mode);
        Self::hippolyzer(forced_mode, "src/assets/CA.pem")
    }

    /// Whether a SOCKS5 proxy is in use.
    pub fn has_socks5(&self) -> (b: bool)
        ensures
            b <==> self.socks5_addr.is_some() && self.mode != ProxyMode::Direct,
    {
        self.socks5_addr.is_some() && self.mode != ProxyMode::Direct
    }

    /// Whether an HTTP proxy is in use.
    pub fn has_http(&self) -> (b: bool)
        ensures
            b <==> self.http_addr.is_some() && self.mode != ProxyMode::Direct,
    {
        self.http_addr.is_some() && self.mode != ProxyMode::Direct
    }

    /// Whether the client must speak SOCKS5 itself.
    pub fn requires_manual_socks5(&self) -> (b: bool)
        ensures
            b <==> self.mode == ProxyMode::ManualSocks5 && self.socks5_addr.is_some(),
    {
        self.mode == ProxyMode::ManualSocks5 && self.has_socks5()
    }

    /// Whether a transparent proxy handles SOCKS5.
    pub fn is_transparent_proxy(&self) -> (b: bool)
        ensures
            b <==> self.mode == ProxyMode::WinHippoAutoProxy,
    {
        self.mode == ProxyMode::WinHippoAutoProxy
    }

    /// Where datagrams for `original_dest` are sent: to the SOCKS5 proxy in
    /// the manual mode when one is set, to the destination itself otherwise.
    pub fn get_target_address(&self, original_dest: SockAddr) -> (a: SockAddr)
        ensures
            a == (match (self.mode, self.socks5_addr) {
                (ProxyMode::ManualSocks5, Some(p)) => p,
                _ => original_dest,
            }),
    {
        match self.mode {
            ProxyMode::WinHippoAutoProxy | ProxyMode::Direct => original_dest,
            ProxyMode::ManualSocks5 => match self.socks5_addr {
                Some(p) => p,
                None => original_dest,
            },
        }
    }
}

} // verus!
