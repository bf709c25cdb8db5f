//! Configuration values and the defaults that apply where one is missing.

use vstd::prelude::*;
use crate::text::{
    append_chars, copy_opt, copy_strings, decimal, lowercase, lowercase_text, push_decimal, same_text, string_of, strs,
};

verus! {

/// Which kind of controller the daemon connects to.
#[derive(Clone, Copy, Debug, PartialEq, Eq, Structural)]
pub enum ConnectionMode {
    /// The cloud service (the default).
    AHandCloud,
    /// A gateway, as one of its nodes.
    OpenClawGateway,
}

/// The mode that a lowercase name stands for.
pub open spec fn mode_named(lower: Seq<char>) -> ConnectionMode {
    if lower == "openclaw-gateway"@ || lower == "openclaw"@ {
        ConnectionMode::OpenClawGateway
    } else {
        ConnectionMode::AHandCloud
    }
}

impl Default for ConnectionMode {
    fn default() -> (m: ConnectionMode)
        ensures
            m == ConnectionMode::AHandCloud,
    {
        ConnectionMode::AHandCloud
    }
}

impl ConnectionMode {
    /// The mode for a name that is already in lowercase.
    pub fn from_lowercase(lower: &str) -> (m: ConnectionMode)
        ensures
            m == mode_named(lower@),
    {
        if same_text(lower, "openclaw-gateway") || same_text(lower, "openclaw") {
            ConnectionMode::OpenClawGateway
        } else {
            ConnectionMode::AHandCloud
        }
    }

    /// The mode for a name, whatever its case; unknown names mean the cloud.
    pub fn from_str(s: &str) -> (m: ConnectionMode)
        ensures
            m == mode_named(lowercase_text(s@)),
    {
        let lower = lowercase(s);
        ConnectionMode::from_lowercase(lower.as_str())
    }
}

/// Seconds to wait for an approval where the configuration names none.
pub fn default_approval_timeout() -> (secs: u64)
    ensures
        secs == 86400,
{
    86400
}

/// Controller endpoint where the configuration names none.
pub fn default_server_url() -> (url: String)
    ensures
        url@ == "ws://localhost:3000/ws"@,
{
    "ws://localhost:3000/ws".to_string()
}

/// The consent policy.
#[derive(Clone, Debug, PartialEq, Eq)]
pub struct PolicyConfig {
    /// If non-empty, only these tools run without approval.
    pub allowed_tools: Vec<String>,
    /// Working directories below these prefixes are refused.
    pub denied_paths: Vec<String>,
    /// Tools that are always refused.
    pub denied_tools: Vec<String>,
    /// Domains that network tools may reach without approval.
    pub allowed_domains: Vec<String>,
    /// Seconds to wait for an approval.
    pub approval_timeout_secs: u64,
}

/// Mathematical content of a [`PolicyConfig`].
pub struct PolicyView {
    pub allowed_tools: Seq<Seq<char>>,
    pub denied_paths: Seq<Seq<char>>,
    pub denied_tools: Seq<Seq<char>>,
    pub allowed_domains: Seq<Seq<char>>,
    pub approval_timeout_secs: u64,
}

impl View for PolicyConfig {
    type V = PolicyView;

    open spec fn view(&self) -> PolicyView {
        PolicyView {
            allowed_tools: strs(self.allowed_tools@),
            denied_paths: strs(self.denied_paths@),
            denied_tools: strs(self.denied_tools@),
            allowed_domains: strs(self.allowed_domains@),
            approval_timeout_secs: self.approval_timeout_secs,
        }
    }
}

impl Default for PolicyConfig {
    fn default() -> (c: PolicyConfig)
        ensures
            c@.allowed_tools.len() == 0,
            c@.denied_paths.len() == 0,
            c@.denied_tools.len() == 0,
            c@.allowed_domains.len() == 0,
            c@.approval_timeout_secs == 86400,
    {
        PolicyConfig {
            allowed_tools: Vec::new(),
            denied_paths: Vec::new(),
            denied_tools: Vec::new(),
            allowed_domains: Vec::new(),
            approval_timeout_secs: default_approval_timeout(),
        }
    }
}

impl PolicyConfig {
    /// A deep copy.
    pub fn duplicate(&self) -> (c: PolicyConfig)
        ensures
            c@ == self@,
    {
        PolicyConfig {
            allowed_tools: copy_strings(&self.allowed_tools),
            denied_paths: copy_strings(&self.denied_paths),
            denied_tools: copy_strings(&self.denied_tools),
            allowed_domains: copy_strings(&self.allowed_domains),
            approval_timeout_secs: self.approval_timeout_secs,
        }
    }
}

/// How to reach a gateway.
#[derive(Clone, Debug, PartialEq, Eq)]
pub struct OpenClawConfig {
    pub gateway_host: Option<String>,
    pub gateway_port: Option<u16>,
    pub gateway_tls: Option<bool>,
    pub gateway_tls_fingerprint: Option<String>,
    pub node_id: Option<String>,
    pub display_name: Option<String>,
    pub auth_token: Option<String>,
    pub auth_password: Option<String>,
    pub exec_approvals_path: Option<String>,
}

impl OpenClawConfig {
    /// The configuration in which nothing is set.
    pub open spec fn unset() -> OpenClawConfig {
        OpenClawConfig {
            gateway_host: None,
            gateway_port: None,
            gateway_tls: None,
            gateway_tls_fingerprint: None,
            node_id: None,
            display_name: None,
            auth_token: None,
            auth_password: None,
            exec_approvals_path: None,
        }
    }

    /// A deep copy.
    pub fn duplicate(&self) -> (c: OpenClawConfig)
        ensures
            c == *self,
    {
        OpenClawConfig {
            gateway_host: copy_opt(&self.gateway_host),
            gateway_port: self.gateway_port,
            gateway_tls: self.gateway_tls,
            gateway_tls_fingerprint: copy_opt(&self.gateway_tls_fingerprint),
            node_id: copy_opt(&self.node_id),
            display_name: copy_opt(&self.display_name),
            auth_token: copy_opt(&self.auth_token),
            auth_password: copy_opt(&self.auth_password),
            exec_approvals_path: copy_opt(&self.exec_approvals_path),
        }
    }
}

/// The gateway's address: `ws` or `wss`, the host (`127.0.0.1` if none is
/// set) and the port (18789 if none is set).
pub open spec fn gateway_url(c: OpenClawConfig) -> Seq<char> {
    (if c.gateway_tls == Some(true) { "wss"@ } else { "ws"@ }) + "://"@ + (match c.gateway_host {
        Some(h) => h@,
        None => "127.0.0.1"@,
    }) + ":"@ + decimal(
        (match c.gateway_port {
            Some(p) => p,
            None => 18789u16,
        }) as nat,
    )
}

impl OpenClawConfig {
    /// The address at which the gateway is reached.
    pub fn build_url(&self) -> (url: String)
        ensures
            url@ == gateway_url(*self),
    {
        let mut buf: Vec<char> = Vec::new();
        let secure = match self.gateway_tls {
            Some(tls) => tls,
            None => false,
        };
        append_chars(&mut buf, if secure { "wss" } else { "ws" });
        append_chars(&mut buf, "://");
        match &self.gateway_host {
            Some(h) => append_chars(&mut buf, h.as_str()),
            None => append_chars(&mut buf, "127.0.0.1"),
        }
        append_chars(&mut buf, ":");
        let port: u16 = match self.gateway_port {
            Some(p) => p,
            None => 18789,
        };
        push_decimal(&mut buf, port as u64);
        assert(buf@ =~= gateway_url(*self));
        string_of(&buf)
    }
}

impl Default for OpenClawConfig {
    fn default() -> (c: OpenClawConfig)
        ensures
            c == OpenClawConfig::unset(),
    {
        OpenClawConfig {
            gateway_host: None,
            gateway_port: None,
            gateway_tls: None,
            gateway_tls_fingerprint: None,
            node_id: None,
            display_name: None,
            auth_token: None,
            auth_password: None,
            exec_approvals_path: None,
        }
    }
}

/// The daemon's configuration.
#[derive(Clone, Debug, PartialEq, Eq)]
pub struct Config {
    /// Name of the connection mode.
    pub mode: Option<String>,
    /// Controller endpoint.
    pub server_url: String,
    /// Device identifier; one is generated if this is missing.
    pub device_id: Option<String>,
    /// Permits of the job registry; 8 if missing.
    pub max_concurrent_jobs: Option<usize>,
    /// Root of traces and run artifacts; the empty string disables them.
    pub data_dir: Option<String>,
    /// Whether the operator socket is served.
    pub debug_ipc: Option<bool>,
    /// Path of the operator socket.
    pub ipc_socket_path: Option<String>,
    /// File mode of the operator socket.
    pub ipc_socket_mode: Option<u32>,
    /// Minutes a trust window lasts where a request names none; 60 if missing.
    pub trust_timeout_mins: Option<u64>,
    /// The consent policy.
    pub policy: PolicyConfig,
    /// How to reach a gateway.
    pub openclaw: Option<OpenClawConfig>,
}

impl Config {
    /// The connection mode: the one named, or the cloud if none is named.
    pub fn connection_mode(&self) -> (m: ConnectionMode)
        ensures
            m == (match self.mode {
                Some(name) => mode_named(lowercase_text(name@)),
                None => ConnectionMode::AHandCloud,
            }),
    {
        match &self.mode {
            Some(name) => ConnectionMode::from_str(name.as_str()),
            None => ConnectionMode::AHandCloud,
        }
    }

    /// The gateway configuration, or one in which nothing is set.
    pub fn openclaw_config(&self) -> (c: OpenClawConfig)
        ensures
            c == (match self.openclaw {
                Some(o) => o,
                None => OpenClawConfig::unset(),
            }),
    {
        match &self.openclaw {
            Some(o) => o.duplicate(),
            None => OpenClawConfig::default(),
        }
    }

    /// The configured device id, or `generated` if none is configured.
    pub fn device_id(&self, generated: String) -> (id: String)
        ensures
            id == (match self.device_id {
                Some(d) => d,
                None => generated,
            }),
    {
        match &self.device_id {
            Some(d) => d.clone(),
            None => generated,
        }
    }

    /// File mode of the operator socket: the configured one, or `0o660`.
    pub fn ipc_socket_mode(&self) -> (mode: u32)
        ensures
            mode == (match self.ipc_socket_mode {
                Some(m) => m,
                None => 0o660u32,
            }),
    {
        match self.ipc_socket_mode {
            Some(m) => m,
            None => 0o660,
        }
    }

    /// Permits of the job registry: the configured number, or 8.
    pub fn max_jobs(&self) -> (n: usize)
        ensures
            n == (match self.max_concurrent_jobs {
                Some(m) => m,
                None => 8usize,
            }),
    {
        match self.max_concurrent_jobs {
            Some(m) => m,
            None => 8,
        }
    }
}

} // verus!
