//! The startup options, as the server core reads them.

use vstd::prelude::*;

verus! {

/// One user: an id in the textual form of a UUID, and a password.
#[derive(Debug, PartialEq, Eq)]
pub struct UserConfig {
    pub uuid: String,
    pub password: String,
}

impl UserConfig {
    /// A user with this id and password.
    pub fn new(uuid: String, password: String) -> (u: Self)
        ensures
            u.uuid == uuid,
            u.password == password,
    {
        UserConfig { uuid, password }
    }

    /// The id, as text.
    pub fn uuid(&self) -> (s: &str)
        ensures
            s@ == self.uuid@,
    {
        self.uuid.as_str()
    }

    /// The password.
    pub fn password(&self) -> (s: &str)
        ensures
            s@ == self.password@,
    {
        self.password.as_str()
    }
}

/// The options of one server.
#[derive(Debug, PartialEq, Eq)]
pub struct Config {
    /// Where to listen.
    pub server_addr: String,
    /// Seconds after which a reassembly buffer that got no fragment expires.
    pub udp_session_timeout: u64,
    /// Seconds between two sweeps for expired buffers.
    pub udp_cleanup_interval: u64,
    /// Seconds to wait for the answer to a UDP payload.
    pub udp_socket_timeout: u64,
    pub cert_path: String,
    pub key_path: String,
    /// The most reassembly buffers kept at a time, if there is a limit.
    pub udp_max_sessions: Option<usize>,
    /// The most payload bytes one reassembly buffer holds, if there is a
    /// limit.
    pub udp_max_reassembly_bytes_per_session: Option<usize>,
    /// The most entries of the resolver cache.
    pub dns_cache_max_entries: u64,
    /// Seconds for which a cached resolution is used.
    pub dns_cache_ttl: u64,
    pub users: Vec<UserConfig>,
}

/// The default of [`Config::udp_session_timeout`] and
/// [`Config::udp_cleanup_interval`].
pub const DEFAULT_UDP_SESSION_SECS: u64 = 30;

/// The default of [`Config::udp_socket_timeout`].
pub const DEFAULT_UDP_SOCKET_SECS: u64 = 3;

/// The default of [`Config::dns_cache_max_entries`].
pub const DEFAULT_DNS_CACHE_ENTRIES: u64 = 2000;

/// The default of [`Config::dns_cache_ttl`].
pub const DEFAULT_DNS_CACHE_TTL_SECS: u64 = 300;

impl Default for Config {
    fn default() -> (c: Self)
        ensures
            c.server_addr@ == "[::]:443"@,
            c.udp_session_timeout == DEFAULT_UDP_SESSION_SECS,
            c.udp_cleanup_interval == DEFAULT_UDP_SESSION_SECS,
            c.udp_socket_timeout == DEFAULT_UDP_SOCKET_SECS,
            c.cert_path@ == "server.crt"@,
            c.key_path@ == "server.key"@,
            c.udp_max_sessions is None,
            c.udp_max_reassembly_bytes_per_session is None,
            c.dns_cache_max_entries == DEFAULT_DNS_CACHE_ENTRIES,
            c.dns_cache_ttl == DEFAULT_DNS_CACHE_TTL_SECS,
            c.users@.len() == 0,
    {
        Config {
            server_addr: "[::]:443".to_owned(),
            udp_session_timeout: DEFAULT_UDP_SESSION_SECS,
            udp_cleanup_interval: DEFAULT_UDP_SESSION_SECS,
            udp_socket_timeout: DEFAULT_UDP_SOCKET_SECS,
            cert_path: "server.crt".to_owned(),
            key_path: "server.key".to_owned(),
            udp_max_sessions: None,
            udp_max_reassembly_bytes_per_session: None,
            dns_cache_max_entries: DEFAULT_DNS_CACHE_ENTRIES,
            dns_cache_ttl: DEFAULT_DNS_CACHE_TTL_SECS,
            users: Vec::new(),
        }
    }
}

impl Config {
    /// Where to listen.
    pub fn server_addr(&self) -> (s: &str)
        ensures
            s@ == self.server_addr@,
    {
        self.server_addr.as_str()
    }

    /// Where the certificate chain is kept.
    pub fn cert_path(&self) -> (s: &str)
        ensures
            s@ == self.cert_path@,
    {
        self.cert_path.as_str()
    }

    /// Where the private key is kept.
    pub fn key_path(&self) -> (s: &str)
        ensures
            s@ == self.key_path@,
    {
        self.key_path.as_str()
    }

    /// The users.
    pub fn users(&self) -> (u: &[UserConfig])
        ensures
            u@ == self.users@,
    {
        self.users.as_slice()
    }
}

} // verus!
