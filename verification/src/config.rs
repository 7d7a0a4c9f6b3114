use vstd::prelude::*;
use vstd::string::StringExecFns;

verus! {

/// TLS client certificate and key used for peer connections.
#[derive(Debug, Clone)]
pub struct TlsConfig {
    pub cert_path: String,
    pub key_path: String,
}

/// Location of the read-only proof archive.
#[derive(Debug, Clone)]
pub struct ArchiveConfig {
    /// Path to the local proof archive SQLite DB.
    pub db_path: String,
    /// SQLite busy timeout (ms) for read operations.
    pub busy_timeout_ms: u64,
}

/// Pacing settings of the injector.
#[derive(Debug, Clone)]
pub struct InjectorConfig {
    /// Default send budget on first launch.
    pub default_proofs_per_window: u32,
    /// Default window size (ms) on first launch.
    pub default_window_ms: u64,
    /// How often to poll the local archive event log.
    pub poll_interval_ms: u64,
    /// Batch size for reading from the local archive.
    pub events_read_limit: u32,
}

/// The fixed list of full-node peers to inject into (`host:port`).
#[derive(Debug, Clone)]
pub struct PeersConfig {
    pub targets: Vec<String>,
}

/// Where the runtime state is persisted.
#[derive(Debug, Clone)]
pub struct StorageConfig {
    pub in_flight_path: String,
}

/// Local HTTP control API / UI.
#[derive(Debug, Clone)]
pub struct HttpConfig {
    pub listen_addr: String,
    pub static_dir: String,
}

/// The whole configuration file.
#[derive(Debug, Clone)]
pub struct Config {
    pub network_id: String,
    pub tls: TlsConfig,
    pub archive: ArchiveConfig,
    pub injector: InjectorConfig,
    pub peers: PeersConfig,
    pub storage: StorageConfig,
    pub http: HttpConfig,
    pub protocol_version: Option<String>,
}

/// The first problem that makes a configuration unusable.
#[derive(Debug, Clone, Copy, PartialEq, Eq, Structural)]
pub enum ConfigError {
    EmptyNetworkId,
    EmptyDbPath,
    ZeroProofsPerWindow,
    ZeroWindowMs,
    ZeroPollInterval,
    ZeroEventsReadLimit,
    NoPeerTargets,
    EmptyInFlightPath,
    InvalidListenAddr,
}

/// Characters with the Unicode `White_Space` property, the ones `char::is_whitespace` accepts.
pub open spec fn is_unicode_whitespace(c: char) -> bool {
    let u = c as u32;
    ||| 0x09 <= u <= 0x0d
    ||| u == 0x20
    ||| u == 0x85
    ||| u == 0xa0
    ||| u == 0x1680
    ||| 0x2000 <= u <= 0x200a
    ||| u == 0x2028
    ||| u == 0x2029
    ||| u == 0x202f
    ||| u == 0x205f
    ||| u == 0x3000
}

/// `s` without its leading whitespace.
pub open spec fn trim_start_chars(s: Seq<char>) -> Seq<char>
    decreases s.len(),
{
    if s.len() > 0 && is_unicode_whitespace(s[0]) {
        trim_start_chars(s.drop_first())
    } else {
        s
    }
}

/// `s` without its trailing whitespace.
pub open spec fn trim_end_chars(s: Seq<char>) -> Seq<char>
    decreases s.len(),
{
    if s.len() > 0 && is_unicode_whitespace(s.last()) {
        trim_end_chars(s.drop_last())
    } else {
        s
    }
}

/// `s` without leading and trailing whitespace.
pub open spec fn trim_chars(s: Seq<char>) -> Seq<char> {
    trim_end_chars(trim_start_chars(s))
}

/// `str::trim`: the slice of `s` without leading and trailing Unicode whitespace.
#[verifier::external_body]
fn str_trim(s: &str) -> (r: &str)
    ensures
        r@ == trim_chars(s@),
{
    s.trim()
}

/// Whether `s` holds nothing but whitespace.
pub open spec fn is_blank(s: Seq<char>) -> bool {
    trim_chars(s).len() == 0
}

/// The verdict of [`Config::validate`]: the checks in order, the first that fails decides.
pub open spec fn validation_result(cfg: Config, listen_addr_is_socket_addr: bool) -> Result<(), ConfigError> {
    if is_blank(cfg.network_id@) {
        Err(ConfigError::EmptyNetworkId)
    } else if cfg.archive.db_path@.len() == 0 {
        Err(ConfigError::EmptyDbPath)
    } else if cfg.injector.default_proofs_per_window == 0 {
        Err(ConfigError::ZeroProofsPerWindow)
    } else if cfg.injector.default_window_ms == 0 {
        Err(ConfigError::ZeroWindowMs)
    } else if cfg.injector.poll_interval_ms == 0 {
        Err(ConfigError::ZeroPollInterval)
    } else if cfg.injector.events_read_limit == 0 {
        Err(ConfigError::ZeroEventsReadLimit)
    } else if cfg.peers.targets@.len() == 0 {
        Err(ConfigError::NoPeerTargets)
    } else if cfg.storage.in_flight_path@.len() == 0 {
        Err(ConfigError::EmptyInFlightPath)
    } else if !listen_addr_is_socket_addr {
        Err(ConfigError::InvalidListenAddr)
    } else {
        Ok(())
    }
}

impl Config {
    /// Checks the configuration. `listen_addr_is_socket_addr` tells whether
    /// `http.listen_addr` parses as a socket address.
    pub fn validate(&self, listen_addr_is_socket_addr: bool) -> (r: Result<(), ConfigError>)
        ensures
            r == validation_result(*self, listen_addr_is_socket_addr),
    {
        if str_trim(self.network_id.as_str()).is_empty() {
            return Err(ConfigError::EmptyNetworkId);
        }
        if self.archive.db_path.as_str().is_empty() {
            return Err(ConfigError::EmptyDbPath);
        }
        if self.injector.default_proofs_per_window == 0 {
            return Err(ConfigError::ZeroProofsPerWindow);
        }
        if self.injector.default_window_ms == 0 {
            return Err(ConfigError::ZeroWindowMs);
        }
        if self.injector.poll_interval_ms == 0 {
            return Err(ConfigError::ZeroPollInterval);
        }
        if self.injector.events_read_limit == 0 {
            return Err(ConfigError::ZeroEventsReadLimit);
        }
        if self.peers.targets.len() == 0 {
            return Err(ConfigError::NoPeerTargets);
        }
        if self.storage.in_flight_path.as_str().is_empty() {
            return Err(ConfigError::EmptyInFlightPath);
        }
        if !listen_addr_is_socket_addr {
            return Err(ConfigError::InvalidListenAddr);
        }
        Ok(())
    }
}

/// Default client certificate path (relative to the home directory).
pub fn default_tls_cert_path() -> (r: String)
    ensures
        r@ == "~/.chia/mainnet/config/ssl/full_node/public_full_node.crt"@,
{
    String::from_str("~/.chia/mainnet/config/ssl/full_node/public_full_node.crt")
}

/// Default client key path (relative to the home directory).
pub fn default_tls_key_path() -> (r: String)
    ensures
        r@ == "~/.chia/mainnet/config/ssl/full_node/public_full_node.key"@,
{
    String::from_str("~/.chia/mainnet/config/ssl/full_node/public_full_node.key")
}

/// Default HTTP listen address.
pub fn default_http_listen_addr() -> (r: String)
    ensures
        r@ == "127.0.0.1:6182"@,
{
    String::from_str("127.0.0.1:6182")
}

/// Default directory of the built UI.
pub fn default_static_dir() -> (r: String)
    ensures
        r@ == "ui/dist"@,
{
    String::from_str("ui/dist")
}

/// Default location of the persisted runtime state.
pub fn default_in_flight_path() -> (r: String)
    ensures
        r@ == "data/in_flight.json"@,
{
    String::from_str("data/in_flight.json")
}

/// Default SQLite busy timeout.
pub fn default_archive_busy_timeout_ms() -> (r: u64)
    ensures
        r == 500,
{
    500
}

impl Default for TlsConfig {
    fn default() -> (r: Self)
        ensures
            r.cert_path@ == "~/.chia/mainnet/config/ssl/full_node/public_full_node.crt"@,
            r.key_path@ == "~/.chia/mainnet/config/ssl/full_node/public_full_node.key"@,
    {
        TlsConfig { cert_path: default_tls_cert_path(), key_path: default_tls_key_path() }
    }
}

impl Default for HttpConfig {
    fn default() -> (r: Self)
        ensures
            r.listen_addr@ == "127.0.0.1:6182"@,
            r.static_dir@ == "ui/dist"@,
    {
        HttpConfig { listen_addr: default_http_listen_addr(), static_dir: default_static_dir() }
    }
}

} // verus!
