//! Server configuration.

use vstd::prelude::*;
use vstd::string::StringExecFns;
use vstd::string::StringSliceAdditionalSpecFns;

use crate::codec;
use crate::text;

verus! {

/// Where the server listens.
#[derive(Clone, Debug)]
pub struct ListenAddr {
    /// The address without the port.
    pub host: String,
    pub port: u16,
}

impl ListenAddr {
    pub fn port(&self) -> (p: u16)
        ensures
            p == self.port,
    {
        self.port
    }
}

/// Server configuration.
#[derive(Clone, Debug)]
pub struct ServerConfig {
    pub listen_addr: ListenAddr,
    pub tls_enabled: bool,
    /// Path of the TLS certificate.
    pub tls_cert: Option<String>,
    /// Path of the TLS key.
    pub tls_key: Option<String>,
    pub max_connections: usize,
    /// Number of worker threads; zero for as many as there are processors.
    pub worker_threads: usize,
    pub session: SessionConfig,
    /// NetBIOS name of the server.
    pub server_name: String,
    /// GUID of the server; all zeros if none was set.
    pub server_guid: [u8; 16],
    pub enable_encryption: bool,
    pub enable_signing: bool,
    pub require_signing: bool,
    /// Names of the supported dialects.
    pub dialects: Vec<String>,
    pub coordination: CoordinationConfig,
    pub server_side_copy: ServerSideCopyConfig,
}

/// Session configuration.
#[derive(Clone, Copy, Debug)]
pub struct SessionConfig {
    /// How long a session lasts, in seconds.
    pub timeout: u64,
    pub max_sessions_per_connection: usize,
    pub require_signing: bool,
    pub require_encryption: bool,
    /// How long a session may be idle, in seconds.
    pub idle_timeout: u64,
}

/// Limits of server-side copies. A request beyond them is answered with the
/// limits, so that the client can adjust.
#[derive(Clone, Copy, Debug, PartialEq, Eq, Structural)]
pub struct ServerSideCopyConfig {
    /// Largest chunk, in bytes.
    pub max_chunk_size: u32,
    /// Most bytes in one request.
    pub max_data_size: u32,
    /// Most chunks in one request.
    pub max_number_of_chunks: u32,
}

impl Default for ServerSideCopyConfig {
    /// Chunks of one mebibyte, sixteen mebibytes and 256 chunks in a request.
    fn default() -> (c: Self)
        ensures
            c == (ServerSideCopyConfig {
                max_chunk_size: 1_048_576,
                max_data_size: 16_777_216,
                max_number_of_chunks: 256,
            }),
    {
        ServerSideCopyConfig {
            max_chunk_size: 1_048_576,
            max_data_size: 16_777_216,
            max_number_of_chunks: 256,
        }
    }
}

/// Configuration of deployments with several servers.
#[derive(Clone, Debug)]
pub struct CoordinationConfig {
    pub enabled: bool,
    /// Id of this server; one is made up if it is empty.
    pub server_id: String,
    /// Endpoint of an external coordinator; if it is empty the server runs a
    /// coordinator of its own.
    pub coordinator_endpoint: String,
    /// Address for the server's own coordinator.
    pub raft_addr: String,
    pub heartbeat_interval_secs: u64,
    /// A server that was silent for so long counts as dead.
    pub heartbeat_timeout_secs: u64,
    pub cache: CacheLayerConfig,
}

impl CoordinationConfig {
    /// Whether an external coordinator is used.
    pub open spec fn spec_use_external_coordinator(self) -> bool {
        self.coordinator_endpoint@.len() > 0
    }

    pub fn use_external_coordinator(&self) -> (b: bool)
        ensures
            b == self.spec_use_external_coordinator(),
    {
        !self.coordinator_endpoint.as_str().is_empty()
    }
}

impl Default for CoordinationConfig {
    /// No coordination; if it is switched on, the server's own coordinator on
    /// this machine, a heartbeat every five seconds and death after fifteen.
    fn default() -> (c: Self)
        ensures
            !c.enabled,
            c.server_id@ == Seq::<char>::empty(),
            c.coordinator_endpoint@ == Seq::<char>::empty(),
            c.raft_addr@ == "127.0.0.1:8080"@,
            c.heartbeat_interval_secs == 5,
            c.heartbeat_timeout_secs == 15,
            c.cache == CacheLayerConfig::defaults(),
    {
        let server_id = String::new();
        let coordinator_endpoint = String::new();
        assert(server_id@ =~= Seq::<char>::empty());
        assert(coordinator_endpoint@ =~= Seq::<char>::empty());
        CoordinationConfig {
            enabled: false,
            server_id,
            coordinator_endpoint,
            raft_addr: "127.0.0.1:8080".to_owned(),
            heartbeat_interval_secs: 5,
            heartbeat_timeout_secs: 15,
            cache: CacheLayerConfig::default(),
        }
    }
}

/// Configuration of the local cache of shared state.
#[derive(Clone, Copy, Debug, PartialEq, Eq, Structural)]
pub struct CacheLayerConfig {
    pub max_sessions: usize,
    pub max_handles: usize,
    pub max_trees: usize,
    /// How long an entry stays valid, in seconds.
    pub default_ttl_secs: u64,
}

impl CacheLayerConfig {
    pub open spec fn defaults() -> CacheLayerConfig {
        CacheLayerConfig {
            max_sessions: 10_000,
            max_handles: 1_000_000,
            max_trees: 50_000,
            default_ttl_secs: 300,
        }
    }
}

impl Default for CacheLayerConfig {
    /// Room for ten thousand sessions, a million handles and fifty thousand
    /// trees, valid for five minutes.
    fn default() -> (c: Self)
        ensures
            c == CacheLayerConfig::defaults(),
    {
        CacheLayerConfig {
            max_sessions: 10_000,
            max_handles: 1_000_000,
            max_trees: 50_000,
            default_ttl_secs: 300,
        }
    }
}

impl SessionConfig {
    pub open spec fn defaults() -> SessionConfig {
        SessionConfig {
            timeout: 3600,
            max_sessions_per_connection: 16,
            require_signing: false,
            require_encryption: false,
            idle_timeout: 900,
        }
    }
}

impl Default for SessionConfig {
    /// Sessions of an hour, a quarter of which they may be idle.
    fn default() -> (c: Self)
        ensures
            c == SessionConfig::defaults(),
    {
        SessionConfig {
            timeout: 3600,
            max_sessions_per_connection: 16,
            require_signing: false,
            require_encryption: false,
            idle_timeout: 900,
        }
    }
}

impl Default for ServerConfig {
    /// The server listens on every address, port 445, without TLS, with
    /// encryption and signing on offer.
    fn default() -> (c: Self)
        ensures
            c.listen_addr.host@ == "0.0.0.0"@,
            c.listen_addr.port == 445,
            !c.tls_enabled,
            c.tls_cert is None,
            c.tls_key is None,
            c.max_connections == 1000,
            c.worker_threads == 0,
            c.session == SessionConfig::defaults(),
            c.server_name@ == "RUSTSMB"@,
            c.server_guid@ == codec::zeros(16),
            c.enable_encryption,
            c.enable_signing,
            !c.require_signing,
            c.dialects@.map_values(|d: String| d@) == seq![
                "SMB 3.1.1"@,
                "SMB 3.0.2"@,
                "SMB 3.0"@,
                "SMB 2.1"@,
                "SMB 2.0.2"@,
            ],
            !c.coordination.enabled,
            c.coordination.server_id@ == Seq::<char>::empty(),
            c.coordination.coordinator_endpoint@ == Seq::<char>::empty(),
            c.coordination.raft_addr@ == "127.0.0.1:8080"@,
            c.coordination.heartbeat_interval_secs == 5,
            c.coordination.heartbeat_timeout_secs == 15,
            c.coordination.cache == CacheLayerConfig::defaults(),
            c.server_side_copy == (ServerSideCopyConfig {
                max_chunk_size: 1_048_576,
                max_data_size: 16_777_216,
                max_number_of_chunks: 256,
            }),
    {
        let mut dialects: Vec<String> = Vec::new();
        dialects.push("SMB 3.1.1".to_owned());
        dialects.push("SMB 3.0.2".to_owned());
        dialects.push("SMB 3.0".to_owned());
        dialects.push("SMB 2.1".to_owned());
        dialects.push("SMB 2.0.2".to_owned());
        let server_guid = [0u8; 16];
        assert(server_guid@ =~= codec::zeros(16));
        assert(dialects@.map_values(|d: String| d@) =~= seq![
            "SMB 3.1.1"@,
            "SMB 3.0.2"@,
            "SMB 3.0"@,
            "SMB 2.1"@,
            "SMB 2.0.2"@,
        ]);
        ServerConfig {
            listen_addr: ListenAddr { host: "0.0.0.0".to_owned(), port: 445 },
            tls_enabled: false,
            tls_cert: None,
            tls_key: None,
            max_connections: 1000,
            worker_threads: 0,
            session: SessionConfig::default(),
            server_name: "RUSTSMB".to_owned(),
            server_guid,
            enable_encryption: true,
            enable_signing: true,
            require_signing: false,
            dialects,
            coordination: CoordinationConfig::default(),
            server_side_copy: ServerSideCopyConfig::default(),
        }
    }
}

impl ServerConfig {
    /// The settings with a GUID: that which they have, or else the given one. A
    /// GUID of which everything is zero counts as none.
    pub open spec fn with_guid(self, fresh: [u8; 16]) -> ServerConfig {
        ServerConfig {
            server_guid: if self.server_guid@ == codec::zeros(16) {
                fresh
            } else {
                self.server_guid
            },
            ..self
        }
    }

    /// Gives the server a random GUID if it has none.
    pub fn ensure_guid(&mut self)
        ensures
            exists|fresh: [u8; 16]| *final(self) == #[trigger] old(self).with_guid(fresh),
    {
        self.ensure_guid_from(text::random_guid());
    }

    /// Gives the server a GUID if it has none.
    pub fn ensure_guid_from(&mut self, fresh: [u8; 16])
        ensures
            *final(self) == old(self).with_guid(fresh),
    {
        let unset = [0u8; 16];
        assert(unset@ =~= codec::zeros(16));
        if codec::same_array16(&self.server_guid, &unset) {
            self.server_guid = fresh;
        }
    }

    /// The number of worker threads, on a machine with `num_cpus` processors.
    pub fn effective_worker_threads(&self, num_cpus: usize) -> (n: usize)
        ensures
            n == if self.worker_threads == 0 {
                num_cpus
            } else {
                self.worker_threads
            },
    {
        if self.worker_threads == 0 {
            num_cpus
        } else {
            self.worker_threads
        }
    }
}

/// Configuration error.
#[derive(Clone, Debug)]
pub enum ConfigError {
    Io(String),
    Parse(String),
    Validation(String),
}

impl ConfigError {
    /// The error in words.
    pub fn message(&self) -> (s: String)
        ensures
            match self {
                ConfigError::Io(e) => s@ == "I/O error: "@ + e@,
                ConfigError::Parse(e) => s@ == "Parse error: "@ + e@,
                ConfigError::Validation(e) => s@ == "Validation error: "@ + e@,
            },
    {
        match self {
            ConfigError::Io(e) => "I/O error: ".to_owned().concat(e.as_str()),
            ConfigError::Parse(e) => "Parse error: ".to_owned().concat(e.as_str()),
            ConfigError::Validation(e) => "Validation error: ".to_owned().concat(e.as_str()),
        }
    }
}

/// Why a text is no GUID.
#[derive(Clone, Copy, Debug, PartialEq, Eq, Structural)]
pub enum GuidError {
    /// It is not 32 characters long.
    Length,
    /// It holds something that is no hexadecimal digit.
    Digit,
}

/// The value of a hexadecimal digit of either case.
pub open spec fn digit_value(c: u8) -> Option<u8> {
    if 48 <= c <= 57 {
        Some((c - 48) as u8)
    } else if 97 <= c <= 102 {
        Some((c - 87) as u8)
    } else if 65 <= c <= 70 {
        Some((c - 55) as u8)
    } else {
        None
    }
}

fn parse_digit(c: u8) -> (v: Option<u8>)
    ensures
        v == digit_value(c),
{
    if 48 <= c && c <= 57 {
        Some(c - 48)
    } else if 97 <= c && c <= 102 {
        Some(c - 87)
    } else if 65 <= c && c <= 70 {
        Some(c - 55)
    } else {
        None
    }
}

/// The value of two hexadecimal digits.
pub open spec fn pair_value(high: u8, low: u8) -> Option<u8> {
    match (digit_value(high), digit_value(low)) {
        (Some(h), Some(l)) => Some((16 * h + l) as u8),
        _ => None,
    }
}

fn parse_pair(high: u8, low: u8) -> (v: Option<u8>)
    ensures
        v == pair_value(high, low),
{
    match (parse_digit(high), parse_digit(low)) {
        (Some(h), Some(l)) => Some(16 * h + l),
        _ => None,
    }
}

/// A GUID as text.
pub fn guid_to_text(guid: &[u8; 16]) -> (s: String)
    ensures
        s@ == text::hex_text(guid@),
{
    text::hex_encode(guid.as_slice())
}

/// Reads a GUID from text. No text stands for a GUID that is not set.
pub fn guid_from_text(guid_text: &str) -> (r: Result<[u8; 16], GuidError>)
    ensures
        ({
            let bytes = guid_text.spec_bytes();
            if bytes.len() == 0 {
                r matches Ok(guid) && guid@ == codec::zeros(16)
            } else if bytes.len() != 32 {
                r == Err::<[u8; 16], GuidError>(GuidError::Length)
            } else if exists|i: int| 0 <= i < 32 && digit_value(#[trigger] bytes[i]) is None {
                r == Err::<[u8; 16], GuidError>(GuidError::Digit)
            } else {
                r matches Ok(guid) && forall|i: int|
                    0 <= i < 16 ==> Some(#[trigger] guid@[i]) == pair_value(
                        bytes[2 * i],
                        bytes[2 * i + 1],
                    )
            }
        }),
{
    let bytes = guid_text.as_bytes();
    let mut guid = [0u8; 16];
    if bytes.len() == 0 {
        assert(guid@ =~= codec::zeros(16));
        return Ok(guid);
    }
    if bytes.len() != 32 {
        return Err(GuidError::Length);
    }
    let mut i: usize = 0;
    while i < 16
        invariant
            i <= 16,
            bytes@.len() == 32,
            bytes@ == guid_text.spec_bytes(),
            guid@.len() == 16,
            forall|k: int|
                0 <= k < i ==> Some(#[trigger] guid@[k]) == pair_value(
                    bytes@[2 * k],
                    bytes@[2 * k + 1],
                ),
        decreases 16 - i,
    {
        match parse_pair(bytes[2 * i], bytes[2 * i + 1]) {
            Some(v) => {
                guid[i] = v;
            },
            None => {
                assert(digit_value(bytes@[2 * (i as int)]) is None || digit_value(
                    bytes@[2 * (i as int) + 1],
                ) is None);
                return Err(GuidError::Digit);
            },
        }
        i = i + 1;
    }
    assert forall|j: int| 0 <= j < 32 implies digit_value(#[trigger] bytes@[j]) is Some by {
        let k = j / 2;
        assert(Some(guid@[k]) == pair_value(bytes@[2 * k], bytes@[2 * k + 1]));
        assert(j == 2 * k || j == 2 * k + 1);
    }
    Ok(guid)
}

/// A GUID that was written as text is read back unchanged.
pub proof fn law_guid_round_trip(guid: [u8; 16], guid_text: &str, i: int)
    requires
        guid_text@ == text::hex_text(guid@),
        0 <= i < 16,
    ensures
        guid_text.spec_bytes().len() == 32,
        pair_value(guid_text.spec_bytes()[2 * i], guid_text.spec_bytes()[2 * i + 1]) == Some(
            guid@[i],
        ),
{
    let chars = guid_text@;
    assert forall|k: int| 0 <= k < chars.len() implies (#[trigger] chars[k] as int) < 0x80 by {
        text::lemma_hex_digit_range(guid@[k / 2] as int / 16);
        text::lemma_hex_digit_range(guid@[k / 2] as int % 16);
    }
    assert(vstd::utf8::is_ascii_chars(chars));
    assert(vstd::string::is_ascii(guid_text));
    vstd::string::is_ascii_spec_bytes(guid_text);
    let high = guid@[i] as int / 16;
    let low = guid@[i] as int % 16;
    assert((2 * i) / 2 == i && (2 * i + 1) / 2 == i && (2 * i) % 2 == 0 && (2 * i + 1) % 2 == 1);
    assert(chars[2 * i] == text::hex_digit(high));
    assert(chars[2 * i + 1] == text::hex_digit(low));
    text::lemma_hex_digit_range(high);
    text::lemma_hex_digit_range(low);
}

/// A server that has a GUID keeps it; one that has none gets the one that is
/// given, and nothing else about it changes.
pub proof fn law_guid_is_kept(config: ServerConfig, fresh: [u8; 16])
    ensures
        (exists|i: int| 0 <= i < 16 && #[trigger] config.server_guid@[i] != 0) ==> config.with_guid(
            fresh,
        ).server_guid == config.server_guid,
        (forall|i: int| 0 <= i < 16 ==> #[trigger] config.server_guid@[i] == 0) ==> config.with_guid(
            fresh,
        ).server_guid == fresh,
        config.with_guid(fresh) == (ServerConfig {
            server_guid: config.with_guid(fresh).server_guid,
            ..config
        }),
{
    if forall|i: int| 0 <= i < 16 ==> #[trigger] config.server_guid@[i] == 0 {
        assert(config.server_guid@ =~= codec::zeros(16));
    }
    if config.server_guid@ == codec::zeros(16) {
        assert(forall|i: int| 0 <= i < 16 ==> #[trigger] config.server_guid@[i] == 0);
    }
}

/// The value of a hexadecimal digit: the digits of both cases, and nothing else,
/// have one.
pub proof fn law_digit_values(c: u8)
    ensures
        digit_value(c) is Some <==> '0' as u8 <= c <= '9' as u8 || 'a' as u8 <= c <= 'f' as u8
            || 'A' as u8 <= c <= 'F' as u8,
        '0' as u8 <= c <= '9' as u8 ==> digit_value(c) == Some((c - '0' as u8) as u8),
        'a' as u8 <= c <= 'f' as u8 ==> digit_value(c) == Some((c - 'a' as u8 + 10) as u8),
        'A' as u8 <= c <= 'F' as u8 ==> digit_value(c) == Some((c - 'A' as u8 + 10) as u8),
{
}

/// Two digits make a byte, the first one counting sixteen times.
pub proof fn law_pair_values(high: u8, low: u8)
    ensures
        pair_value(high, low) is Some <==> digit_value(high) is Some && digit_value(low) is Some,
        pair_value(high, low) matches Some(v) ==> v / 16 == digit_value(high)->0 && v % 16
            == digit_value(low)->0,
{
}

} // verus!
