//! Several servers with shared state: what a server tells the others about
//! itself, and what it does when one of them fails.

use vstd::prelude::*;
use vstd::string::StringExecFns;

use crate::config::CoordinationConfig;
use crate::text;

verus! {

/// The hash that the standard library's default hasher gives a text.
pub uninterp spec fn default_hash(s: Seq<char>) -> u64;

/// `BuildHasher::hash_one` with `DefaultHasher`: a hash of the text. All hashers
/// that `DefaultHasher::default` makes are the same, so it depends on the text
/// alone; which algorithm they use is left open by the standard library.
#[verifier::external_body]
fn hash_text(s: &str) -> (hash: u64)
    ensures
        hash == default_hash(s@),
{
    std::hash::BuildHasher::hash_one(
        &std::hash::BuildHasherDefault::<std::collections::hash_map::DefaultHasher>::default(),
        s,
    )
}

/// The node id that a hash gives: the hash itself, but never zero.
pub open spec fn node_id_of(hash: u64) -> u64 {
    if hash == 0 {
        1
    } else {
        hash
    }
}

pub fn node_id_from_hash(hash: u64) -> (id: u64)
    ensures
        id == node_id_of(hash),
{
    if hash == 0 {
        1
    } else {
        hash
    }
}

/// The node id of a server, from its id.
pub fn string_to_node_id(s: &str) -> (id: u64)
    ensures
        id == node_id_of(default_hash(s@)),
{
    node_id_from_hash(hash_text(s))
}

/// Sixteen bytes as a UUID: hexadecimal digits in groups of eight, four, four,
/// four and twelve.
pub open spec fn uuid_text(bytes: Seq<u8>) -> Seq<char> {
    text::hex_text(bytes.subrange(0, 4)) + seq!['-'] + text::hex_text(bytes.subrange(4, 6)) + seq![
        '-',
    ] + text::hex_text(bytes.subrange(6, 8)) + seq!['-'] + text::hex_text(bytes.subrange(8, 10))
        + seq!['-'] + text::hex_text(bytes.subrange(10, 16))
}

/// A UUID.
pub struct Uuid;

impl Uuid {
    /// Sixteen bytes as a UUID.
    pub fn from_bytes(bytes: &[u8; 16]) -> (s: String)
        ensures
            s@ == uuid_text(bytes@),
    {
        let all = bytes.as_slice();
        let mut s = text::hex_encode(crate::codec::copy_range(all, 0, 4).as_slice());
        s.append("-");
        s.append(text::hex_encode(crate::codec::copy_range(all, 4, 6).as_slice()).as_str());
        s.append("-");
        s.append(text::hex_encode(crate::codec::copy_range(all, 6, 8).as_slice()).as_str());
        s.append("-");
        s.append(text::hex_encode(crate::codec::copy_range(all, 8, 10).as_slice()).as_str());
        s.append("-");
        s.append(text::hex_encode(crate::codec::copy_range(all, 10, 16).as_slice()).as_str());
        proof {
            reveal_strlit("-");
            assert("-"@ =~= seq!['-']);
        }
        s
    }

    /// A random UUID.
    pub fn new_v4() -> (s: String)
        ensures
            exists|bytes: [u8; 16]| s@ == #[trigger] uuid_text(bytes@),
    {
        let bytes = text::random_guid();
        Self::from_bytes(&bytes)
    }
}

/// The id of a server: the configured one, or else its name and a UUID.
pub open spec fn server_id_of(configured: Seq<char>, server_name: Seq<char>, uuid: Seq<char>) -> Seq<char> {
    if configured.len() > 0 {
        configured
    } else {
        server_name + seq!['-'] + uuid
    }
}

pub fn choose_server_id(configured: &String, server_name: &str, uuid: &str) -> (id: String)
    ensures
        id@ == server_id_of(configured@, server_name@, uuid@),
{
    if configured.as_str().unicode_len() > 0 {
        return configured.clone();
    }
    let mut id = server_name.to_owned();
    id.append("-");
    id.append(uuid);
    proof {
        reveal_strlit("-");
        assert("-"@ =~= seq!['-']);
    }
    id
}

/// How a server that coordinates by itself takes part in elections.
#[derive(Clone, Debug)]
pub struct CoordinatorConfig {
    pub node_id: u64,
    pub node_addr: String,
    pub heartbeat_timeout_secs: u64,
    pub heartbeat_check_interval_secs: u64,
    pub raft_tick_interval_ms: u64,
    pub election_tick: usize,
    pub heartbeat_tick: usize,
}

/// The room and the lifetime of the local cache.
#[derive(Clone, Copy, Debug, PartialEq, Eq, Structural)]
pub struct CacheConfig {
    pub max_sessions: usize,
    pub max_handles: usize,
    pub max_trees: usize,
    /// In seconds.
    pub default_ttl: u64,
}

/// What a server tells the others about itself.
#[derive(Clone, Debug)]
pub struct ServerRegistration {
    pub server_id: String,
    pub server_name: String,
    pub listen_port: u16,
    pub raft_addr: String,
}

/// How servers find each other.
#[derive(Clone, Copy, Debug, PartialEq, Eq, Structural)]
pub enum CoordinatorKind {
    /// A service of its own.
    External,
    /// Each server takes part in elections.
    Embedded,
}

/// The coordination of a server with others.
#[derive(Debug)]
pub struct ServerCoordination {
    pub kind: CoordinatorKind,
    /// Set when the server takes part in elections.
    pub coordinator: Option<CoordinatorConfig>,
    pub cache: CacheConfig,
    pub registration: ServerRegistration,
    /// In seconds.
    pub heartbeat_interval: u64,
    /// Whether a service of its own is configured.
    pub using_external: bool,
    pub shutdown: bool,
}

/// What can go wrong between servers.
#[derive(Debug)]
pub enum CoordinationError {
    /// The server could not be registered.
    Registration(String),
    /// A heartbeat could not be sent.
    Heartbeat(String),
    /// The coordinator failed.
    Backend(String),
}

impl CoordinationError {
    pub open spec fn spec_message(self) -> Seq<char> {
        match self {
            CoordinationError::Registration(e) => "Registration error: "@ + e@,
            CoordinationError::Heartbeat(e) => "Heartbeat error: "@ + e@,
            CoordinationError::Backend(e) => "Backend error: "@ + e@,
        }
    }

    /// The error in words.
    pub fn message(&self) -> (text: String)
        ensures
            text@ == self.spec_message(),
    {
        match self {
            CoordinationError::Registration(e) => "Registration error: ".to_owned().concat(
                e.as_str(),
            ),
            CoordinationError::Heartbeat(e) => "Heartbeat error: ".to_owned().concat(e.as_str()),
            CoordinationError::Backend(e) => "Backend error: ".to_owned().concat(e.as_str()),
        }
    }
}

/// What follows from registering a server.
#[derive(Clone, Copy, Debug, PartialEq, Eq, Structural)]
pub enum StartAction {
    /// Start to listen to the service.
    Subscribe,
    /// Start to watch the heartbeats of the others.
    MonitorHeartbeats,
}

/// What a listener does.
#[derive(Clone, Copy, Debug, PartialEq, Eq, Structural)]
pub enum ListenerAction {
    /// It ends.
    Stop,
    /// The cache takes on an epoch and forgets all that it holds.
    SetEpoch(u64),
    /// The cache forgets all that it holds.
    InvalidateAll,
    /// A heartbeat is sent.
    SendHeartbeat,
}

impl ServerCoordination {
    /// What coordination is made of, for a server with the given id.
    pub open spec fn is_coordination(
        self,
        config: CoordinationConfig,
        server_id: Seq<char>,
        server_name: Seq<char>,
        listen_port: u16,
    ) -> bool {
        &&& self.cache.max_sessions == config.cache.max_sessions
        &&& self.cache.max_handles == config.cache.max_handles
        &&& self.cache.max_trees == config.cache.max_trees
        &&& self.cache.default_ttl == config.cache.default_ttl_secs
        &&& self.registration.server_id@ == server_id
        &&& self.registration.server_name@ == server_name
        &&& self.registration.listen_port == listen_port
        &&& self.registration.raft_addr@ == config.raft_addr@
        &&& self.heartbeat_interval == config.heartbeat_interval_secs
        &&& !self.shutdown
    }

    /// The part that a server takes in elections.
    pub open spec fn is_member(
        c: CoordinatorConfig,
        config: CoordinationConfig,
        server_id: Seq<char>,
    ) -> bool {
        &&& c.node_id == node_id_of(default_hash(server_id))
        &&& c.node_addr@ == config.raft_addr@
        &&& c.heartbeat_timeout_secs == config.heartbeat_timeout_secs
        &&& c.heartbeat_check_interval_secs == config.heartbeat_interval_secs
        &&& c.raft_tick_interval_ms == 100
        &&& c.election_tick == 10
        &&& c.heartbeat_tick == 3
    }

    fn build(config: &CoordinationConfig, server_id: String, server_name: &str, listen_port: u16) -> (c: Self)
        ensures
            c.is_coordination(*config, server_id@, server_name@, listen_port),
            c.kind == CoordinatorKind::External,
            c.coordinator is None,
            c.using_external,
    {
        ServerCoordination {
            kind: CoordinatorKind::External,
            coordinator: None,
            cache: CacheConfig {
                max_sessions: config.cache.max_sessions,
                max_handles: config.cache.max_handles,
                max_trees: config.cache.max_trees,
                default_ttl: config.cache.default_ttl_secs,
            },
            registration: ServerRegistration {
                server_id,
                server_name: server_name.to_owned(),
                listen_port,
                raft_addr: config.raft_addr.clone(),
            },
            heartbeat_interval: config.heartbeat_interval_secs,
            using_external: true,
            shutdown: false,
        }
    }

    /// Sets up the coordination of a server that takes part in elections. `uuid`
    /// tells it from others of its name if it has no configured id.
    pub fn with_uuid(config: &CoordinationConfig, server_name: &str, listen_port: u16, uuid: &str) -> (c: Self)
        ensures
            c.is_coordination(
                *config,
                server_id_of(config.server_id@, server_name@, uuid@),
                server_name@,
                listen_port,
            ),
            c.kind == CoordinatorKind::Embedded,
            c.coordinator is Some && Self::is_member(
                c.coordinator->0,
                *config,
                c.registration.server_id@,
            ),
            c.using_external == config.spec_use_external_coordinator(),
    {
        let server_id = choose_server_id(&config.server_id, server_name, uuid);
        let coordinator = CoordinatorConfig {
            node_id: string_to_node_id(server_id.as_str()),
            node_addr: config.raft_addr.clone(),
            heartbeat_timeout_secs: config.heartbeat_timeout_secs,
            heartbeat_check_interval_secs: config.heartbeat_interval_secs,
            raft_tick_interval_ms: 100,
            election_tick: 10,
            heartbeat_tick: 3,
        };
        let mut c = Self::build(config, server_id, server_name, listen_port);
        c.kind = CoordinatorKind::Embedded;
        c.coordinator = Some(coordinator);
        c.using_external = config.use_external_coordinator();
        c
    }

    /// Sets up the coordination of a server that takes part in elections.
    pub fn new(config: &CoordinationConfig, server_name: &str, listen_port: u16) -> (c: Self)
        ensures
            exists|bytes: [u8; 16]|
                c.is_coordination(
                    *config,
                    server_id_of(config.server_id@, server_name@, #[trigger] uuid_text(bytes@)),
                    server_name@,
                    listen_port,
                ),
            c.kind == CoordinatorKind::Embedded,
            c.coordinator is Some && Self::is_member(
                c.coordinator->0,
                *config,
                c.registration.server_id@,
            ),
            c.using_external == config.spec_use_external_coordinator(),
    {
        let uuid = Uuid::new_v4();
        Self::with_uuid(config, server_name, listen_port, uuid.as_str())
    }

    /// Sets up the coordination of a server through a service of its own, which
    /// has to be configured. The connection to it is made next.
    pub fn new_with_external_coordinator(
        config: &CoordinationConfig,
        server_name: &str,
        listen_port: u16,
    ) -> (r: Result<Self, CoordinationError>)
        ensures
            !config.spec_use_external_coordinator() ==> (r matches Err(CoordinationError::Backend(t))
                && t@ == "coordinator_endpoint not set"@),
            config.spec_use_external_coordinator() ==> {
                &&& r matches Ok(c)
                &&& exists|bytes: [u8; 16]|
                    c.is_coordination(
                        *config,
                        server_id_of(
                            config.server_id@,
                            server_name@,
                            #[trigger] uuid_text(bytes@),
                        ),
                        server_name@,
                        listen_port,
                    )
                &&& c.kind == CoordinatorKind::External
                &&& c.coordinator is None
                &&& c.using_external
            },
    {
        if !config.use_external_coordinator() {
            return Err(CoordinationError::Backend("coordinator_endpoint not set".to_owned()));
        }
        let uuid = Uuid::new_v4();
        let server_id = choose_server_id(&config.server_id, server_name, uuid.as_str());
        Ok(Self::build(config, server_id, server_name, listen_port))
    }

    /// The id of the server.
    pub fn server_id(&self) -> (id: &str)
        ensures
            id@ == self.registration.server_id@,
    {
        self.registration.server_id.as_str()
    }

    /// Whether a service of its own is configured.
    pub fn is_external(&self) -> (b: bool)
        ensures
            b == self.using_external,
    {
        self.using_external
    }

    /// Takes the outcome of registering the server.
    pub fn start(&self, registered: Result<(), String>) -> (r: Result<StartAction, CoordinationError>)
        ensures
            match registered {
                Err(text) => r == Err::<StartAction, CoordinationError>(
                    CoordinationError::Registration(text),
                ),
                Ok(_) => r == Ok::<StartAction, CoordinationError>(
                    match self.kind {
                        CoordinatorKind::External => StartAction::Subscribe,
                        CoordinatorKind::Embedded => StartAction::MonitorHeartbeats,
                    },
                ),
            },
    {
        match registered {
            Err(text) => Err(CoordinationError::Registration(text)),
            Ok(()) => Ok(
                match self.kind {
                    CoordinatorKind::External => StartAction::Subscribe,
                    CoordinatorKind::Embedded => StartAction::MonitorHeartbeats,
                },
            ),
        }
    }

    /// Stops the coordination. Whether the server's own coordinator is to be
    /// stopped is returned; then the server leaves the others.
    pub fn stop(&mut self) -> (stop_embedded: bool)
        ensures
            *final(self) == (ServerCoordination { shutdown: true, ..*old(self) }),
            stop_embedded == (old(self).kind == CoordinatorKind::Embedded),
    {
        self.shutdown = true;
        self.kind == CoordinatorKind::Embedded
    }

    /// What happens when the time for a heartbeat has come.
    pub fn on_heartbeat_due(&self) -> (a: ListenerAction)
        ensures
            a == if self.shutdown {
                ListenerAction::Stop
            } else {
                ListenerAction::SendHeartbeat
            },
    {
        if self.shutdown {
            ListenerAction::Stop
        } else {
            ListenerAction::SendHeartbeat
        }
    }

    /// What happens when the epoch changes.
    pub fn on_epoch_change(&self, new_epoch: u64) -> (a: ListenerAction)
        ensures
            a == if self.shutdown {
                ListenerAction::Stop
            } else {
                ListenerAction::SetEpoch(new_epoch)
            },
    {
        if self.shutdown {
            ListenerAction::Stop
        } else {
            ListenerAction::SetEpoch(new_epoch)
        }
    }

    /// What happens when a server fails: whatever was cached may be outdated.
    pub fn on_server_failure(&self) -> (a: ListenerAction)
        ensures
            a == if self.shutdown {
                ListenerAction::Stop
            } else {
                ListenerAction::InvalidateAll
            },
    {
        if self.shutdown {
            ListenerAction::Stop
        } else {
            ListenerAction::InvalidateAll
        }
    }
}

/// A server without a configured id is known by its name: the id starts with
/// it.
pub proof fn law_generated_id_names_server(server_name: Seq<char>, uuid: Seq<char>)
    ensures
        server_name.is_prefix_of(server_id_of(Seq::empty(), server_name, uuid)),
        server_id_of(Seq::empty(), server_name, uuid).len() == server_name.len() + 1 + uuid.len(),
{
}

/// Different bytes give different UUIDs, and each has 36 characters.
pub proof fn law_uuid_is_injective(a: Seq<u8>, b: Seq<u8>)
    requires
        a.len() == 16,
        b.len() == 16,
    ensures
        uuid_text(a).len() == 36,
        uuid_text(a) == uuid_text(b) ==> a == b,
{
    if uuid_text(a) == uuid_text(b) {
        lemma_uuid_parts(a);
        lemma_uuid_parts(b);
        text::law_hex_text_is_injective(a.subrange(0, 4), b.subrange(0, 4));
        text::law_hex_text_is_injective(a.subrange(4, 6), b.subrange(4, 6));
        text::law_hex_text_is_injective(a.subrange(6, 8), b.subrange(6, 8));
        text::law_hex_text_is_injective(a.subrange(8, 10), b.subrange(8, 10));
        text::law_hex_text_is_injective(a.subrange(10, 16), b.subrange(10, 16));
        assert(a =~= a.subrange(0, 4) + a.subrange(4, 6) + a.subrange(6, 8) + a.subrange(8, 10)
            + a.subrange(10, 16));
        assert(b =~= b.subrange(0, 4) + b.subrange(4, 6) + b.subrange(6, 8) + b.subrange(8, 10)
            + b.subrange(10, 16));
    }
}

proof fn lemma_uuid_parts(a: Seq<u8>)
    requires
        a.len() == 16,
    ensures
        uuid_text(a).subrange(0, 8) == text::hex_text(a.subrange(0, 4)),
        uuid_text(a).subrange(9, 13) == text::hex_text(a.subrange(4, 6)),
        uuid_text(a).subrange(14, 18) == text::hex_text(a.subrange(6, 8)),
        uuid_text(a).subrange(19, 23) == text::hex_text(a.subrange(8, 10)),
        uuid_text(a).subrange(24, 36) == text::hex_text(a.subrange(10, 16)),
{
    let u = uuid_text(a);
    assert(u.subrange(0, 8) =~= text::hex_text(a.subrange(0, 4)));
    assert(u.subrange(9, 13) =~= text::hex_text(a.subrange(4, 6)));
    assert(u.subrange(14, 18) =~= text::hex_text(a.subrange(6, 8)));
    assert(u.subrange(19, 23) =~= text::hex_text(a.subrange(8, 10)));
    assert(u.subrange(24, 36) =~= text::hex_text(a.subrange(10, 16)));
}

/// A node id is never zero, and two servers share one only if their hashes do,
/// or one of them is zero.
pub proof fn law_node_ids(a: u64, b: u64)
    ensures
        node_id_of(a) != 0,
        a != 0 ==> node_id_of(a) == a,
        node_id_of(a) == node_id_of(b) ==> a == b || a == 0 || b == 0,
{
}

/// A server that has a configured id bears it, whatever its name.
pub proof fn law_configured_id_is_used(
    configured: Seq<char>,
    server_name: Seq<char>,
    uuid: Seq<char>,
)
    ensures
        configured.len() > 0 ==> server_id_of(configured, server_name, uuid) == configured,
        configured.len() == 0 ==> server_id_of(configured, server_name, uuid) == server_name + seq![
            '-',
        ] + uuid,
{
}

/// A UUID has dashes behind its eighth, twelfth, sixteenth and twentieth digit,
/// and between them the digits of its bytes in order.
pub proof fn law_uuid_groups(bytes: Seq<u8>)
    requires
        bytes.len() == 16,
    ensures
        uuid_text(bytes).len() == 36,
        uuid_text(bytes)[8] == '-' && uuid_text(bytes)[13] == '-' && uuid_text(bytes)[18] == '-'
            && uuid_text(bytes)[23] == '-',
        uuid_text(bytes).subrange(0, 8) + uuid_text(bytes).subrange(9, 13) + uuid_text(
            bytes,
        ).subrange(14, 18) + uuid_text(bytes).subrange(19, 23) + uuid_text(bytes).subrange(24, 36)
            == text::hex_text(bytes),
{
    lemma_uuid_parts(bytes);
    let u = uuid_text(bytes);
    let h = text::hex_text(bytes);
    assert(text::hex_text(bytes.subrange(0, 4)) =~= h.subrange(0, 8));
    assert(text::hex_text(bytes.subrange(4, 6)) =~= h.subrange(8, 12));
    assert(text::hex_text(bytes.subrange(6, 8)) =~= h.subrange(12, 16));
    assert(text::hex_text(bytes.subrange(8, 10)) =~= h.subrange(16, 20));
    assert(text::hex_text(bytes.subrange(10, 16)) =~= h.subrange(20, 32));
    assert(h.subrange(0, 8) + h.subrange(8, 12) + h.subrange(12, 16) + h.subrange(16, 20)
        + h.subrange(20, 32) =~= h);
}

/// A server keeps what its configuration says: where others reach it, how often
/// it shows that it is alive, and how long others wait for that. It does so more
/// often than an election takes.
pub proof fn law_member_keeps_configuration(
    c: CoordinatorConfig,
    config: CoordinationConfig,
    server_id: Seq<char>,
)
    requires
        ServerCoordination::is_member(c, config, server_id),
    ensures
        c.node_addr@ == config.raft_addr@,
        c.heartbeat_timeout_secs == config.heartbeat_timeout_secs,
        c.heartbeat_check_interval_secs == config.heartbeat_interval_secs,
        c.node_id != 0,
        0 < c.heartbeat_tick < c.election_tick,
        c.raft_tick_interval_ms * c.election_tick == 1000,
{
}

/// Coordination starts as configured and is not shutting down.
pub proof fn law_coordination_keeps_configuration(
    s: ServerCoordination,
    config: CoordinationConfig,
    server_id: Seq<char>,
    server_name: Seq<char>,
    listen_port: u16,
)
    requires
        s.is_coordination(config, server_id, server_name, listen_port),
    ensures
        s.cache.max_sessions == config.cache.max_sessions,
        s.cache.max_handles == config.cache.max_handles,
        s.cache.max_trees == config.cache.max_trees,
        s.cache.default_ttl == config.cache.default_ttl_secs,
        s.registration.server_id@ == server_id,
        s.registration.server_name@ == server_name,
        s.registration.listen_port == listen_port,
        s.registration.raft_addr@ == config.raft_addr@,
        s.heartbeat_interval == config.heartbeat_interval_secs,
        !s.shutdown,
{
}

} // verus!
