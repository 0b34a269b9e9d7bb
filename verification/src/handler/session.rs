//! SESSION_SETUP and LOGOFF: a user is authenticated, in one or several rounds;
//! a session is bound to a further connection; a session ends.

use vstd::prelude::*;

use crate::codec;
use crate::connection::Connection;
use crate::error;
use crate::error::HandlerError;
use crate::handler::common;
use crate::handler::signing;
use crate::handler::signing::{PendingVerification, SignStep, SigningKeys};
use crate::helpers::time::current_unix_time;
use crate::protocol::dialect::SmbDialect;
use crate::protocol::header;
use crate::protocol::header::{Smb2Flags, Smb2Header};
use crate::protocol::status::NtStatus;
use crate::state::SessionState;

verus! {

/// The flag of a request that binds a session to a further connection.
pub const SESSION_BINDING: u8 = 0x01;

/// The session flag of a guest.
pub const SESSION_FLAG_IS_GUEST: u16 = 0x0001;

/// The session flag of an anonymous user.
pub const SESSION_FLAG_IS_NULL: u16 = 0x0002;

/// How many seconds a session lasts.
pub const SESSION_LIFETIME: u64 = 3600;

/// When a session that starts at a time in seconds expires.
pub open spec fn expiry(now: u64) -> u64 {
    ((now + SESSION_LIFETIME) % 0x1_0000_0000_0000_0000) as u64
}

/// The token in a request. Where the place that the request names lies outside
/// the body, as many bytes from its start are taken, if there are.
pub open spec fn security_token(body: Seq<u8>) -> Seq<u8> {
    let offset = codec::u16_at(body, 12) as int;
    let length = codec::u16_at(body, 14) as int;
    let start = if offset >= 64 {
        offset - 64
    } else {
        0
    };
    if start + length <= body.len() {
        body.subrange(start, start + length)
    } else if length <= body.len() {
        body.subrange(0, length)
    } else {
        Seq::empty()
    }
}

fn copy_security_token(body: &[u8]) -> (token: Vec<u8>)
    requires
        body@.len() >= 24,
    ensures
        token@ == security_token(body@),
{
    let offset: usize = codec::get_u16(body, 12) as usize;
    let length: usize = codec::get_u16(body, 14) as usize;
    let start: usize = offset.saturating_sub(64);
    if start + length <= body.len() {
        codec::copy_range(body, start, start + length)
    } else if length <= body.len() {
        codec::copy_range(body, 0, length)
    } else {
        let token: Vec<u8> = Vec::new();
        assert(token@ =~= Seq::<u8>::empty());
        token
    }
}

/// The flags that tell a client what kind of user its session has.
pub open spec fn session_flags(is_guest: bool, is_anonymous: bool) -> u16 {
    let guest = if is_guest {
        SESSION_FLAG_IS_GUEST
    } else {
        0
    };
    if is_anonymous {
        guest | SESSION_FLAG_IS_NULL
    } else {
        guest
    }
}

fn compute_session_flags(is_guest: bool, is_anonymous: bool) -> (flags: u16)
    ensures
        flags == session_flags(is_guest, is_anonymous),
{
    let guest: u16 = if is_guest {
        SESSION_FLAG_IS_GUEST
    } else {
        0
    };
    if is_anonymous {
        guest | SESSION_FLAG_IS_NULL
    } else {
        guest
    }
}

/// A request whose token is to be handed to the authentication provider.
#[derive(Debug)]
pub struct SetupAuth {
    pub header: Smb2Header,
    /// Whether the provider starts anew, without what it knows from earlier
    /// rounds.
    pub fresh: bool,
    pub token: Vec<u8>,
    /// A session of this client that is to be replaced.
    pub previous_session_id: u64,
    /// The session that is authenticated again.
    pub existing: Option<SessionState>,
    pub dialect: SmbDialect,
}

/// A request that waits for the session that it authenticates again.
#[derive(Debug)]
pub struct SetupAwaitSession {
    pub auth: SetupAuth,
    /// The session to look up.
    pub session_id: u64,
}

/// What a SESSION_SETUP request is about.
#[derive(Debug)]
pub enum SetupStart {
    /// A session is bound to this connection.
    Binding,
    /// Look up the session that is authenticated again.
    Again(SetupAwaitSession),
    /// Hand the token to the authentication provider.
    Auth(SetupAuth),
}

/// The dialect of a connection; the oldest one before it is negotiated.
pub open spec fn spoken_dialect(connection: Connection) -> SmbDialect {
    match connection.dialect {
        Some(d) => d,
        None => SmbDialect::Smb202,
    }
}

/// The round of a request, without a session that is authenticated again.
pub open spec fn is_round(auth: SetupAuth, connection: Connection, header: Smb2Header, body: Seq<u8>) -> bool {
    &&& auth.header == header
    &&& auth.fresh == (header.session_id == 0)
    &&& auth.token@ == security_token(body)
    &&& auth.previous_session_id == codec::u64_at(body, 16)
    &&& auth.existing is None
    &&& auth.dialect == spoken_dialect(connection)
}

/// Whether a request authenticates a session of this connection again: none is
/// being set up, and the session is known here.
pub open spec fn authenticates_again(connection: Connection, header: Smb2Header, pending: Option<u64>) -> bool {
    header.session_id != 0 && connection.session_table().contains(header.session_id) && pending
        is None
}

/// What a SESSION_SETUP request is about.
pub open spec fn is_setup_start(
    connection: Connection,
    header: Smb2Header,
    body: Seq<u8>,
    pending: Option<u64>,
    r: Result<SetupStart, HandlerError>,
) -> bool {
    if body.len() < 24 {
        error::malformed(r, "Failed to parse session_setup"@)
    } else if body[2] & SESSION_BINDING != 0 {
        r == Ok::<SetupStart, HandlerError>(SetupStart::Binding)
    } else if authenticates_again(connection, header, pending) {
        r matches Ok(SetupStart::Again(a)) && a.session_id == header.session_id && is_round(
            a.auth,
            connection,
            header,
            body,
        )
    } else {
        r matches Ok(SetupStart::Auth(auth)) && is_round(auth, connection, header, body)
    }
}

/// Starts to handle a SESSION_SETUP request. `pending` is the session that is
/// being set up, if there was a round before this one.
pub fn handle_session_setup(
    connection: &Connection,
    header: &Smb2Header,
    body: &[u8],
    pending: Option<u64>,
) -> (r: Result<SetupStart, HandlerError>)
    ensures
        is_setup_start(*connection, *header, body@, pending, r),
{
    if body.len() < 24 {
        return Err(error::protocol_error("Failed to parse session_setup"));
    }
    if body[2] & SESSION_BINDING != 0 {
        return Ok(SetupStart::Binding);
    }
    let token = copy_security_token(body);
    let dialect = match connection.dialect {
        Some(d) => d,
        None => SmbDialect::Smb202,
    };
    let auth = SetupAuth {
        header: *header,
        fresh: header.session_id == 0,
        token,
        previous_session_id: codec::get_u64(body, 16),
        existing: None,
        dialect,
    };
    if header.session_id != 0 && connection.has_session(header.session_id) && pending.is_none() {
        Ok(SetupStart::Again(SetupAwaitSession { auth, session_id: header.session_id }))
    } else {
        Ok(SetupStart::Auth(auth))
    }
}

impl SetupAwaitSession {
    /// Takes the session, if the state store found it.
    pub fn on_session(self, reply: Result<Option<SessionState>, String>) -> (auth: SetupAuth)
        ensures
            auth == (SetupAuth {
                existing: match reply {
                    Ok(found) => found,
                    Err(_) => None,
                },
                ..self.auth
            }),
    {
        let mut auth = self.auth;
        auth.existing = match reply {
            Ok(found) => found,
            Err(_) => None,
        };
        auth
    }
}

/// A user that was authenticated.
#[derive(Debug)]
pub struct UserInfo {
    pub username: String,
    pub domain: Option<String>,
    pub is_guest: bool,
    pub is_anonymous: bool,
}

impl UserInfo {
    /// Whether messages of the user's session are signed: not those of guests
    /// and anonymous users, who have no key.
    pub open spec fn spec_signs(self) -> bool {
        !self.is_guest && !self.is_anonymous
    }

    pub fn signs(&self) -> (b: bool)
        ensures
            b == self.spec_signs(),
    {
        !self.is_guest && !self.is_anonymous
    }
}

/// What the authentication provider says.
#[derive(Debug)]
pub enum AuthReply {
    /// The user is who they say.
    Success { user: UserInfo, session_key: Vec<u8>, response_token: Option<Vec<u8>> },
    /// Another round is needed.
    Continue(Vec<u8>),
    /// The user is not who they say.
    Failure,
    /// The token cannot be read.
    MalformedToken,
    Error(String),
}

/// An authenticated user whose session is not known yet.
#[derive(Debug)]
pub struct SetupSuccess {
    pub header: Smb2Header,
    pub previous_session_id: u64,
    pub existing: Option<SessionState>,
    pub dialect: SmbDialect,
    pub user: UserInfo,
    pub session_key: Vec<u8>,
    pub token: Vec<u8>,
}

/// An authenticated user and the id of their session.
#[derive(Debug)]
pub struct SetupIdentified {
    pub success: SetupSuccess,
    pub session_id: u64,
}

/// A round after which another one is needed.
#[derive(Debug)]
pub struct SetupInterim {
    pub header: Smb2Header,
    pub token: Vec<u8>,
    pub dialect: SmbDialect,
    /// The session that is being set up, from now on.
    pub session_id: u64,
}

/// A round that is the first one of a new session.
#[derive(Debug)]
pub struct SetupAwaitInterimId {
    pub header: Smb2Header,
    pub token: Vec<u8>,
    pub dialect: SmbDialect,
}

/// What has to happen next after a round.
#[derive(Debug)]
pub enum SetupStep {
    /// Get a new session id and hand it to `SetupSuccess::on_session_id`.
    NewSession(SetupSuccess),
    /// The user's session is known.
    Identified(SetupIdentified),
    /// Get a new session id and hand it to `SetupAwaitInterimId::on_session_id`.
    NewInterim(SetupAwaitInterimId),
    /// Answer that another round is needed.
    Interim(SetupInterim),
}

/// The session that is being set up when a round comes. A round that starts anew
/// continues none.
pub open spec fn continued_session(auth: SetupAuth, pending: Option<u64>) -> Option<u64> {
    if auth.fresh {
        None
    } else {
        pending
    }
}

/// The session that a round belongs to, if that is known: the one that is being
/// set up, or the one that is authenticated again.
pub open spec fn round_session(auth: SetupAuth, pending: Option<u64>) -> Option<u64> {
    if continued_session(auth, pending) is Some {
        pending
    } else if auth.existing is Some {
        Some(auth.header.session_id)
    } else {
        None
    }
}

/// The session of a round that is to be followed by another one.
pub open spec fn interim_session(auth: SetupAuth, pending: Option<u64>) -> Option<u64> {
    if auth.existing is Some {
        Some(auth.header.session_id)
    } else {
        continued_session(auth, pending)
    }
}

pub open spec fn token_or_empty(token: Option<Vec<u8>>) -> Seq<u8> {
    match token {
        Some(t) => t@,
        None => Seq::empty(),
    }
}

impl SetupAuth {
    /// What is known of a user after a successful round.
    pub open spec fn is_success(self, s: SetupSuccess, user: UserInfo, session_key: Vec<u8>, token: Option<Vec<u8>>) -> bool {
        &&& s.header == self.header
        &&& s.previous_session_id == self.previous_session_id
        &&& s.existing == self.existing
        &&& s.dialect == self.dialect
        &&& s.user == user
        &&& s.session_key == session_key
        &&& s.token@ == token_or_empty(token)
    }

    /// What comes of a round.
    pub open spec fn is_auth_step(
        self,
        reply: AuthReply,
        pending: Option<u64>,
        r: Result<SetupStep, HandlerError>,
    ) -> bool {
        match reply {
            AuthReply::MalformedToken => error::refused(r, NtStatus::InvalidParameter),
            AuthReply::Failure => error::refused(r, NtStatus::LogonFailure),
            AuthReply::Error(text) => r == Err::<SetupStep, HandlerError>(HandlerError::Auth(text)),
            AuthReply::Success { user, session_key, response_token } => match round_session(
                self,
                pending,
            ) {
                Some(id) => r matches Ok(SetupStep::Identified(i)) && i.session_id == id
                    && self.is_success(i.success, user, session_key, response_token),
                None => r matches Ok(SetupStep::NewSession(s)) && self.is_success(
                    s,
                    user,
                    session_key,
                    response_token,
                ),
            },
            AuthReply::Continue(token) => match interim_session(self, pending) {
                Some(id) => r == Ok::<SetupStep, HandlerError>(
                    SetupStep::Interim(
                        SetupInterim {
                            header: self.header,
                            token,
                            dialect: self.dialect,
                            session_id: id,
                        },
                    ),
                ),
                None => r == Ok::<SetupStep, HandlerError>(
                    SetupStep::NewInterim(
                        SetupAwaitInterimId { header: self.header, token, dialect: self.dialect },
                    ),
                ),
            },
        }
    }

    /// Takes what the authentication provider says, and the session that is
    /// being set up.
    pub fn on_auth(self, reply: AuthReply, pending: Option<u64>) -> (r: Result<
        SetupStep,
        HandlerError,
    >)
        ensures
            self.is_auth_step(reply, pending, r),
    {
        let pending = if self.fresh {
            None
        } else {
            pending
        };
        match reply {
            AuthReply::MalformedToken => Err(HandlerError::Status(NtStatus::InvalidParameter)),
            AuthReply::Failure => Err(HandlerError::Status(NtStatus::LogonFailure)),
            AuthReply::Error(text) => Err(HandlerError::Auth(text)),
            AuthReply::Success { user, session_key, response_token } => {
                let token = match response_token {
                    Some(token) => token,
                    None => {
                        let token: Vec<u8> = Vec::new();
                        assert(token@ =~= Seq::<u8>::empty());
                        token
                    },
                };
                let known = match pending {
                    Some(id) => Some(id),
                    None => if self.existing.is_some() {
                        Some(self.header.session_id)
                    } else {
                        None
                    },
                };
                let success = SetupSuccess {
                    header: self.header,
                    previous_session_id: self.previous_session_id,
                    existing: self.existing,
                    dialect: self.dialect,
                    user,
                    session_key,
                    token,
                };
                match known {
                    Some(session_id) => Ok(
                        SetupStep::Identified(SetupIdentified { success, session_id }),
                    ),
                    None => Ok(SetupStep::NewSession(success)),
                }
            },
            AuthReply::Continue(token) => {
                let known = if self.existing.is_some() {
                    Some(self.header.session_id)
                } else {
                    pending
                };
                match known {
                    Some(session_id) => Ok(
                        SetupStep::Interim(
                            SetupInterim {
                                header: self.header,
                                token,
                                dialect: self.dialect,
                                session_id,
                            },
                        ),
                    ),
                    None => Ok(
                        SetupStep::NewInterim(
                            SetupAwaitInterimId {
                                header: self.header,
                                token,
                                dialect: self.dialect,
                            },
                        ),
                    ),
                }
            },
        }
    }
}

impl SetupAwaitInterimId {
    /// What comes of asking for a new session id.
    pub open spec fn interim(self, reply: Result<u64, String>) -> Result<SetupInterim, HandlerError> {
        match reply {
            Err(text) => Err(HandlerError::Internal(text)),
            Ok(session_id) => Ok(
                SetupInterim {
                    header: self.header,
                    token: self.token,
                    dialect: self.dialect,
                    session_id,
                },
            ),
        }
    }

    /// Takes a new session id.
    pub fn on_session_id(self, reply: Result<u64, String>) -> (r: Result<SetupInterim, HandlerError>)
        ensures
            r == self.interim(reply),
    {
        match reply {
            Err(text) => Err(HandlerError::Internal(text)),
            Ok(session_id) => Ok(
                SetupInterim {
                    header: self.header,
                    token: self.token,
                    dialect: self.dialect,
                    session_id,
                },
            ),
        }
    }
}

/// The body of a SESSION_SETUP response.
pub open spec fn setup_body(flags: u16, token: Seq<u8>) -> Seq<u8> {
    codec::le16(9) + codec::le16(flags) + codec::le16(72) + codec::le16(
        (token.len() % 0x1_0000) as u16,
    ) + token
}

fn build_setup_body(flags: u16, token: &[u8]) -> (body: Vec<u8>)
    ensures
        body@ == setup_body(flags, token@),
{
    let mut body: Vec<u8> = Vec::new();
    codec::put_u16(&mut body, 9);
    codec::put_u16(&mut body, flags);
    codec::put_u16(&mut body, 72);
    codec::put_u16(&mut body, (token.len() as u64 % 0x1_0000) as u16);
    codec::put_bytes(&mut body, token);
    assert(body@ =~= setup_body(flags, token@));
    body
}

/// The header of a SESSION_SETUP response: it names the session, and is marked
/// as signed if the response is going to be.
pub open spec fn setup_header(
    request: Smb2Header,
    status: NtStatus,
    credits: u16,
    session_id: u64,
    signed: bool,
) -> Smb2Header {
    Smb2Header {
        session_id,
        flags: if signed {
            Smb2Flags(Smb2Flags::SERVER_TO_REDIR | Smb2Flags::SIGNED)
        } else {
            header::response_header(request, status, credits).flags
        },
        ..header::response_header(request, status, credits)
    }
}

fn build_setup_response(
    request: &Smb2Header,
    status: NtStatus,
    credits: u16,
    session_id: u64,
    signed: bool,
    flags: u16,
    token: &[u8],
) -> (message: Vec<u8>)
    ensures
        message@ == setup_header(*request, status, credits, session_id, signed).bytes()
            + setup_body(flags, token@),
{
    let mut resp_header = header::build_response_header(request, status, credits);
    resp_header.session_id = session_id;
    if signed {
        resp_header.flags = Smb2Flags(Smb2Flags::SERVER_TO_REDIR | Smb2Flags::SIGNED);
    }
    let body = build_setup_body(flags, token);
    common::serialize_response(&resp_header, body.as_slice())
}

impl SetupInterim {
    /// Whether the request and the response go into the hash over what was said
    /// before the session was authenticated. Only the newest dialect has it.
    pub fn hashes(&self) -> (b: bool)
        ensures
            b == (self.dialect == SmbDialect::Smb311),
    {
        self.dialect == SmbDialect::Smb311
    }

    /// The response that asks for another round.
    pub open spec fn response(self, credits: u16) -> Seq<u8> {
        setup_header(
            self.header,
            NtStatus::MoreProcessingRequired,
            credits,
            self.session_id,
            false,
        ).bytes() + setup_body(0, self.token@)
    }

    /// Builds the response that asks for another round.
    pub fn respond(&self, credits: u16) -> (message: Vec<u8>)
        ensures
            message@ == self.response(credits),
    {
        build_setup_response(
            &self.header,
            NtStatus::MoreProcessingRequired,
            credits,
            self.session_id,
            false,
            0,
            self.token.as_slice(),
        )
    }
}

impl SetupSuccess {
    /// Takes a new session id.
    pub fn on_session_id(self, reply: Result<u64, String>) -> (r: Result<
        SetupIdentified,
        HandlerError,
    >)
        ensures
            match reply {
                Err(text) => r == Err::<SetupIdentified, HandlerError>(
                    HandlerError::Internal(text),
                ),
                Ok(session_id) => r == Ok::<SetupIdentified, HandlerError>(
                    SetupIdentified { success: self, session_id },
                ),
            },
    {
        match reply {
            Err(text) => Err(HandlerError::Internal(text)),
            Ok(session_id) => Ok(SetupIdentified { success: self, session_id }),
        }
    }
}

/// What has to happen next with a session whose id is known.
#[derive(Debug)]
pub enum IdentifiedStep {
    /// Look up whether the session exists already, and hand it to `on_session`.
    LookUp(SetupIdentified),
    Established(SetupSession),
}

/// A session that is being established, or authenticated again.
#[derive(Debug)]
pub struct SetupSession {
    pub header: Smb2Header,
    pub previous_session_id: u64,
    pub dialect: SmbDialect,
    pub user: UserInfo,
    pub token: Vec<u8>,
    pub session_id: u64,
    /// The key of the session: that which it had, if it is authenticated again.
    pub session_key: Vec<u8>,
    pub again: bool,
}

impl SetupIdentified {
    /// The session, given the one that exists already.
    pub open spec fn session(self, existing: Option<SessionState>) -> SetupSession {
        SetupSession {
            header: self.success.header,
            previous_session_id: self.success.previous_session_id,
            dialect: self.success.dialect,
            user: self.success.user,
            token: self.success.token,
            session_id: self.session_id,
            session_key: match existing {
                Some(session) => session.session_key,
                None => self.success.session_key,
            },
            again: existing is Some,
        }
    }

    fn establish(self, existing: Option<SessionState>) -> (s: SetupSession)
        ensures
            s == self.session(existing),
    {
        let (session_key, again) = match existing {
            Some(session) => (session.session_key, true),
            None => (self.success.session_key, false),
        };
        SetupSession {
            header: self.success.header,
            previous_session_id: self.success.previous_session_id,
            dialect: self.success.dialect,
            user: self.success.user,
            token: self.success.token,
            session_id: self.session_id,
            session_key,
            again,
        }
    }

    /// What has to happen to find out whether the session exists already.
    pub open spec fn next_step(self) -> IdentifiedStep {
        match self.success.existing {
            None => IdentifiedStep::LookUp(self),
            Some(_) => IdentifiedStep::Established(self.session(self.success.existing)),
        }
    }

    /// Finds out whether the session exists already.
    pub fn step(self) -> (step: IdentifiedStep)
        ensures
            step == self.next_step(),
    {
        if self.success.existing.is_none() {
            return IdentifiedStep::LookUp(self);
        }
        let mut identified = self;
        let existing = identified.success.existing;
        identified.success.existing = None;
        IdentifiedStep::Established(identified.establish(existing))
    }

    /// Takes the session, if the state store found it.
    pub fn on_session(self, reply: Result<Option<SessionState>, String>) -> (s: SetupSession)
        ensures
            s == self.session(
                match reply {
                    Ok(found) => found,
                    Err(_) => None,
                },
            ),
    {
        let existing = match reply {
            Ok(found) => found,
            Err(_) => None,
        };
        self.establish(existing)
    }
}

/// Where the key comes from that signs the messages of a session.
#[derive(Debug)]
pub enum SigningKeySource {
    /// It is known.
    Known(Vec<u8>),
    /// It is derived from the session key.
    Derive(Vec<u8>),
    /// It is derived from the session key and the hash over what was said
    /// before.
    DeriveWithHash(Vec<u8>),
}

/// Whether a key comes from a session key in the way of a dialect.
pub open spec fn is_source(source: SigningKeySource, dialect: SmbDialect, session_key: Seq<u8>) -> bool {
    match dialect {
        SmbDialect::Smb311 => source matches SigningKeySource::DeriveWithHash(k) && k@
            == session_key,
        SmbDialect::Smb302 => source matches SigningKeySource::Derive(k) && k@ == session_key,
        SmbDialect::Smb300 => source matches SigningKeySource::Derive(k) && k@ == session_key,
        _ => source matches SigningKeySource::Known(k) && k@ == session_key,
    }
}

impl SetupSession {
    /// Whether the request and the response go into the hash over what was said
    /// before the session was authenticated.
    pub fn hashes(&self) -> (b: bool)
        ensures
            b == (self.dialect == SmbDialect::Smb311 && !self.again),
    {
        self.dialect == SmbDialect::Smb311 && !self.again
    }

    /// The state of a new session.
    pub open spec fn is_new_state(self, state: SessionState, connection: Connection, now: u64) -> bool {
        &&& state.session_id == self.session_id
        &&& state.user_id == self.user.username
        &&& state.domain == self.user.domain
        &&& state.session_key@ == self.session_key@
        &&& state.dialect == self.dialect
        &&& state.signing_required == connection.signing_required
        &&& state.encryption_required == connection.encryption_required
        &&& state.is_guest == self.user.is_guest
        &&& state.is_anonymous == self.user.is_anonymous
        &&& state.created_at == now
        &&& state.last_access == now
        &&& state.expires_at == expiry(now)
        &&& state.bound_server_id is None
    }

    /// The state that is to be stored, if the session is new.
    pub fn new_state(&self, connection: &Connection) -> (state: Option<SessionState>)
        ensures
            self.again ==> state is None,
            !self.again ==> state is Some && exists|now: u64|
                self.is_new_state(state->0, *connection, now),
    {
        self.new_state_at(connection, current_unix_time())
    }

    /// The state that is to be stored, if the session is new, at a time in
    /// seconds.
    pub fn new_state_at(&self, connection: &Connection, now: u64) -> (state: Option<SessionState>)
        ensures
            self.again ==> state is None,
            !self.again ==> state is Some && self.is_new_state(state->0, *connection, now),
    {
        if self.again {
            return None;
        }
        let session_key = codec::copy_range(self.session_key.as_slice(), 0, self.session_key.len());
        assert(session_key@ =~= self.session_key@);
        let domain = match &self.user.domain {
            Some(d) => Some(d.clone()),
            None => None,
        };
        Some(
            SessionState {
                session_id: self.session_id,
                user_id: self.user.username.clone(),
                domain,
                session_key,
                dialect: self.dialect,
                signing_required: connection.signing_required,
                encryption_required: connection.encryption_required,
                is_guest: self.user.is_guest,
                is_anonymous: self.user.is_anonymous,
                created_at: now,
                last_access: now,
                expires_at: now.wrapping_add(SESSION_LIFETIME),
                bound_server_id: None,
            },
        )
    }

    /// Takes the outcome of storing a new session: from now on it belongs to the
    /// connection.
    pub fn on_stored(&self, connection: &mut Connection, reply: Result<(), String>) -> (r: Result<
        (),
        HandlerError,
    >)
        ensures
            match reply {
                Err(text) => r == Err::<(), HandlerError>(HandlerError::Internal(text))
                    && *final(connection) == *old(connection),
                Ok(_) => r is Ok && final(connection).same_settings(*old(connection)) && final(connection).session_table() == old(connection).session_table().insert(self.session_id),
            },
    {
        match reply {
            Err(text) => Err(HandlerError::Internal(text)),
            Ok(()) => {
                connection.add_session(self.session_id);
                Ok(())
            },
        }
    }

    pub open spec fn spec_replaced_session(self) -> Option<u64> {
        if self.previous_session_id != 0 && self.user.spec_signs() {
            Some(self.previous_session_id)
        } else {
            None
        }
    }

    /// The session that this one replaces, if it does: guests and anonymous
    /// users replace none.
    pub fn replaced_session(&self) -> (id: Option<u64>)
        ensures
            id == self.spec_replaced_session(),
    {
        if self.previous_session_id != 0 && self.user.signs() {
            Some(self.previous_session_id)
        } else {
            None
        }
    }

    /// The response, before it is signed.
    pub open spec fn response(self, credits: u16) -> Seq<u8> {
        setup_header(
            self.header,
            NtStatus::Success,
            credits,
            self.session_id,
            self.user.spec_signs(),
        ).bytes() + setup_body(
            session_flags(self.user.is_guest, self.user.is_anonymous),
            self.token@,
        )
    }

    /// Builds the response, which is yet to be signed.
    pub fn respond(&self, credits: u16) -> (message: Vec<u8>)
        ensures
            message@ == self.response(credits),
            message@.len() >= 64,
    {
        let flags: u16 = compute_session_flags(self.user.is_guest, self.user.is_anonymous);
        let message = build_setup_response(
            &self.header,
            NtStatus::Success,
            credits,
            self.session_id,
            self.user.signs(),
            flags,
            self.token.as_slice(),
        );
        proof {
            let h = setup_header(
                self.header,
                NtStatus::Success,
                credits,
                self.session_id,
                self.user.spec_signs(),
            );
            header::lemma_header_fields(h, setup_body(
                session_flags(self.user.is_guest, self.user.is_anonymous),
                self.token@,
            ));
        }
        message
    }

    /// Where the signing key comes from: a session that is authenticated again
    /// keeps the one that it has here.
    pub fn key_source(&self, keys: &SigningKeys) -> (source: SigningKeySource)
        ensures
            match keys.key_of(self.session_id) {
                Some(key) if self.again => source matches SigningKeySource::Known(k) && k@ == key,
                _ => is_source(source, self.dialect, self.session_key@),
            },
    {
        if self.again {
            if let Some(key) = keys.get(self.session_id) {
                return SigningKeySource::Known(key);
            }
        }
        let key = codec::copy_range(self.session_key.as_slice(), 0, self.session_key.len());
        assert(key@ =~= self.session_key@);
        match self.dialect {
            SmbDialect::Smb311 => SigningKeySource::DeriveWithHash(key),
            SmbDialect::Smb302 => SigningKeySource::Derive(key),
            SmbDialect::Smb300 => SigningKeySource::Derive(key),
            _ => SigningKeySource::Known(key),
        }
    }

    /// Takes the signing key: it is kept, and the response is signed with it,
    /// unless the user is a guest or anonymous.
    pub fn finish(&self, response: Vec<u8>, signing_key: Vec<u8>, keys: &mut SigningKeys) -> (r: Result<
        SignStep,
        HandlerError,
    >)
        ensures
            !self.user.spec_signs() ==> *final(keys) == *old(keys) && r == Ok::<
                SignStep,
                HandlerError,
            >(SignStep::Ready(response)),
            self.user.spec_signs() ==> {
                &&& final(keys).key_of(self.session_id) == Some(signing_key@)
                &&& forall|id: u64|
                    id != self.session_id ==> final(keys).key_of(id) == old(keys).key_of(id)
                &&& if response@.len() < 64 {
                    error::malformed(r, "Message too short to sign"@)
                } else {
                    r matches Ok(SignStep::Sign(p)) && p.wf() && p.key@ == signing::padded_key(
                        signing_key@,
                    ) && p.message@ == signing::without_signature(response@)
                }
            },
    {
        if !self.user.signs() {
            return Ok(SignStep::Ready(response));
        }
        let pending = signing::sign_message(response, signing_key.as_slice());
        keys.insert(self.session_id, signing_key);
        match pending {
            Ok(pending) => Ok(SignStep::Sign(pending)),
            Err(e) => Err(e),
        }
    }
}

/// A session that is bound to a further connection, and waits to be looked up.
#[derive(Debug)]
pub struct BindingAwaitSession {
    pub header: Smb2Header,
    /// The request with its header.
    pub message: Vec<u8>,
}

/// Starts to bind a session to this connection, which its dialect has to allow.
pub fn handle_session_binding(connection: &Connection, header: &Smb2Header, full_message: &[u8]) -> (r: Result<
    BindingAwaitSession,
    HandlerError,
>)
    ensures
        !connection.spec_is_multi_channel_capable() ==> error::refused(
            r,
            NtStatus::RequestNotAccepted,
        ),
        connection.spec_is_multi_channel_capable() ==> (r matches Ok(a) && a.header == *header
            && a.message@ == full_message@),
{
    if !connection.is_multi_channel_capable() {
        return Err(HandlerError::Status(NtStatus::RequestNotAccepted));
    }
    let message = codec::copy_range(full_message, 0, full_message.len());
    assert(message@ =~= full_message@);
    Ok(BindingAwaitSession { header: *header, message })
}

/// The status that binding a session is refused with, if it is.
pub open spec fn binding_refusal(
    connection: Connection,
    header: Smb2Header,
    session: SessionState,
    now: u64,
) -> Option<NtStatus> {
    if connection.dialect is Some && connection.dialect->0 != session.dialect {
        Some(NtStatus::InvalidParameter)
    } else if !header.flags.spec_is_signed() {
        Some(NtStatus::InvalidParameter)
    } else if now > session.expires_at {
        Some(NtStatus::NetworkSessionExpired)
    } else if session.is_guest || session.is_anonymous {
        Some(NtStatus::NotSupported)
    } else if connection.session_table().contains(header.session_id) {
        Some(NtStatus::RequestNotAccepted)
    } else {
        None
    }
}

/// A session that may be bound.
#[derive(Debug)]
pub struct SessionBind {
    pub header: Smb2Header,
    pub session: SessionState,
}

/// What has to happen next with a session that may be bound.
#[derive(Debug)]
pub enum BindingStep {
    /// Compute the message authentication code of the request and finish the
    /// verification with it; if that succeeds, go on with `bind`.
    Verify { bind: SessionBind, pending: PendingVerification },
    /// The session has no key to verify the request with: go on.
    Bind(SessionBind),
}

impl BindingAwaitSession {
    /// What comes of looking up the session, at a time in seconds.
    pub open spec fn is_judged(
        self,
        connection: Connection,
        reply: Result<Option<SessionState>, String>,
        now: u64,
        r: Result<BindingStep, HandlerError>,
    ) -> bool {
        match reply {
            Err(text) => r == Err::<BindingStep, HandlerError>(HandlerError::Internal(text)),
            Ok(None) => error::refused(r, NtStatus::UserSessionDeleted),
            Ok(Some(session)) => match binding_refusal(connection, self.header, session, now) {
                Some(status) => error::refused(r, status),
                None => if session.session_key@.len() == 0 {
                    r == Ok::<BindingStep, HandlerError>(
                        BindingStep::Bind(SessionBind { header: self.header, session }),
                    )
                } else if self.message@.len() < 64 {
                    error::malformed(r, "Message too short to verify"@)
                } else {
                    &&& r matches Ok(BindingStep::Verify { bind, pending })
                    &&& bind == (SessionBind { header: self.header, session })
                    &&& pending.key@ == signing::padded_key(session.session_key@)
                    &&& pending.message@ == signing::without_signature(self.message@)
                    &&& pending.provided@ == self.message@.subrange(48, 64)
                },
            },
        }
    }

    /// Takes the session that the state store found.
    pub fn on_session(self, connection: &Connection, reply: Result<Option<SessionState>, String>) -> (r:
        Result<BindingStep, HandlerError>)
        ensures
            exists|now: u64| self.is_judged(*connection, reply, now, r),
    {
        self.on_session_at(connection, reply, current_unix_time())
    }

    /// Takes the session that the state store found, at a time in seconds.
    pub fn on_session_at(
        self,
        connection: &Connection,
        reply: Result<Option<SessionState>, String>,
        now: u64,
    ) -> (r: Result<BindingStep, HandlerError>)
        ensures
            self.is_judged(*connection, reply, now, r),
    {
        let session = match reply {
            Err(text) => {
                return Err(HandlerError::Internal(text));
            },
            Ok(None) => {
                return Err(HandlerError::Status(NtStatus::UserSessionDeleted));
            },
            Ok(Some(session)) => session,
        };
        if let Some(conn_dialect) = connection.dialect {
            if conn_dialect != session.dialect {
                return Err(HandlerError::Status(NtStatus::InvalidParameter));
            }
        }
        if !self.header.flags.is_signed() {
            return Err(HandlerError::Status(NtStatus::InvalidParameter));
        }
        if now > session.expires_at {
            return Err(HandlerError::Status(NtStatus::NetworkSessionExpired));
        }
        if session.is_guest || session.is_anonymous {
            return Err(HandlerError::Status(NtStatus::NotSupported));
        }
        if connection.has_session(self.header.session_id) {
            return Err(HandlerError::Status(NtStatus::RequestNotAccepted));
        }
        if session.session_key.len() == 0 {
            return Ok(BindingStep::Bind(SessionBind { header: self.header, session }));
        }
        match signing::verify_request_signature(
            self.message.as_slice(),
            session.session_key.as_slice(),
        ) {
            Err(e) => Err(e),
            Ok(pending) => Ok(
                BindingStep::Verify {
                    bind: SessionBind { header: self.header, session },
                    pending,
                },
            ),
        }
    }
}

impl SessionBind {
    /// Binds the session: it belongs to the connection from now on, with its
    /// key, and its lifetime is to be renewed.
    pub fn bind(self, connection: &mut Connection, keys: &mut SigningKeys, credits: u16) -> (message: Vec<u8>)
        ensures
            final(connection).same_settings(*old(connection)),
            final(connection).session_table() == old(connection).session_table().insert(
                self.header.session_id,
            ),
            self.session.session_key@.len() == 0 ==> *final(keys) == *old(keys),
            self.session.session_key@.len() > 0 ==> final(keys).key_of(self.header.session_id)
                == Some(self.session.session_key@),
            forall|id: u64|
                id != self.header.session_id ==> final(keys).key_of(id) == old(keys).key_of(id),
            message@ == setup_header(
                self.header,
                NtStatus::Success,
                credits,
                self.header.session_id,
                false,
            ).bytes() + setup_body(
                session_flags(self.session.is_guest, self.session.is_anonymous),
                Seq::empty(),
            ),
    {
        connection.add_session(self.header.session_id);
        let no_token: Vec<u8> = Vec::new();
        assert(no_token@ =~= Seq::<u8>::empty());
        let message = build_setup_response(
            &self.header,
            NtStatus::Success,
            credits,
            self.header.session_id,
            false,
            compute_session_flags(self.session.is_guest, self.session.is_anonymous),
            no_token.as_slice(),
        );
        if self.session.session_key.len() > 0 {
            keys.insert(self.header.session_id, self.session.session_key);
        }
        message
    }
}

/// Handles a LOGOFF request, given its session as far as the state store found
/// it: the session leaves the connection with its key. It is to be deleted from
/// the state store too.
pub fn handle_logoff(
    header: &Smb2Header,
    reply: Result<Option<SessionState>, String>,
    connection: &mut Connection,
    keys: &mut SigningKeys,
    credits: u16,
) -> (r: Result<Vec<u8>, HandlerError>)
    ensures
        match reply {
            Err(text) => r == Err::<Vec<u8>, HandlerError>(HandlerError::Internal(text))
                && *final(connection) == *old(connection) && *final(keys) == *old(keys),
            Ok(None) => error::refused(r, NtStatus::UserSessionDeleted) && *final(connection)
                == *old(connection) && *final(keys) == *old(keys),
            Ok(Some(_)) => {
                &&& final(connection).same_settings(*old(connection))
                &&& final(connection).session_table() == old(connection).session_table().remove(
                    header.session_id,
                )
                &&& final(keys).key_of(header.session_id) is None
                &&& forall|id: u64|
                    id != header.session_id ==> final(keys).key_of(id) == old(keys).key_of(id)
                &&& r matches Ok(m)
                &&& m@ == common::response(*header, NtStatus::Success, credits, common::empty_body())
            },
        },
{
    match reply {
        Err(text) => Err(HandlerError::Internal(text)),
        Ok(None) => Err(HandlerError::Status(NtStatus::UserSessionDeleted)),
        Ok(Some(_)) => {
            connection.remove_session(header.session_id);
            keys.remove(header.session_id);
            Ok(common::build_empty_response(header, credits))
        },
    }
}

/// The session id that the first round is given is that of each round after it
/// and of the session in the end.
pub proof fn law_session_id_is_kept(interim: SetupInterim, next: SetupAuth)
    requires
        !next.fresh,
        next.existing is None || next.header.session_id == interim.session_id,
    ensures
        round_session(next, Some(interim.session_id)) == Some(interim.session_id),
        interim_session(next, Some(interim.session_id)) == Some(interim.session_id),
{
}

/// A session that is authenticated again keeps its id and its key, whatever key
/// the authentication comes to.
pub proof fn law_reauthentication_keeps_session(
    auth: SetupAuth,
    identified: SetupIdentified,
    existing: SessionState,
)
    requires
        auth.existing == Some(existing),
        round_session(auth, None) == Some(identified.session_id),
    ensures
        identified.session_id == auth.header.session_id,
        identified.session(Some(existing)).session_key == existing.session_key,
        identified.session(Some(existing)).again,
{
}

/// A request that names no session never continues one: it gets a session id of
/// its own.
pub proof fn law_no_session_id_starts_anew(
    connection: Connection,
    auth: SetupAuth,
    header: Smb2Header,
    body: Seq<u8>,
    pending: Option<u64>,
)
    requires
        header.session_id == 0,
        is_round(auth, connection, header, body),
    ensures
        auth.fresh,
        !authenticates_again(connection, header, pending),
        round_session(auth, pending) is None,
        interim_session(auth, pending) is None,
{
}

/// The first of two rounds. A request that names no session, and which the
/// provider wants another round for, gets the new session id that the state store
/// gives, whatever session was being set up before; and the client is told it,
/// with the status that asks for more.
pub proof fn law_first_round_gives_new_id(
    connection: Connection,
    header: Smb2Header,
    body: Seq<u8>,
    leftover: Option<u64>,
    start: Result<SetupStart, HandlerError>,
    token: Vec<u8>,
    step: Result<SetupStep, HandlerError>,
    session_id: u64,
    credits: u16,
    read: Smb2Header,
)
    requires
        header.session_id == 0,
        body.len() >= 24,
        body[2] & SESSION_BINDING == 0,
        is_setup_start(connection, header, body, leftover, start),
        start matches Ok(SetupStart::Auth(auth)) ==> auth.is_auth_step(
            AuthReply::Continue(token),
            leftover,
            step,
        ),
        step matches Ok(SetupStep::NewInterim(a)) ==> read.is_header_of(
            a.interim(Ok(session_id))->Ok_0.response(credits),
        ),
    ensures
        start matches Ok(SetupStart::Auth(auth)) && auth.fresh && auth.token@ == security_token(body),
        step matches Ok(SetupStep::NewInterim(a)) && (a.interim(Ok(session_id)) matches Ok(interim)
            && interim.session_id == session_id && interim.token == token),
        read.status == 0xC000_0016,
        read.session_id == session_id,
{
    let auth = start->Ok_0->Auth_0;
    law_no_session_id_starts_anew(connection, auth, header, body, leftover);
    let interim = step->Ok_0->NewInterim_0.interim(Ok(session_id))->Ok_0;
    law_setup_response_names_session(
        interim.header,
        NtStatus::MoreProcessingRequired,
        credits,
        session_id,
        false,
        setup_body(0, token@),
        read,
    );
}

/// The second of two rounds. A request that names the session that is being set
/// up, and which the provider accepts, establishes that session with the
/// provider's key, if the state store does not have it yet; its state is stored
/// under that id, and the client is told it with success.
pub proof fn law_second_round_establishes_session(
    connection: Connection,
    header: Smb2Header,
    body: Seq<u8>,
    session_id: u64,
    start: Result<SetupStart, HandlerError>,
    user: UserInfo,
    session_key: Vec<u8>,
    response_token: Option<Vec<u8>>,
    step: Result<SetupStep, HandlerError>,
    now: u64,
    state: SessionState,
    credits: u16,
    read: Smb2Header,
)
    requires
        session_id != 0,
        header.session_id == session_id,
        body.len() >= 24,
        body[2] & SESSION_BINDING == 0,
        is_setup_start(connection, header, body, Some(session_id), start),
        start matches Ok(SetupStart::Auth(auth)) ==> auth.is_auth_step(
            AuthReply::Success { user, session_key, response_token },
            Some(session_id),
            step,
        ),
        step matches Ok(SetupStep::Identified(i)) ==> i.session(None).is_new_state(
            state,
            connection,
            now,
        ) && read.is_header_of(i.session(None).response(credits)),
    ensures
        start matches Ok(SetupStart::Auth(auth)) && !auth.fresh,
        step matches Ok(SetupStep::Identified(i)) && i.next_step() == IdentifiedStep::LookUp(i)
            && i.session_id == session_id && i.session(None).session_id == session_id && i.session(
            None,
        ).session_key == session_key && !i.session(None).again && i.session(None).user == user,
        state.session_id == session_id,
        state.session_key@ == session_key@,
        read.status == 0,
        read.session_id == session_id,
        user.spec_signs() ==> read.flags.spec_is_signed(),
{
    let auth = start->Ok_0->Auth_0;
    let i = step->Ok_0->Identified_0;
    let session = i.session(None);
    law_setup_response_names_session(
        session.header,
        NtStatus::Success,
        credits,
        session_id,
        user.spec_signs(),
        setup_body(session_flags(user.is_guest, user.is_anonymous), session.token@),
        read,
    );
}

/// A client can read the session id off each response to a round.
pub proof fn law_setup_response_names_session(
    request: Smb2Header,
    status: NtStatus,
    credits: u16,
    session_id: u64,
    signed: bool,
    body: Seq<u8>,
    read: Smb2Header,
)
    requires
        read.is_header_of(
            setup_header(request, status, credits, session_id, signed).bytes() + body,
        ),
    ensures
        read.session_id == session_id,
        read.status == status.spec_code(),
        read.message_id == request.message_id,
        signed ==> read.flags.spec_is_signed(),
{
    header::law_header_round_trip(
        setup_header(request, status, credits, session_id, signed),
        body,
        read,
    );
    assert((1u32 | 8u32) & 8u32 != 0) by (bit_vector);
}

/// No session of an unknown user, no expired one, and none whose request is not
/// signed is bound to a connection, and none is bound twice.
pub proof fn law_binding_rules(connection: Connection, header: Smb2Header, session: SessionState, now: u64)
    requires
        binding_refusal(connection, header, session, now) is None,
    ensures
        !session.is_guest && !session.is_anonymous,
        now <= session.expires_at,
        header.flags.spec_is_signed(),
        !connection.session_table().contains(header.session_id),
        connection.dialect matches Some(d) ==> d == session.dialect,
{
}

#[verifier::rlimit(50)]
proof fn lemma_setup_body(flags: u16, token: Seq<u8>)
    requires
        token.len() <= 0xFFFF,
    ensures
        ({
            let body = setup_body(flags, token);
            &&& body.len() == 8 + token.len()
            &&& codec::u16_at(body, 0) == 9
            &&& codec::u16_at(body, 2) == flags
            &&& codec::u16_at(body, 4) == 72
            &&& codec::u16_at(body, 6) == token.len()
            &&& body.subrange(8, 8 + token.len() as int) == token
        }),
{
    let body = setup_body(flags, token);
    assert(body.subrange(0, 2) =~= codec::le16(9));
    codec::lemma_read_le16(body, 0, 9);
    assert(body.subrange(2, 4) =~= codec::le16(flags));
    codec::lemma_read_le16(body, 2, flags);
    assert(body.subrange(4, 6) =~= codec::le16(72));
    codec::lemma_read_le16(body, 4, 72);
    assert(body.subrange(6, 8) =~= codec::le16(token.len() as u16));
    codec::lemma_read_le16(body, 6, token.len() as u16);
    assert(body.subrange(8, 8 + token.len() as int) =~= token);
}

/// The token of every SESSION_SETUP response stands in the message where the
/// response says: from the offset in the two bytes at 68 on, as many bytes as
/// the two at 70 say. The session's flags stand at 66, its id at 40.
#[verifier::rlimit(50)]
pub proof fn law_setup_response_holds_token(
    request: Smb2Header,
    status: NtStatus,
    credits: u16,
    session_id: u64,
    signed: bool,
    flags: u16,
    token: Seq<u8>,
)
    requires
        token.len() <= 0xFFFF,
    ensures
        ({
            let m = setup_header(request, status, credits, session_id, signed).bytes()
                + setup_body(flags, token);
            let offset = codec::u16_at(m, 68) as int;
            let length = codec::u16_at(m, 70) as int;
            &&& length == token.len()
            &&& m.len() == offset + length
            &&& m.subrange(offset, offset + length) == token
            &&& codec::u16_at(m, 64) == 9
            &&& codec::u16_at(m, 66) == flags
            &&& codec::u32_at(m, 8) == status.spec_code()
            &&& codec::u16_at(m, 14) == credits
            &&& codec::u64_at(m, 24) == request.message_id
            &&& codec::u64_at(m, 40) == session_id
            &&& codec::u32_at(m, 16) == if signed {
                9u32
            } else {
                1u32
            }
        }),
{
    let h = setup_header(request, status, credits, session_id, signed);
    let body = setup_body(flags, token);
    header::law_header_layout(h, body);
    lemma_setup_body(flags, token);
    codec::lemma_behind(h.bytes(), body, 0);
    codec::lemma_behind(h.bytes(), body, 2);
    codec::lemma_behind(h.bytes(), body, 4);
    codec::lemma_behind(h.bytes(), body, 6);
    codec::lemma_behind(h.bytes(), body, 8);
    assert(body.subrange(8, 8 + token.len() as int) == token);
    assert(1u32 | 8 == 9) by (bit_vector);
}

/// The answer to a round that is to be followed by another one, and the answer
/// to the last one, hold the token of the authentication provider where they
/// say, for the session that is being set up; the one says that more is to come,
/// the other one that the session is there, whether its user is a guest (bit 0
/// of the flags) or anonymous (bit 1).
#[verifier::rlimit(50)]
pub proof fn law_rounds_answer_with_token(
    interim: SetupInterim,
    session: SetupSession,
    credits: u16,
)
    requires
        interim.token@.len() <= 0xFFFF,
        session.token@.len() <= 0xFFFF,
    ensures
        ({
            let m = interim.response(credits);
            let offset = codec::u16_at(m, 68) as int;
            let length = codec::u16_at(m, 70) as int;
            &&& length == interim.token@.len()
            &&& m.subrange(offset, offset + length) == interim.token@
            &&& codec::u64_at(m, 40) == interim.session_id
            &&& codec::u32_at(m, 8) == 0xC000_0016
            &&& codec::u16_at(m, 66) == 0
        }),
        ({
            let m = session.response(credits);
            let offset = codec::u16_at(m, 68) as int;
            let length = codec::u16_at(m, 70) as int;
            &&& length == session.token@.len()
            &&& m.subrange(offset, offset + length) == session.token@
            &&& codec::u64_at(m, 40) == session.session_id
            &&& codec::u32_at(m, 8) == 0
            &&& codec::u16_at(m, 66) & 1 != 0 <==> session.user.is_guest
            &&& codec::u16_at(m, 66) & 2 != 0 <==> session.user.is_anonymous
            &&& codec::u32_at(m, 16) == 9 <==> !session.user.is_guest && !session.user.is_anonymous
        }),
{
    let flags = session_flags(session.user.is_guest, session.user.is_anonymous);
    law_session_flags(session.user.is_guest, session.user.is_anonymous);
    law_setup_response_holds_token(
        interim.header,
        NtStatus::MoreProcessingRequired,
        credits,
        interim.session_id,
        false,
        0,
        interim.token@,
    );
    law_setup_response_holds_token(
        session.header,
        NtStatus::Success,
        credits,
        session.session_id,
        session.user.spec_signs(),
        flags,
        session.token@,
    );
}

/// The flags of a session: bit 0 if its user is a guest, bit 1 if anonymous,
/// and no other one.
pub proof fn law_session_flags(is_guest: bool, is_anonymous: bool)
    ensures
        session_flags(is_guest, is_anonymous) & 1 != 0 <==> is_guest,
        session_flags(is_guest, is_anonymous) & 2 != 0 <==> is_anonymous,
        session_flags(is_guest, is_anonymous) < 4,
{
    assert(0u16 & 1 == 0 && 0u16 & 2 == 0 && 1u16 & 1 != 0 && 1u16 & 2 == 0 && (0u16 | 2) & 1 == 0
        && (0u16 | 2) & 2 != 0 && (1u16 | 2) & 1 != 0 && (1u16 | 2) & 2 != 0 && (0u16 | 2) < 4 && (
    1u16 | 2) < 4) by (bit_vector);
}

/// The token that a client puts into a request, from the offset in the two
/// bytes at 12 of the body on and as long as the two at 14 say, is the one that
/// the authentication provider gets.
pub proof fn law_request_token_is_found(head: Seq<u8>, body: Seq<u8>, token: Seq<u8>)
    requires
        head.len() == 64,
        body.len() >= 24,
        64 <= codec::u16_at(body, 12),
        codec::u16_at(body, 14) == token.len(),
        codec::u16_at(body, 12) + token.len() <= 64 + body.len(),
        (head + body).subrange(
            codec::u16_at(body, 12) as int,
            codec::u16_at(body, 12) + token.len() as int,
        ) == token,
    ensures
        security_token(body) == token,
{
    common::law_message_part_is_in_message(
        head,
        body,
        codec::u16_at(body, 12) as int,
        token.len() as int,
    );
}

/// A request binds a session to a further connection if bit 0 of byte 2 of its
/// body is set, and only then; otherwise its token is handed on, and the
/// session that it names at 16 is the one to replace.
pub proof fn law_what_setup_is_about(
    connection: Connection,
    header: Smb2Header,
    body: Seq<u8>,
    pending: Option<u64>,
    r: Result<SetupStart, HandlerError>,
)
    requires
        body.len() >= 24,
        is_setup_start(connection, header, body, pending, r),
    ensures
        r is Ok,
        r->Ok_0 is Binding <==> body[2] & 1 != 0,
        r matches Ok(SetupStart::Again(a)) ==> a.session_id == header.session_id
            && a.auth.previous_session_id == codec::u64_at(body, 16) && !a.auth.fresh
            && connection.session_table().contains(header.session_id) && pending is None,
        r matches Ok(SetupStart::Auth(auth)) ==> auth.previous_session_id == codec::u64_at(body, 16)
            && (auth.fresh <==> header.session_id == 0) && auth.header == header,
{
}

/// A new session belongs to the user who was authenticated, has the key of
/// their session, and lasts for an hour.
pub proof fn law_new_session_state(
    session: SetupSession,
    state: SessionState,
    connection: Connection,
    now: u64,
)
    requires
        session.is_new_state(state, connection, now),
        now + 3600 <= u64::MAX,
    ensures
        state.session_id == session.session_id,
        state.user_id == session.user.username,
        state.domain == session.user.domain,
        state.session_key@ == session.session_key@,
        state.dialect == session.dialect,
        state.is_guest == session.user.is_guest,
        state.is_anonymous == session.user.is_anonymous,
        state.signing_required == connection.signing_required,
        state.encryption_required == connection.encryption_required,
        state.created_at == now && state.last_access == now,
        state.expires_at == now + 3600,
{
}

/// Where the signing key of a new session comes from: the two newest kinds of
/// dialect derive it, the newest one from what was said before as well; older
/// ones take the session key itself.
pub proof fn law_signing_key_source(source: SigningKeySource, dialect: SmbDialect, key: Seq<u8>)
    requires
        is_source(source, dialect, key),
    ensures
        source is Known <==> dialect == SmbDialect::Smb202 || dialect == SmbDialect::Smb210,
        source is Derive <==> dialect == SmbDialect::Smb300 || dialect == SmbDialect::Smb302,
        source is DeriveWithHash <==> dialect == SmbDialect::Smb311,
        match source {
            SigningKeySource::Known(k) => k@ == key,
            SigningKeySource::Derive(k) => k@ == key,
            SigningKeySource::DeriveWithHash(k) => k@ == key,
        },
{
}

/// A session may be bound if it speaks the dialect of the connection, the
/// request is signed, it has not expired, it has a user, and it is not here
/// already; only then.
pub proof fn law_who_may_bind(
    connection: Connection,
    header: Smb2Header,
    session: SessionState,
    now: u64,
)
    ensures
        binding_refusal(connection, header, session, now) is None <==> {
            &&& connection.dialect is None || connection.dialect == Some(session.dialect)
            &&& header.flags.0 & 8 != 0
            &&& now <= session.expires_at
            &&& !session.is_guest && !session.is_anonymous
            &&& !connection.session_table().contains(header.session_id)
        },
{
}

/// Only one who proves who they are gets a session: after each other answer of
/// the authentication provider but that another round is needed, the request is
/// refused.
pub proof fn law_only_authenticated_users_get_sessions(
    auth: SetupAuth,
    reply: AuthReply,
    pending: Option<u64>,
    r: Result<SetupStep, HandlerError>,
)
    requires
        auth.is_auth_step(reply, pending, r),
    ensures
        r matches Ok(SetupStep::NewSession(_)) ==> reply is Success,
        r matches Ok(SetupStep::Identified(_)) ==> reply is Success,
        r is Err <==> reply is Failure || reply is MalformedToken || reply is Error,
        reply is Failure ==> error::refused(r, NtStatus::LogonFailure),
        reply is MalformedToken ==> error::refused(r, NtStatus::InvalidParameter),
        r matches Ok(SetupStep::NewSession(s)) ==> (reply matches AuthReply::Success {
            user,
            session_key,
            response_token,
        } && s.user == user && s.session_key == session_key),
        r matches Ok(SetupStep::Identified(i)) ==> (reply matches AuthReply::Success {
            user,
            session_key,
            response_token,
        } && i.success.user == user && i.success.session_key == session_key),
{
}

/// A session that was there already keeps its key; a new one has the key that
/// the authentication gave.
pub proof fn law_session_keeps_its_key(identified: SetupIdentified, existing: Option<SessionState>)
    ensures
        ({
            let s = identified.session(existing);
            &&& s.again <==> existing is Some
            &&& existing matches Some(e) ==> s.session_key == e.session_key
            &&& existing is None ==> s.session_key == identified.success.session_key
            &&& s.session_id == identified.session_id
            &&& s.user == identified.success.user
            &&& s.token == identified.success.token
            &&& s.dialect == identified.success.dialect
            &&& s.previous_session_id == identified.success.previous_session_id
        }),
{
}

/// The session that a request names as its former one is replaced if the user
/// is neither a guest nor anonymous, and only then.
pub proof fn law_former_session_is_replaced(session: SetupSession)
    ensures
        session.spec_replaced_session() is Some <==> session.previous_session_id != 0
            && !session.user.is_guest && !session.user.is_anonymous,
        session.spec_replaced_session() matches Some(id) ==> id == session.previous_session_id,
{
}

/// A session that has a key is bound only after the signature of the request,
/// which stands in the bytes from 48 to 64, was held against that key; a session
/// that is not there is not bound.
pub proof fn law_binding_is_verified(
    wait: BindingAwaitSession,
    connection: Connection,
    reply: Result<Option<SessionState>, String>,
    now: u64,
    r: Result<BindingStep, HandlerError>,
)
    requires
        wait.is_judged(connection, reply, now, r),
    ensures
        r matches Ok(BindingStep::Bind(bind)) ==> reply == Ok::<Option<SessionState>, String>(
            Some(bind.session),
        ) && bind.session.session_key@.len() == 0 && bind.header == wait.header,
        r matches Ok(BindingStep::Verify { bind, pending }) ==> {
            &&& reply == Ok::<Option<SessionState>, String>(Some(bind.session))
            &&& bind.header == wait.header
            &&& pending.provided@.len() == 16
            &&& forall|i: int| 0 <= i < 16 ==> pending.provided@[i] == wait.message@[48 + i]
            &&& forall|i: int|
                0 <= i < 16 && i < bind.session.session_key@.len() ==> pending.key@[i]
                    == bind.session.session_key@[i]
        },
        r is Ok ==> (reply matches Ok(Some(session)) && wait.header.flags.0 & 8 != 0 && now
            <= session.expires_at && !session.is_guest && !session.is_anonymous),
{
}

/// After a successful round all that the authentication provider said is known:
/// the user, the key of the session, and the token for the client, which is
/// empty if there is none.
pub proof fn law_success_is_remembered(
    auth: SetupAuth,
    s: SetupSuccess,
    user: UserInfo,
    session_key: Vec<u8>,
    token: Option<Vec<u8>>,
)
    requires
        auth.is_success(s, user, session_key, token),
    ensures
        s.user == user,
        s.session_key == session_key,
        token matches Some(t) ==> s.token@ == t@,
        token is None ==> s.token@.len() == 0,
        s.header == auth.header,
        s.previous_session_id == auth.previous_session_id,
        s.dialect == auth.dialect,
        s.existing == auth.existing,
{
}

/// A request that names a place for its token which lies in the header, or
/// reaches beyond the request, has the token at the start of its body, if there
/// is room for it; otherwise it has none.
pub proof fn law_token_elsewhere(body: Seq<u8>)
    requires
        codec::u16_at(body, 12) < 64 || codec::u16_at(body, 12) - 64 + codec::u16_at(body, 14)
            > body.len(),
    ensures
        codec::u16_at(body, 14) <= body.len() ==> security_token(body).len() == codec::u16_at(
            body,
            14,
        ) && forall|i: int|
            0 <= i < codec::u16_at(body, 14) ==> #[trigger] security_token(body)[i] == body[i],
        codec::u16_at(body, 14) > body.len() ==> security_token(body).len() == 0,
{
}

/// A round belongs to the session that is being set up, unless it starts anew;
/// otherwise to the session that it authenticates again; otherwise to none yet.
pub proof fn law_session_of_round(auth: SetupAuth, pending: Option<u64>)
    ensures
        !auth.fresh && pending is Some ==> round_session(auth, pending) == pending,
        (auth.fresh || pending is None) && auth.existing is Some ==> round_session(auth, pending)
            == Some(auth.header.session_id),
        (auth.fresh || pending is None) && auth.existing is None ==> round_session(auth, pending)
            is None,
        auth.existing is Some ==> interim_session(auth, pending) == Some(auth.header.session_id),
        auth.existing is None && auth.fresh ==> interim_session(auth, pending) is None,
        auth.existing is None && !auth.fresh ==> interim_session(auth, pending) == pending,
{
}

/// The client goes on in the session whose id it is given, with the token of the
/// authentication provider.
pub proof fn law_interim_goes_on(wait: SetupAwaitInterimId, session_id: u64)
    ensures
        wait.interim(Ok(session_id)) matches Ok(next) && next.session_id == session_id && next.token
            == wait.token && next.header == wait.header && next.dialect == wait.dialect,
{
}

} // verus!
