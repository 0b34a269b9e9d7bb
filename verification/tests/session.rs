use std::collections::HashMap;

use rustsmb_server::connection::Connection;
use rustsmb_server::error::HandlerError;
use rustsmb_server::handler::session::{
    handle_logoff, handle_session_binding, handle_session_setup, AuthReply, BindingStep,
    IdentifiedStep, SetupStart, SetupStep, SigningKeySource, UserInfo, SESSION_FLAG_IS_GUEST,
};
use rustsmb_server::handler::signing::{
    maybe_sign_response, sign_message, verify_request_signature, SignStep, SigningKeys,
};
use rustsmb_server::protocol::dialect::SmbDialect;
use rustsmb_server::protocol::header::{Smb2Command, Smb2Flags, Smb2Header};
use rustsmb_server::protocol::status::NtStatus;
use rustsmb_server::state::SessionState;

const STATUS_SUCCESS: u32 = 0x00000000;
const STATUS_MORE_PROCESSING_REQUIRED: u32 = 0xC0000016;
const STATUS_REQUEST_NOT_ACCEPTED: u32 = 0xC00000D0;
const STATUS_INVALID_PARAMETER: u32 = 0xC000000D;
const STATUS_NETWORK_SESSION_EXPIRED: u32 = 0xC000035C;
const STATUS_NOT_SUPPORTED: u32 = 0xC00000BB;
const STATUS_USER_SESSION_DELETED: u32 = 0xC0000203;

const NOW: u64 = 1_700_000_000;

/// The sessions that all connections share.
struct Store {
    sessions: HashMap<u64, SessionState>,
    next_id: u64,
}

impl Store {
    fn new() -> Self {
        Store {
            sessions: HashMap::new(),
            next_id: 1,
        }
    }

    fn next_session_id(&mut self) -> u64 {
        let id = self.next_id;
        self.next_id += 1;
        id
    }

    fn get(&self, session_id: u64) -> Option<SessionState> {
        self.sessions.get(&session_id).cloned()
    }
}

/// A connection with an authentication provider that asks for a number of
/// rounds before it succeeds.
struct Handler {
    connection: Connection,
    keys: SigningKeys,
    pending: Option<u64>,
    rounds_before_success: u32,
    round: u32,
    session_key: Vec<u8>,
}

impl Handler {
    fn new(rounds_before_success: u32, session_key: Vec<u8>) -> Self {
        Handler {
            connection: Connection::new(1, 65536, 65536, 65536),
            keys: SigningKeys::new(),
            pending: None,
            rounds_before_success,
            round: 0,
            session_key,
        }
    }

    fn rounds(rounds_before_success: u32) -> Self {
        Self::new(rounds_before_success, vec![0x42; 16])
    }

    fn authenticate(&mut self) -> AuthReply {
        let round = self.round;
        self.round += 1;
        if round % (self.rounds_before_success + 1) < self.rounds_before_success {
            AuthReply::Continue(format!("challenge_round_{}", round + 1).into_bytes())
        } else {
            AuthReply::Success {
                user: user(false, false),
                session_key: self.session_key.clone(),
                response_token: Some(b"final_token".to_vec()),
            }
        }
    }

    fn setup(&mut self, store: &mut Store, request: &[u8]) -> Result<Vec<u8>, HandlerError> {
        let header = Smb2Header::parse(request).unwrap();
        let start = handle_session_setup(&self.connection, &header, &request[64..], self.pending)?;
        let auth = match start {
            SetupStart::Binding => {
                let awaiting = handle_session_binding(&self.connection, &header, request)?;
                let found = store.get(header.session_id);
                let step = awaiting.on_session_at(&self.connection, Ok(found), NOW)?;
                let bind = match step {
                    BindingStep::Bind(bind) => bind,
                    BindingStep::Verify { bind, pending } => {
                        let mac = code(&pending.key, &pending.message);
                        pending.finish(&mac)?;
                        bind
                    }
                };
                return Ok(bind.bind(&mut self.connection, &mut self.keys, 1));
            }
            SetupStart::Again(awaiting) => {
                let found = store.get(awaiting.session_id);
                awaiting.on_session(Ok(found))
            }
            SetupStart::Auth(auth) => auth,
        };
        if auth.fresh {
            self.pending = None;
        }
        let reply = self.authenticate();
        let identified = match auth.on_auth(reply, self.pending)? {
            SetupStep::NewSession(success) => {
                success.on_session_id(Ok(store.next_session_id()))?
            }
            SetupStep::Identified(identified) => identified,
            SetupStep::NewInterim(awaiting) => {
                let interim = awaiting.on_session_id(Ok(store.next_session_id()))?;
                self.pending = Some(interim.session_id);
                return Ok(interim.respond(1));
            }
            SetupStep::Interim(interim) => {
                self.pending = Some(interim.session_id);
                return Ok(interim.respond(1));
            }
        };
        let session = match identified.step() {
            IdentifiedStep::LookUp(identified) => {
                let found = store.get(identified.session_id);
                identified.on_session(Ok(found))
            }
            IdentifiedStep::Established(session) => session,
        };
        if let Some(state) = session.new_state_at(&self.connection, NOW) {
            store.sessions.insert(state.session_id, state);
            session.on_stored(&mut self.connection, Ok(()))?;
        }
        if let Some(replaced) = session.replaced_session() {
            store.sessions.remove(&replaced);
        }
        let response = session.respond(1);
        let key = match session.key_source(&self.keys) {
            SigningKeySource::Known(key) => key,
            SigningKeySource::Derive(key) => key,
            SigningKeySource::DeriveWithHash(key) => key,
        };
        match session.finish(response, key, &mut self.keys)? {
            SignStep::Ready(message) => Ok(message),
            SignStep::Sign(pending) => {
                let mac = code(&pending.key, &pending.message);
                Ok(pending.finish(&mac))
            }
        }
    }

    fn logoff(&mut self, store: &mut Store, session_id: u64) -> Result<Vec<u8>, HandlerError> {
        let header = header(Smb2Command::Logoff, session_id, 0);
        let found = store.get(session_id);
        let response =
            handle_logoff(&header, Ok(found), &mut self.connection, &mut self.keys, 1)?;
        store.sessions.remove(&session_id);
        Ok(response)
    }
}

/// Stands in for the message authentication code.
fn code(key: &[u8; 16], message: &[u8]) -> [u8; 16] {
    let mut mac = *key;
    for (i, byte) in message.iter().enumerate() {
        mac[i % 16] = mac[i % 16].wrapping_mul(31).wrapping_add(*byte);
    }
    mac
}

fn user(is_guest: bool, is_anonymous: bool) -> UserInfo {
    UserInfo {
        username: "testuser".to_string(),
        domain: Some("TESTDOMAIN".to_string()),
        is_guest,
        is_anonymous,
    }
}

fn header(command: Smb2Command, session_id: u64, flags: u32) -> Smb2Header {
    Smb2Header {
        structure_size: 64,
        credit_charge: 1,
        status: 0,
        command,
        credits: 1,
        flags: Smb2Flags(flags),
        next_command: 0,
        message_id: 1,
        async_id: 0,
        tree_id: 0,
        session_id,
        signature: [0u8; 16],
    }
}

fn setup_message(header: &Smb2Header, flags: u8, previous: u64, token: &[u8]) -> Vec<u8> {
    let mut buf = Vec::new();
    header.write(&mut buf);
    buf.extend_from_slice(&25u16.to_le_bytes());
    buf.push(flags);
    buf.push(1);
    buf.extend_from_slice(&[0; 8]);
    buf.extend_from_slice(&88u16.to_le_bytes());
    buf.extend_from_slice(&(token.len() as u16).to_le_bytes());
    buf.extend_from_slice(&previous.to_le_bytes());
    buf.extend_from_slice(token);
    buf
}

fn build_session_setup_request(session_id: u64, security_buffer: &[u8]) -> Vec<u8> {
    let header = header(Smb2Command::SessionSetup, session_id, 0);
    setup_message(&header, 0, 0, security_buffer)
}

fn build_session_binding_request(session_id: u64, signed: bool) -> Vec<u8> {
    let flags = if signed { Smb2Flags::SIGNED } else { 0 };
    setup_message(&header(Smb2Command::SessionSetup, session_id, flags), 1, 0, &[])
}

fn extract_session_id_from_response(response: &[u8]) -> u64 {
    u64::from_le_bytes(response[40..48].try_into().unwrap())
}

fn extract_status_from_response(response: &[u8]) -> u32 {
    u32::from_le_bytes(response[8..12].try_into().unwrap())
}

fn session_state(session_id: u64) -> SessionState {
    SessionState {
        session_id,
        user_id: "testuser".to_string(),
        domain: None,
        session_key: vec![0u8; 16],
        dialect: SmbDialect::Smb302,
        signing_required: false,
        encryption_required: false,
        is_guest: false,
        is_anonymous: false,
        created_at: NOW,
        last_access: NOW,
        expires_at: NOW + 3600,
        bound_server_id: None,
    }
}

/// The status that binding a session is refused with.
fn bind_status(handler: &mut Handler, state: SessionState, signed: bool) -> u32 {
    let mut store = Store::new();
    let session_id = state.session_id;
    store.sessions.insert(session_id, state);
    let result = handler.setup(&mut store, &build_session_binding_request(session_id, signed));
    assert!(result.is_err());
    result.unwrap_err().status().code()
}

fn multi_channel() -> Handler {
    let mut handler = Handler::rounds(0);
    handler.connection.negotiate(SmbDialect::Smb302);
    handler
}

#[test]
fn test_session_id_zero_resets_auth_context() {
    let mut store = Store::new();
    let mut handler = Handler::rounds(0);

    // A previous authentication left its state behind
    handler.pending = Some(12345);

    // Build request with SessionId = 0 (NEW session)
    let request = build_session_setup_request(0, b"test_token");
    let response = handler.setup(&mut store, &request).unwrap();

    let response_session_id = extract_session_id_from_response(&response);
    assert_ne!(
        response_session_id, 12345,
        "SessionId=0 should create NEW session, not reuse old"
    );
    assert_ne!(
        response_session_id, 0,
        "Server MUST allocate a unique SessionId for new sessions"
    );
}

#[test]
fn test_session_id_zero_starts_fresh_auth() {
    let mut store = Store::new();
    let mut handler = Handler::rounds(1);

    // Leftover state from a previous incomplete authentication
    handler.pending = Some(99999);

    // First request with SessionId = 0 should reset everything
    let response1 =
        handler.setup(&mut store, &build_session_setup_request(0, b"token1")).unwrap();

    let session_id = extract_session_id_from_response(&response1);
    let status = extract_status_from_response(&response1);

    assert_eq!(
        status, STATUS_MORE_PROCESSING_REQUIRED,
        "First round should return MORE_PROCESSING_REQUIRED"
    );
    assert_ne!(
        session_id, 99999,
        "SessionId=0 must not reuse previous session_id"
    );
    assert_ne!(session_id, 0, "SessionId must be allocated");
}

#[test]
fn test_session_id_preserved_across_auth_rounds() {
    let mut store = Store::new();
    let mut handler = Handler::rounds(1);

    // Round 1: SessionId = 0 (new session)
    let response1 =
        handler.setup(&mut store, &build_session_setup_request(0, b"negotiate_token")).unwrap();

    let session_id_round1 = extract_session_id_from_response(&response1);
    let status1 = extract_status_from_response(&response1);

    assert_eq!(status1, STATUS_MORE_PROCESSING_REQUIRED);
    assert_ne!(
        session_id_round1, 0,
        "SessionId must be allocated in round 1"
    );

    // Round 2: Use the allocated SessionId
    let request2 = build_session_setup_request(session_id_round1, b"authenticate_token");
    let response2 = handler.setup(&mut store, &request2).unwrap();

    let session_id_round2 = extract_session_id_from_response(&response2);
    let status2 = extract_status_from_response(&response2);

    assert_eq!(status2, STATUS_SUCCESS);
    assert_eq!(
        session_id_round1, session_id_round2,
        "SessionId MUST be same across all auth rounds"
    );
}

#[test]
fn test_three_round_auth_preserves_session_id() {
    let mut store = Store::new();
    let mut handler = Handler::rounds(2);

    // Round 1: New session
    let response1 =
        handler.setup(&mut store, &build_session_setup_request(0, b"token1")).unwrap();

    let session_id = extract_session_id_from_response(&response1);
    assert_eq!(
        extract_status_from_response(&response1),
        STATUS_MORE_PROCESSING_REQUIRED
    );

    // Round 2: Continue with same session
    let request2 = build_session_setup_request(session_id, b"token2");
    let response2 = handler.setup(&mut store, &request2).unwrap();

    assert_eq!(
        extract_session_id_from_response(&response2),
        session_id,
        "Round 2 must use same SessionId"
    );
    assert_eq!(
        extract_status_from_response(&response2),
        STATUS_MORE_PROCESSING_REQUIRED
    );

    // Round 3: Final success
    let request3 = build_session_setup_request(session_id, b"token3");
    let response3 = handler.setup(&mut store, &request3).unwrap();

    assert_eq!(
        extract_session_id_from_response(&response3),
        session_id,
        "Final SUCCESS must use same SessionId allocated in round 1"
    );
    assert_eq!(extract_status_from_response(&response3), STATUS_SUCCESS);
}

#[test]
fn test_interim_response_contains_session_id() {
    let mut store = Store::new();
    let mut handler = Handler::rounds(1);

    // Request with SessionId = 0 (new session)
    let response =
        handler.setup(&mut store, &build_session_setup_request(0, b"negotiate")).unwrap();

    let session_id = extract_session_id_from_response(&response);
    let status = extract_status_from_response(&response);

    assert_eq!(status, STATUS_MORE_PROCESSING_REQUIRED);
    assert_ne!(session_id, 0, "Interim response MUST contain the SessionId");
    assert_eq!(
        handler.pending,
        Some(session_id),
        "The session that is being set up is the one of the response"
    );
}

#[test]
fn test_success_response_contains_session_id() {
    let mut store = Store::new();
    let mut handler = Handler::rounds(0);

    let response =
        handler.setup(&mut store, &build_session_setup_request(0, b"credentials")).unwrap();

    assert_eq!(extract_status_from_response(&response), STATUS_SUCCESS);
    assert_ne!(
        extract_session_id_from_response(&response),
        0,
        "Success response MUST contain the SessionId"
    );
}

#[test]
fn test_multiple_sessions_get_unique_ids() {
    let mut store = Store::new();
    let mut handler1 = Handler::rounds(0);
    let mut handler2 = Handler::rounds(0);

    // Session 1
    let response1 =
        handler1.setup(&mut store, &build_session_setup_request(0, b"user1:pass1")).unwrap();
    let session_id1 = extract_session_id_from_response(&response1);

    // Session 2
    let response2 =
        handler2.setup(&mut store, &build_session_setup_request(0, b"user2:pass2")).unwrap();
    let session_id2 = extract_session_id_from_response(&response2);

    assert_ne!(
        session_id1, session_id2,
        "Each session MUST have unique SessionId"
    );
    assert_ne!(session_id1, 0);
    assert_ne!(session_id2, 0);
}

#[test]
fn test_auth_context_session_id_tracking() {
    let mut store = Store::new();
    let mut handler = Handler::rounds(1);

    // Initially no session is being set up
    assert!(handler.pending.is_none(), "Initially no session is being set up");

    // After first round (Continue), the session is known
    let response1 =
        handler.setup(&mut store, &build_session_setup_request(0, b"token1")).unwrap();

    let allocated_session_id = extract_session_id_from_response(&response1);
    assert_eq!(
        handler.pending,
        Some(allocated_session_id),
        "The session should be known after Continue response"
    );

    // After second round (Success), same session_id should be used
    let request2 = build_session_setup_request(allocated_session_id, b"token2");
    let response2 = handler.setup(&mut store, &request2).unwrap();

    assert_eq!(
        extract_session_id_from_response(&response2),
        allocated_session_id,
        "Success response should use the same allocated SessionId"
    );
}

#[test]
fn test_reauth_uses_existing_session_id() {
    let mut store = Store::new();

    // Create handler with a known session key
    let original_key = vec![0x11; 16];
    let mut handler = Handler::new(1, original_key.clone());

    // Establish initial session (two rounds)
    // Round 1: Continue
    let response1 =
        handler.setup(&mut store, &build_session_setup_request(0, b"negotiate")).unwrap();

    let session_id = extract_session_id_from_response(&response1);
    assert_eq!(
        extract_status_from_response(&response1),
        STATUS_MORE_PROCESSING_REQUIRED
    );

    // Round 2: Success
    let request2 = build_session_setup_request(session_id, b"authenticate");
    let response2 = handler.setup(&mut store, &request2).unwrap();

    assert_eq!(extract_status_from_response(&response2), STATUS_SUCCESS);
    let established_session_id = extract_session_id_from_response(&response2);

    // Verify session was created in state store
    let session = store.get(established_session_id).expect("session should exist");
    assert_eq!(session.session_key, original_key);

    // Now perform reauthentication with a DIFFERENT session key
    let new_key = vec![0x22; 16];
    let mut handler2 = Handler::new(1, new_key);

    // Add the existing session to the new handler's connection
    handler2.connection.add_session(established_session_id);

    // Reauth Round 1: Send SESSION_SETUP with existing session_id
    let reauth_req1 = build_session_setup_request(established_session_id, b"reauth_negotiate");
    let reauth_resp1 = handler2.setup(&mut store, &reauth_req1).unwrap();

    // Verify same session_id is used
    assert_eq!(
        extract_session_id_from_response(&reauth_resp1),
        established_session_id,
        "Reauth must use existing session_id"
    );
    assert_eq!(
        extract_status_from_response(&reauth_resp1),
        STATUS_MORE_PROCESSING_REQUIRED
    );

    // Reauth Round 2: Complete authentication
    let reauth_req2 = build_session_setup_request(established_session_id, b"reauth_authenticate");
    let reauth_resp2 = handler2.setup(&mut store, &reauth_req2).unwrap();

    assert_eq!(extract_status_from_response(&reauth_resp2), STATUS_SUCCESS);
    assert_eq!(
        extract_session_id_from_response(&reauth_resp2),
        established_session_id,
        "Reauth success must use same session_id"
    );

    // Session key was RETAINED (not replaced with new_key)
    let session_after_reauth =
        store.get(established_session_id).expect("session should still exist");

    assert_eq!(
        session_after_reauth.session_key, original_key,
        "Session key MUST be retained during reauth, not replaced"
    );
}

#[test]
fn test_session_id_zero_creates_new_session_not_reauth() {
    let mut store = Store::new();

    // Create first session
    let key1 = vec![0x11; 16];
    let mut handler1 = Handler::new(1, key1.clone());

    // Establish session 1
    let resp1a =
        handler1.setup(&mut store, &build_session_setup_request(0, b"negotiate1")).unwrap();
    let session_id1 = extract_session_id_from_response(&resp1a);
    handler1.setup(&mut store, &build_session_setup_request(session_id1, b"auth1")).unwrap();

    // Create second session with SessionId = 0 (NOT reauth)
    let key2 = vec![0x22; 16];
    let mut handler2 = Handler::new(1, key2.clone());

    // New session with SessionId = 0
    let resp2a =
        handler2.setup(&mut store, &build_session_setup_request(0, b"negotiate2")).unwrap();
    let session_id2 = extract_session_id_from_response(&resp2a);
    handler2.setup(&mut store, &build_session_setup_request(session_id2, b"auth2")).unwrap();

    // Verify we got different session IDs (not reauth of first)
    assert_ne!(
        session_id1, session_id2,
        "SessionId=0 should create new session, not reauth"
    );

    // Verify both sessions exist with their own keys
    let s1 = store.get(session_id1);
    let s2 = store.get(session_id2);

    assert!(s1.is_some() && s2.is_some());
    assert_eq!(s1.unwrap().session_key, key1);
    assert_eq!(s2.unwrap().session_key, key2);
}

#[test]
fn test_session_binding_smb2x_rejected() {
    let mut handler = Handler::rounds(0);

    // Set SMB 2.1 dialect (should reject binding - not multi-channel capable)
    handler.connection.negotiate(SmbDialect::Smb210);

    assert_eq!(
        bind_status(&mut handler, session_state(12345), true),
        STATUS_REQUEST_NOT_ACCEPTED,
        "SMB 2.x dialect SHOULD reject binding"
    );
}

#[test]
fn test_session_binding_guest_rejected() {
    let mut state = session_state(12345);
    state.user_id = "guest".to_string();
    state.is_guest = true;

    assert_eq!(
        bind_status(&mut multi_channel(), state, true),
        STATUS_NOT_SUPPORTED,
        "Guest session binding MUST return NOT_SUPPORTED"
    );
}

#[test]
fn test_session_binding_anonymous_rejected() {
    let mut state = session_state(12346);
    state.user_id = "anonymous".to_string();
    state.is_anonymous = true;

    assert_eq!(
        bind_status(&mut multi_channel(), state, true),
        STATUS_NOT_SUPPORTED,
        "Anonymous session binding MUST return NOT_SUPPORTED"
    );
}

#[test]
fn test_session_binding_unsigned_rejected() {
    // Build request WITHOUT signed flag
    assert_eq!(
        bind_status(&mut multi_channel(), session_state(12347), false),
        STATUS_INVALID_PARAMETER,
        "Unsigned binding request MUST return INVALID_PARAMETER"
    );
}

#[test]
fn test_session_binding_expired_rejected() {
    let mut state = session_state(12348);
    state.created_at = NOW - 7200;
    state.last_access = NOW - 7200;
    state.expires_at = NOW - 3600; // Expired 1 hour ago

    assert_eq!(
        bind_status(&mut multi_channel(), state, true),
        STATUS_NETWORK_SESSION_EXPIRED,
        "Expired session MUST return NETWORK_SESSION_EXPIRED"
    );
}

#[test]
fn test_session_binding_already_bound_rejected() {
    let mut handler = multi_channel();

    // Pre-bind the session to this connection
    handler.connection.add_session(12349);

    assert_eq!(
        bind_status(&mut handler, session_state(12349), true),
        STATUS_REQUEST_NOT_ACCEPTED,
        "Already bound session MUST return REQUEST_NOT_ACCEPTED"
    );
}

#[test]
fn test_session_binding_dialect_mismatch_rejected() {
    let mut state = session_state(12350);
    state.dialect = SmbDialect::Smb300; // Session uses SMB 3.0

    assert_eq!(
        bind_status(&mut multi_channel(), state, true),
        STATUS_INVALID_PARAMETER,
        "Dialect mismatch MUST return INVALID_PARAMETER"
    );
}

#[test]
fn test_logoff_invalid_session_returns_user_session_deleted() {
    let mut store = Store::new();
    let mut handler = Handler::rounds(0);

    // Try to logoff a session that doesn't exist (session_id = 99999)
    let result = handler.logoff(&mut store, 99999);

    assert!(result.is_err());
    assert_eq!(
        result.unwrap_err().status().code(),
        STATUS_USER_SESSION_DELETED,
        "Invalid session MUST return STATUS_USER_SESSION_DELETED"
    );
}

#[test]
fn test_double_logoff_returns_user_session_deleted() {
    let mut store = Store::new();
    let mut handler = Handler::rounds(0);

    // Establish a session
    let response =
        handler.setup(&mut store, &build_session_setup_request(0, b"auth_token")).unwrap();
    let session_id = extract_session_id_from_response(&response);

    // First logoff should succeed
    let logoff1_result = handler.logoff(&mut store, session_id);
    assert!(
        logoff1_result.is_ok(),
        "First logoff should succeed: {:?}",
        logoff1_result
    );

    // Second logoff should fail with USER_SESSION_DELETED
    let logoff2_result = handler.logoff(&mut store, session_id);

    assert!(logoff2_result.is_err());
    assert_eq!(
        logoff2_result.unwrap_err().status().code(),
        STATUS_USER_SESSION_DELETED,
        "Second logoff MUST return STATUS_USER_SESSION_DELETED"
    );
}

#[test]
fn test_signing_key_stored_after_session_setup() {
    let mut store = Store::new();
    let mut handler = Handler::rounds(0);

    // Before session setup, no signing keys
    assert!(
        handler.keys.keys.is_empty(),
        "No signing keys before session setup"
    );

    // Establish a session
    let response =
        handler.setup(&mut store, &build_session_setup_request(0, b"auth_token")).unwrap();
    let session_id = extract_session_id_from_response(&response);

    // After successful session setup, signing key should be stored
    assert!(
        handler.keys.contains_key(session_id),
        "Signing key MUST be stored after successful SESSION_SETUP"
    );
}

#[test]
fn test_signing_key_removed_after_logoff() {
    let mut store = Store::new();
    let mut handler = Handler::rounds(0);

    // Establish a session
    let response =
        handler.setup(&mut store, &build_session_setup_request(0, b"auth_token")).unwrap();
    let session_id = extract_session_id_from_response(&response);

    // Verify signing key exists
    assert!(handler.keys.contains_key(session_id));

    // Logoff
    handler.logoff(&mut store, session_id).unwrap();

    // After logoff, signing key should be removed
    assert!(
        !handler.keys.contains_key(session_id),
        "Signing key MUST be removed after LOGOFF"
    );
}

#[test]
fn test_maybe_sign_response_leaves_unsigned_when_no_key() {
    // Create a mock response without a stored signing key
    let mut response = [0u8; 72];
    response[0..4].copy_from_slice(&[0xFE, b'S', b'M', b'B']);
    response[4..6].copy_from_slice(&64u16.to_le_bytes());

    let session_id: u64 = 999; // No key for this session
    response[40..48].copy_from_slice(&session_id.to_le_bytes());

    // No signing keys
    let signing_keys = SigningKeys::new();
    let response = match maybe_sign_response(&signing_keys, response.to_vec()) {
        SignStep::Ready(message) => message,
        SignStep::Sign(_) => panic!("no key to sign with"),
    };

    // The SIGNED flag should NOT be set when no key exists
    let flags = u32::from_le_bytes([response[16], response[17], response[18], response[19]]);
    assert_eq!(
        flags & Smb2Flags::SIGNED,
        0,
        "Response should not be signed when no key exists"
    );

    // Verify signing_keys doesn't have the session
    assert!(
        !signing_keys.contains_key(session_id),
        "No signing key should exist for unknown session"
    );
}

#[test]
fn one_round_reauthentication_keeps_the_session() {
    let mut store = Store::new();
    let mut handler = Handler::rounds(0);
    let response =
        handler.setup(&mut store, &build_session_setup_request(0, b"token")).unwrap();
    let session_id = extract_session_id_from_response(&response);
    handler.session_key = vec![0x99; 16];
    let again =
        handler.setup(&mut store, &build_session_setup_request(session_id, b"again")).unwrap();
    assert_eq!(extract_session_id_from_response(&again), session_id);
    assert_eq!(store.get(session_id).unwrap().session_key, vec![0x42; 16]);
    assert_eq!(handler.keys.get(session_id), Some(vec![0x42; 16]));
}

#[test]
fn a_new_session_expires_after_an_hour() {
    let mut store = Store::new();
    let mut handler = Handler::rounds(0);
    let response =
        handler.setup(&mut store, &build_session_setup_request(0, b"token")).unwrap();
    let session = store.get(extract_session_id_from_response(&response)).unwrap();
    assert_eq!(session.expires_at, NOW + 3600);
    assert_eq!(session.user_id, "testuser");
    assert_eq!(session.domain, Some("TESTDOMAIN".to_string()));
    assert!(handler.connection.has_session(session.session_id));
}

#[test]
fn a_session_can_be_bound_to_a_second_connection() {
    let mut store = Store::new();
    let mut state = session_state(12351);
    state.session_key = vec![];
    store.sessions.insert(12351, state);
    let mut handler = multi_channel();
    let request = build_session_binding_request(12351, true);
    let response = handler.setup(&mut store, &request).unwrap();
    assert_eq!(extract_status_from_response(&response), STATUS_SUCCESS);
    assert!(handler.connection.has_session(12351));
    assert!(!handler.keys.contains_key(12351));
}

#[test]
fn a_binding_with_a_wrong_signature_is_refused() {
    let mut store = Store::new();
    store.sessions.insert(12352, session_state(12352));
    let mut handler = multi_channel();
    let request = build_session_binding_request(12352, true);
    let refused = handler.setup(&mut store, &request).unwrap_err();
    assert_eq!(refused.status(), NtStatus::AccessDenied);
    assert!(!handler.connection.has_session(12352));

    let pending = sign_message(request, &[0; 16]).unwrap();
    let mac = code(&pending.key, &pending.message);
    let signed = pending.finish(&mac);
    handler.setup(&mut store, &signed).unwrap();
    assert!(handler.connection.has_session(12352));
    assert_eq!(handler.keys.get(12352), Some(vec![0; 16]));
}

#[test]
fn authentication_failures_have_their_status() {
    let connection = Connection::new(1, 1, 1, 1);
    let request = build_session_setup_request(0, b"token");
    let header = Smb2Header::parse(&request).unwrap();
    let begin = || match handle_session_setup(&connection, &header, &request[64..], None) {
        Ok(SetupStart::Auth(auth)) => auth,
        _ => panic!("a new session"),
    };
    assert_eq!(begin().token, b"token");
    let failed = begin().on_auth(AuthReply::Failure, None).unwrap_err();
    assert_eq!(failed.status(), NtStatus::LogonFailure);
    let malformed = begin().on_auth(AuthReply::MalformedToken, None).unwrap_err();
    assert_eq!(malformed.status(), NtStatus::InvalidParameter);
    let error = begin().on_auth(AuthReply::Error("no".to_string()), None).unwrap_err();
    assert_eq!(error.message(), "Auth error: no");
    assert!(handle_session_setup(&connection, &header, &[25], None).is_err());
}

#[test]
fn guests_are_told_and_do_not_sign() {
    let connection = Connection::new(1, 1, 1, 1);
    let request =
        setup_message(&header(Smb2Command::SessionSetup, 0, 0), 0, 77, b"token");
    let header = Smb2Header::parse(&request).unwrap();
    let auth = match handle_session_setup(&connection, &header, &request[64..], None) {
        Ok(SetupStart::Auth(auth)) => auth,
        _ => panic!("a new session"),
    };
    let reply = AuthReply::Success {
        user: user(true, false),
        session_key: vec![1; 16],
        response_token: None,
    };
    let success = match auth.on_auth(reply, None).unwrap() {
        SetupStep::NewSession(success) => success,
        _ => panic!("a new session"),
    };
    let session = match success.on_session_id(Ok(5)).unwrap().step() {
        IdentifiedStep::LookUp(identified) => identified.on_session(Ok(None)),
        IdentifiedStep::Established(session) => session,
    };
    assert_eq!(session.replaced_session(), None);
    let response = session.respond(1);
    assert_eq!(&response[66..68], &SESSION_FLAG_IS_GUEST.to_le_bytes());
    let mut keys = SigningKeys::new();
    assert!(matches!(
        session.finish(response, vec![1; 16], &mut keys),
        Ok(SignStep::Ready(_))
    ));
    assert!(!keys.contains_key(5));
}

#[test]
fn what_was_signed_is_accepted() {
    let mut keys = SigningKeys::new();
    keys.insert(9, vec![7; 20]);
    let mut message = Vec::new();
    header(Smb2Command::Echo, 9, 0).write(&mut message);
    let pending = match maybe_sign_response(&keys, message) {
        SignStep::Sign(pending) => pending,
        SignStep::Ready(_) => panic!("the session has a key"),
    };
    assert_eq!(pending.key, [7; 16]);
    let mac = code(&pending.key, &pending.message);
    let signed = pending.finish(&mac);
    assert!(Smb2Header::parse(&signed).unwrap().flags.is_signed());
    let check = verify_request_signature(&signed, &[7; 20]).unwrap();
    let mac = code(&check.key, &check.message);
    assert!(check.finish(&mac).is_ok());

    let mut forged = signed.clone();
    forged[30] ^= 1;
    let check = verify_request_signature(&forged, &[7; 20]).unwrap();
    let mac = code(&check.key, &check.message);
    assert!(check.finish(&mac).is_err());
    assert!(verify_request_signature(&[0; 10], &[7; 16]).is_err());
    assert!(sign_message(vec![0; 10], &[7; 16]).is_err());
}
