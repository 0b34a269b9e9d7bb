//! What has to hold before a request is handled: that its session and its tree
//! are there.

use vstd::prelude::*;

use crate::connection::Connection;
use crate::error;
use crate::error::HandlerError;
use crate::protocol::header::{Smb2Command, Smb2Header};
use crate::protocol::status::NtStatus;
use crate::state::{SessionState, TreeState};

verus! {

/// Whether a command works in a session.
pub open spec fn spec_requires_session(command: Smb2Command) -> bool {
    match command {
        Smb2Command::Negotiate => false,
        Smb2Command::SessionSetup => false,
        Smb2Command::Cancel => false,
        Smb2Command::Echo => false,
        Smb2Command::OplockBreak => false,
        _ => true,
    }
}

pub fn requires_session(command: Smb2Command) -> (b: bool)
    ensures
        b == spec_requires_session(command),
{
    match command {
        Smb2Command::Negotiate => false,
        Smb2Command::SessionSetup => false,
        Smb2Command::Cancel => false,
        Smb2Command::Echo => false,
        Smb2Command::OplockBreak => false,
        _ => true,
    }
}

/// Whether a command works on a share.
pub open spec fn spec_requires_tree(command: Smb2Command) -> bool {
    match command {
        Smb2Command::Logoff => false,
        Smb2Command::TreeConnect => false,
        _ => spec_requires_session(command),
    }
}

pub fn requires_tree(command: Smb2Command) -> (b: bool)
    ensures
        b == spec_requires_tree(command),
{
    match command {
        Smb2Command::Logoff => false,
        Smb2Command::TreeConnect => false,
        _ => requires_session(command),
    }
}

/// A request whose session is to be looked up.
#[derive(Debug)]
pub struct DispatchAwaitSession {
    pub header: Smb2Header,
}

/// A request whose tree is to be looked up.
#[derive(Debug)]
pub struct DispatchAwaitTree {
    pub header: Smb2Header,
}

/// What has to happen next before a request is handled.
#[derive(Debug)]
pub enum DispatchStep {
    /// Look up the session and hand it to `on_session`.
    Session(DispatchAwaitSession),
    /// Look up the tree and hand it to `on_tree`.
    Tree(DispatchAwaitTree),
    /// Handle the request by its command.
    Handle(Smb2Header),
}

/// What has to happen once the session is known.
pub open spec fn tree_step(header: Smb2Header) -> DispatchStep {
    if spec_requires_tree(header.command) {
        DispatchStep::Tree(DispatchAwaitTree { header })
    } else {
        DispatchStep::Handle(header)
    }
}

fn next_tree_step(header: &Smb2Header) -> (step: DispatchStep)
    ensures
        step == tree_step(*header),
{
    if requires_tree(header.command) {
        DispatchStep::Tree(DispatchAwaitTree { header: *header })
    } else {
        DispatchStep::Handle(*header)
    }
}

/// What comes of a request before anything is looked up: a session that the
/// connection does not know is refused.
pub open spec fn is_dispatch_start(
    connection: Connection,
    header: Smb2Header,
    r: Result<DispatchStep, HandlerError>,
) -> bool {
    if spec_requires_session(header.command) {
        if connection.session_table().contains(header.session_id) {
            r == Ok::<DispatchStep, HandlerError>(
                DispatchStep::Session(DispatchAwaitSession { header }),
            )
        } else {
            error::refused(r, NtStatus::UserSessionDeleted)
        }
    } else {
        r == Ok::<DispatchStep, HandlerError>(tree_step(header))
    }
}

/// Starts to dispatch a request. A command that works in a session is refused if
/// this connection does not know the session that it names, or it names none.
pub fn dispatch_command(connection: &Connection, header: &Smb2Header) -> (r: Result<
    DispatchStep,
    HandlerError,
>)
    ensures
        is_dispatch_start(*connection, *header, r),
{
    if requires_session(header.command) {
        if !connection.has_session(header.session_id) {
            return Err(HandlerError::Status(NtStatus::UserSessionDeleted));
        }
        return Ok(DispatchStep::Session(DispatchAwaitSession { header: *header }));
    }
    Ok(next_tree_step(header))
}

impl DispatchAwaitSession {
    /// Takes the session that the state store found. One that is not there any
    /// more leaves the connection.
    pub fn on_session(self, connection: &mut Connection, reply: Result<Option<SessionState>, String>) -> (r:
        Result<DispatchStep, HandlerError>)
        ensures
            match reply {
                Err(text) => r == Err::<DispatchStep, HandlerError>(HandlerError::Internal(text))
                    && *final(connection) == *old(connection),
                Ok(None) => error::refused(r, NtStatus::UserSessionDeleted) && final(
                    connection).same_settings(*old(connection)) && final(
                    connection).session_table() == old(connection).session_table().remove(
                    self.header.session_id,
                ),
                Ok(Some(_)) => r == Ok::<DispatchStep, HandlerError>(tree_step(self.header))
                    && *final(connection) == *old(connection),
            },
    {
        match reply {
            Err(text) => Err(HandlerError::Internal(text)),
            Ok(None) => {
                connection.remove_session(self.header.session_id);
                Err(HandlerError::Status(NtStatus::UserSessionDeleted))
            },
            Ok(Some(_)) => Ok(next_tree_step(&self.header)),
        }
    }
}

impl DispatchAwaitTree {
    /// Takes the tree that the state store found.
    pub fn on_tree(self, reply: Result<Option<TreeState>, String>) -> (r: Result<
        DispatchStep,
        HandlerError,
    >)
        ensures
            match reply {
                Err(text) => r == Err::<DispatchStep, HandlerError>(HandlerError::Internal(text)),
                Ok(None) => error::refused(r, NtStatus::NetworkNameDeleted),
                Ok(Some(_)) => r == Ok::<DispatchStep, HandlerError>(
                    DispatchStep::Handle(self.header),
                ),
            },
    {
        match reply {
            Err(text) => Err(HandlerError::Internal(text)),
            Ok(None) => Err(HandlerError::Status(NtStatus::NetworkNameDeleted)),
            Ok(Some(_)) => Ok(DispatchStep::Handle(self.header)),
        }
    }
}

/// No command that works in a session is handled, nor its tree looked up, before
/// its session was found; and none at all on a connection that does not know the
/// session.
pub proof fn law_sessions_come_first(
    connection: Connection,
    header: Smb2Header,
    r: Result<DispatchStep, HandlerError>,
)
    requires
        spec_requires_session(header.command),
        is_dispatch_start(connection, header, r),
    ensures
        !(r matches Ok(DispatchStep::Handle(_))),
        !(r matches Ok(DispatchStep::Tree(_))),
        !connection.session_table().contains(header.session_id) ==> error::refused(
            r,
            NtStatus::UserSessionDeleted,
        ),
{
}

/// Every command that works on a share works in a session, and a request on a
/// share is never handled before its tree was found.
pub proof fn law_trees_belong_to_sessions(header: Smb2Header)
    requires
        spec_requires_tree(header.command),
    ensures
        spec_requires_session(header.command),
        tree_step(header) !is Handle,
{
}

/// Which commands work in a session and which on a share. All but NEGOTIATE (0),
/// SESSION_SETUP (1), CANCEL (12), ECHO (13) and OPLOCK_BREAK (18) need a
/// session; of these all but LOGOFF (2) and TREE_CONNECT (3) need a tree.
pub proof fn law_what_commands_need(command: Smb2Command)
    ensures
        spec_requires_session(command) <==> ![0u16, 1u16, 12u16, 13u16, 18u16]@.contains(
            command.spec_code(),
        ),
        spec_requires_tree(command) <==> ![0u16, 1u16, 2u16, 3u16, 12u16, 13u16, 18u16]@.contains(
            command.spec_code(),
        ),
{
    let session_free = [0u16, 1u16, 12u16, 13u16, 18u16]@;
    let tree_free = [0u16, 1u16, 2u16, 3u16, 12u16, 13u16, 18u16]@;
    let code = command.spec_code();
    assert(session_free[0] == 0 && session_free[1] == 1 && session_free[2] == 12 && session_free[3]
        == 13 && session_free[4] == 18);
    assert(tree_free[0] == 0 && tree_free[1] == 1 && tree_free[2] == 2 && tree_free[3] == 3
        && tree_free[4] == 12 && tree_free[5] == 13 && tree_free[6] == 18);
}

/// A request whose session is known is looked up by the session that it names; a
/// command that needs none goes on at once, and one that needs a tree goes on to
/// that.
pub proof fn law_requests_go_on(
    connection: Connection,
    header: Smb2Header,
    r: Result<DispatchStep, HandlerError>,
)
    requires
        is_dispatch_start(connection, header, r),
    ensures
        spec_requires_session(header.command) && connection.session_table().contains(
            header.session_id,
        ) ==> (r matches Ok(DispatchStep::Session(a)) && a.header == header),
        !spec_requires_session(header.command) ==> r == Ok::<DispatchStep, HandlerError>(
            DispatchStep::Handle(header),
        ),
        spec_requires_tree(header.command) ==> tree_step(header) == DispatchStep::Tree(
            DispatchAwaitTree { header },
        ),
        !spec_requires_tree(header.command) ==> tree_step(header) == DispatchStep::Handle(header),
{
}

} // verus!
