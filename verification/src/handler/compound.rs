//! Compound messages: several commands in one message, each header telling how
//! far it is to the next one.

use vstd::prelude::*;

use crate::codec;
use crate::error;
use crate::error::HandlerError;
use crate::handler::common;
use crate::handler::signing;
use crate::handler::signing::{SignStep, SigningKeys};
use crate::protocol::header;
use crate::protocol::header::{
    Smb2Command, Smb2Flags, Smb2Header, NEXT_COMMAND_OFFSET, SMB2_HEADER_SIZE,
};
use crate::protocol::status::NtStatus;

verus! {

/// The distance from the command at `offset` to the next one, zero if it is the
/// last or the next one's header would not lie inside the message.
pub open spec fn next_distance(message: Seq<u8>, offset: int) -> int {
    let next = codec::u32_at(message, offset + 20) as int;
    if offset < 0 || offset + 64 > message.len() || offset + next + 64 > message.len() {
        0
    } else {
        next
    }
}

/// The offsets of the commands of a message, from the one at `offset` on.
pub open spec fn command_offsets(message: Seq<u8>, offset: int) -> Seq<int>
    decreases message.len() - offset,
{
    let next = next_distance(message, offset);
    if next <= 0 || offset < 0 || offset + 64 > message.len() {
        seq![offset]
    } else {
        seq![offset] + command_offsets(message, offset + next)
    }
}

/// Finds the commands of a compound message.
pub fn parse_compound_offsets(message: &[u8]) -> (offsets: Vec<usize>)
    ensures
        offsets@.map_values(|o: usize| o as int) == command_offsets(message@, 0),
        offsets@.len() >= 1,
        offsets@[0] == 0,
        forall|i: int| 1 <= i < offsets@.len() ==> #[trigger] offsets@[i] + 64 <= message@.len(),
        forall|i: int, j: int| 0 <= i < j < offsets@.len() ==> offsets@[i] < offsets@[j],
{
    let mut offsets: Vec<usize> = Vec::new();
    offsets.push(0);
    let mut offset: usize = 0;
    let len: usize = message.len();
    let ghost mut before: Seq<int> = Seq::empty();
    assert(offsets@.map_values(|o: usize| o as int) =~= before.push(0));
    loop
        invariant
            len == message@.len(),
            offsets@.len() >= 1,
            offsets@[0] == 0,
            offsets@.last() == offset,
            offsets@.map_values(|o: usize| o as int) == before.push(offset as int),
            before + command_offsets(message@, offset as int) == command_offsets(message@, 0),
            forall|i: int|
                1 <= i < offsets@.len() ==> #[trigger] offsets@[i] + 64 <= message@.len(),
            forall|i: int, j: int| 0 <= i < j < offsets@.len() ==> offsets@[i] < offsets@[j],
        ensures
            next_distance(message@, offset as int) <= 0 || offset + 64 > len,
        decreases len - offset,
    {
        if len < SMB2_HEADER_SIZE || offset > len - SMB2_HEADER_SIZE {
            break ;
        }
        let next: u64 = codec::get_u32(message, offset + NEXT_COMMAND_OFFSET) as u64;
        if next == 0 || next > (len - SMB2_HEADER_SIZE - offset) as u64 {
            break ;
        }
        let ghost old_offset = offset as int;
        let ghost old_offsets = offsets@;
        offset = offset + next as usize;
        offsets.push(offset);
        proof {
            let tail = command_offsets(message@, offset as int);
            assert(command_offsets(message@, old_offset) == seq![old_offset] + tail);
            assert(before + (seq![old_offset] + tail) =~= before.push(old_offset) + tail);
            before = before.push(old_offset);
            assert(offsets@.map_values(|o: usize| o as int) =~= before.push(offset as int));
        }
    }
    assert(before.push(offset as int) =~= before + seq![offset as int]);
    offsets
}

/// The zero bytes after a response of the given length that bring the next one
/// to a multiple of eight.
pub open spec fn padding(len: int) -> int {
    (8 - len % 8) % 8
}

pub fn compound_padding(len: usize) -> (n: usize)
    ensures
        n == padding(len as int),
        (len + n) % 8 == 0,
        n < 8,
{
    (8 - len % 8) % 8
}

/// A file id in a compound message.
#[derive(Clone, Copy, Debug, PartialEq, Eq, Structural)]
pub struct FileId {
    pub persistent: u128,
    pub volatile: u128,
}

impl FileId {
    /// Stands for the file that the command before worked on.
    pub const RELATED_SENTINEL: u128 = 0xFFFF_FFFF_FFFF_FFFF;

    pub fn new(persistent: u128, volatile: u128) -> (id: Self)
        ensures
            id == (FileId { persistent, volatile }),
    {
        FileId { persistent, volatile }
    }
}

/// How a command of a compound message went.
#[derive(Clone, Copy, Debug, PartialEq, Eq, Structural)]
pub enum CompoundResult {
    /// It succeeded, and may have opened a file.
    Success(Option<FileId>),
    /// It failed with a status code.
    Failure(u32),
}

impl CompoundResult {
    pub fn success() -> (r: Self)
        ensures
            r == CompoundResult::Success(None),
    {
        CompoundResult::Success(None)
    }

    pub fn success_with_file(file_id: FileId) -> (r: Self)
        ensures
            r == CompoundResult::Success(Some(file_id)),
    {
        CompoundResult::Success(Some(file_id))
    }

    pub fn failure(status: u32) -> (r: Self)
        ensures
            r == CompoundResult::Failure(status),
    {
        CompoundResult::Failure(status)
    }
}

/// What the commands of a compound message pass on to each other.
#[derive(Clone, Copy, Debug)]
pub struct CompoundContext {
    /// Whether each command works on what the one before worked on.
    pub related: bool,
    /// The number of commands.
    pub total: usize,
    /// Whether no command has been handled yet.
    pub first: bool,
    pub session_id: Option<u64>,
    pub tree_id: Option<u32>,
    pub file_id: Option<FileId>,
    /// The status code of the last command that failed.
    pub failure: Option<u32>,
}

impl CompoundContext {
    pub open spec fn start(related: bool, total: usize) -> CompoundContext {
        CompoundContext {
            related,
            total,
            first: true,
            session_id: None,
            tree_id: None,
            file_id: None,
            failure: None,
        }
    }

    /// The start of a message whose commands work on the same file.
    pub fn related(total: usize) -> (c: Self)
        ensures
            c == Self::start(true, total),
    {
        CompoundContext {
            related: true,
            total,
            first: true,
            session_id: None,
            tree_id: None,
            file_id: None,
            failure: None,
        }
    }

    /// The start of a message whose commands have nothing to do with each other.
    pub fn unrelated(total: usize) -> (c: Self)
        ensures
            c == Self::start(false, total),
    {
        CompoundContext {
            related: false,
            total,
            first: true,
            session_id: None,
            tree_id: None,
            file_id: None,
            failure: None,
        }
    }

    pub fn is_first(&self) -> (b: bool)
        ensures
            b == self.first,
    {
        self.first
    }

    pub fn set_session_id(&mut self, session_id: u64)
        ensures
            *final(self) == (CompoundContext { session_id: Some(session_id), ..*old(self) }),
    {
        self.session_id = Some(session_id);
    }

    pub fn set_tree_id(&mut self, tree_id: u32)
        ensures
            *final(self) == (CompoundContext { tree_id: Some(tree_id), ..*old(self) }),
    {
        self.tree_id = Some(tree_id);
    }

    /// Whether a command takes over what the ones before it left.
    pub open spec fn inherits(self) -> bool {
        self.related && !self.first
    }

    /// The session that a command works in: the one it names, unless it asks
    /// for the one of the command before.
    pub open spec fn spec_resolve_session_id(self, requested: u64) -> Option<u64> {
        if self.inherits() && requested == u64::MAX {
            self.session_id
        } else {
            Some(requested)
        }
    }

    pub fn resolve_session_id(&self, requested: u64) -> (r: Option<u64>)
        ensures
            r == self.spec_resolve_session_id(requested),
    {
        if self.related && !self.first && requested == u64::MAX {
            self.session_id
        } else {
            Some(requested)
        }
    }

    /// The tree that a command works in.
    pub open spec fn spec_resolve_tree_id(self, requested: u32) -> Option<u32> {
        if self.inherits() && requested == u32::MAX {
            self.tree_id
        } else {
            Some(requested)
        }
    }

    pub fn resolve_tree_id(&self, requested: u32) -> (r: Option<u32>)
        ensures
            r == self.spec_resolve_tree_id(requested),
    {
        if self.related && !self.first && requested == u32::MAX {
            self.tree_id
        } else {
            Some(requested)
        }
    }

    /// The file that a command works on.
    pub open spec fn spec_resolve_file_id(self, requested: FileId) -> Option<FileId> {
        if self.inherits() && requested.persistent == FileId::RELATED_SENTINEL && requested.volatile
            == FileId::RELATED_SENTINEL {
            self.file_id
        } else {
            Some(requested)
        }
    }

    pub fn resolve_file_id(&self, requested: FileId) -> (r: Option<FileId>)
        ensures
            r == self.spec_resolve_file_id(requested),
    {
        if self.related && !self.first && requested.persistent == FileId::RELATED_SENTINEL
            && requested.volatile == FileId::RELATED_SENTINEL {
            self.file_id
        } else {
            Some(requested)
        }
    }

    /// The context after a command: a file that it opened, or its failure, is
    /// remembered.
    pub open spec fn after(self, result: CompoundResult) -> CompoundContext {
        match result {
            CompoundResult::Success(Some(id)) => CompoundContext {
                first: false,
                file_id: Some(id),
                ..self
            },
            CompoundResult::Success(None) => CompoundContext { first: false, ..self },
            CompoundResult::Failure(status) => CompoundContext {
                first: false,
                failure: Some(status),
                ..self
            },
        }
    }

    pub fn advance(&mut self, result: CompoundResult)
        ensures
            *final(self) == old(self).after(result),
    {
        self.first = false;
        match result {
            CompoundResult::Success(Some(id)) => {
                self.file_id = Some(id);
            },
            CompoundResult::Success(None) => {},
            CompoundResult::Failure(status) => {
                self.failure = Some(status);
            },
        }
    }

    pub fn has_previous_failure(&self) -> (b: bool)
        ensures
            b == (self.failure is Some),
    {
        self.failure.is_some()
    }

    pub fn last_failure_status(&self) -> (s: Option<u32>)
        ensures
            s == self.failure,
    {
        self.failure
    }
}

/// The header of a command with its session and tree filled in; nothing if it
/// asks for what no command before it has.
pub open spec fn resolved_header(header: Smb2Header, ctx: CompoundContext) -> Option<Smb2Header> {
    match (
        ctx.spec_resolve_session_id(header.session_id),
        ctx.spec_resolve_tree_id(header.tree_id),
    ) {
        (Some(session_id), Some(tree_id)) => Some(Smb2Header { session_id, tree_id, ..header }),
        _ => None,
    }
}

/// Fills in the session and the tree of a related command.
pub fn resolve_related_header(header: &Smb2Header, ctx: &CompoundContext) -> (r: Result<
    Smb2Header,
    HandlerError,
>)
    ensures
        match resolved_header(*header, *ctx) {
            Some(h) => r == Ok::<Smb2Header, HandlerError>(h),
            None => error::refused(r, NtStatus::InvalidParameter),
        },
{
    let mut resolved = *header;
    match ctx.resolve_session_id(header.session_id) {
        Some(session_id) => {
            resolved.session_id = session_id;
        },
        None => {
            return Err(HandlerError::Status(NtStatus::InvalidParameter));
        },
    }
    match ctx.resolve_tree_id(header.tree_id) {
        Some(tree_id) => {
            resolved.tree_id = tree_id;
        },
        None => {
            return Err(HandlerError::Status(NtStatus::InvalidParameter));
        },
    }
    Ok(resolved)
}

/// The header that a related command is answered with after a failure: session
/// and tree are filled in as far as they are known.
pub open spec fn answered_header(header: Smb2Header, ctx: CompoundContext) -> Smb2Header {
    Smb2Header {
        session_id: match ctx.spec_resolve_session_id(header.session_id) {
            Some(id) => id,
            None => 0,
        },
        tree_id: match ctx.spec_resolve_tree_id(header.tree_id) {
            Some(id) => id,
            None => 0,
        },
        ..header
    }
}

fn answer_header(header: &Smb2Header, ctx: &CompoundContext) -> (h: Smb2Header)
    ensures
        h == answered_header(*header, *ctx),
{
    let mut answered = *header;
    answered.session_id = match ctx.resolve_session_id(header.session_id) {
        Some(id) => id,
        None => 0,
    };
    answered.tree_id = match ctx.resolve_tree_id(header.tree_id) {
        Some(id) => id,
        None => 0,
    };
    answered
}

/// Where the file id stands in the body of a command that can take it over from
/// the command before.
pub open spec fn spec_fileid_body_offset(command: Smb2Command) -> Option<usize> {
    match command {
        Smb2Command::Close | Smb2Command::Flush | Smb2Command::Lock | Smb2Command::QueryDirectory =>
        Some(8),
        Smb2Command::Read | Smb2Command::Write | Smb2Command::SetInfo => Some(16),
        Smb2Command::QueryInfo => Some(24),
        _ => None,
    }
}

pub fn fileid_body_offset(command: Smb2Command) -> (offset: Option<usize>)
    ensures
        offset == spec_fileid_body_offset(command),
{
    match command {
        Smb2Command::Close | Smb2Command::Flush | Smb2Command::Lock | Smb2Command::QueryDirectory =>
        Some(8),
        Smb2Command::Read | Smb2Command::Write | Smb2Command::SetInfo => Some(16),
        Smb2Command::QueryInfo => Some(24),
        _ => None,
    }
}

/// The low half of a file id's part, as it stands on the wire.
pub open spec fn wire_half(id: u128) -> u64 {
    (id % 0x1_0000_0000_0000_0000) as u64
}

/// The message of a command as it is handled: a related command that works on a
/// file gets the file of the commands before it, whatever file id it came with.
pub open spec fn command_message(command: Smb2Command, message: Seq<u8>, ctx: CompoundContext) -> Seq<
    u8,
> {
    match (spec_fileid_body_offset(command), ctx.file_id) {
        (Some(offset), Some(id)) if ctx.inherits() && message.len() >= 64 + offset + 16 =>
        codec::overwrite(
            message,
            64 + offset,
            codec::le64(wire_half(id.persistent)) + codec::le64(wire_half(id.volatile)),
        ),
        _ => message,
    }
}

/// Puts the file of the commands before into a related command.
pub fn substitute_file_id(command: Smb2Command, message: Vec<u8>, ctx: &CompoundContext) -> (m: Vec<u8>)
    ensures
        m@ == command_message(command, message@, *ctx),
{
    if !ctx.related || ctx.first {
        return message;
    }
    match (fileid_body_offset(command), ctx.file_id) {
        (Some(offset), Some(id)) => {
            let place: usize = SMB2_HEADER_SIZE + offset;
            if message.len() < place + 16 {
                return message;
            }
            let mut bytes: Vec<u8> = Vec::new();
            codec::put_u64(&mut bytes, (id.persistent % 0x1_0000_0000_0000_0000) as u64);
            codec::put_u64(&mut bytes, (id.volatile % 0x1_0000_0000_0000_0000) as u64);
            assert(bytes@ =~= codec::le64(wire_half(id.persistent)) + codec::le64(
                wire_half(id.volatile),
            ));
            let mut message = message;
            codec::set_bytes(&mut message, place, bytes.as_slice());
            message
        },
        _ => message,
    }
}

/// The file that a CREATE response opens, if the response is long enough to
/// name one.
pub open spec fn opened_file(response: Seq<u8>) -> Option<FileId> {
    if response.len() >= 144 {
        Some(
            FileId {
                persistent: codec::u64_at(response, 128) as u128,
                volatile: codec::u64_at(response, 136) as u128,
            },
        )
    } else {
        None
    }
}

fn extract_opened_file(response: &[u8]) -> (id: Option<FileId>)
    ensures
        id == opened_file(response@),
{
    if response.len() >= 144 {
        Some(
            FileId {
                persistent: codec::get_u64(response, 128) as u128,
                volatile: codec::get_u64(response, 136) as u128,
            },
        )
    } else {
        None
    }
}

/// The credits that a request consumes: what it charges but at least one, and
/// none for NEGOTIATE, which comes before there are any.
pub open spec fn spec_consumed_credits(header: Smb2Header) -> Option<u16> {
    if header.command == Smb2Command::Negotiate {
        None
    } else if header.credit_charge == 0 {
        Some(1)
    } else {
        Some(header.credit_charge)
    }
}

pub fn consumed_credits(header: &Smb2Header) -> (charge: Option<u16>)
    ensures
        charge == spec_consumed_credits(*header),
{
    if header.command == Smb2Command::Negotiate {
        None
    } else if header.credit_charge == 0 {
        Some(1)
    } else {
        Some(header.credit_charge)
    }
}

/// A compound message on its way through the server.
#[derive(Debug)]
pub struct CompoundRun {
    pub message: Vec<u8>,
    /// Where the commands start.
    pub offsets: Vec<usize>,
    pub ctx: CompoundContext,
    /// The responses to the commands that have been handled.
    pub responses: Vec<Vec<u8>>,
    /// The status of the last command that failed.
    pub last_error: Option<NtStatus>,
}

impl CompoundRun {
    /// Commands start one behind the other inside the message, and there is at
    /// most one response to each.
    pub open spec fn wf(self) -> bool {
        &&& self.responses@.len() <= self.offsets@.len()
        &&& forall|i: int|
            0 <= i < self.offsets@.len() ==> #[trigger] self.offsets@[i] <= self.message@.len()
        &&& forall|i: int, j: int|
            0 <= i < j < self.offsets@.len() ==> self.offsets@[i] <= self.offsets@[j]
    }

    /// The number of commands that have been handled.
    pub open spec fn position(self) -> int {
        self.responses@.len() as int
    }

    /// The bytes of the command at position `i`.
    pub open spec fn command(self, i: int) -> Seq<u8> {
        self.message@.subrange(
            self.offsets@[i] as int,
            if i + 1 < self.offsets@.len() {
                self.offsets@[i + 1] as int
            } else {
                self.message@.len() as int
            },
        )
    }

    /// The header that a command is handled with: of a related command after
    /// the first, session and tree are filled in.
    pub open spec fn effective_header(self, h: Smb2Header) -> Option<Smb2Header> {
        if self.ctx.related && self.position() > 0 {
            resolved_header(h, self.ctx)
        } else {
            Some(h)
        }
    }

    /// Whether the next command fails because one before it did.
    pub open spec fn propagates(self) -> bool {
        self.ctx.related && self.position() > 0 && self.last_error is Some
    }

    /// The run with the session and the tree of a command that fails, if the
    /// command is the first of related ones: those after it may ask for them.
    pub open spec fn named_by(self, h: Smb2Header) -> CompoundRun {
        if self.ctx.related && self.position() == 0 {
            CompoundRun {
                ctx: CompoundContext {
                    session_id: Some(h.session_id),
                    tree_id: Some(h.tree_id),
                    ..self.ctx
                },
                ..self
            }
        } else {
            self
        }
    }

    /// The run after a command that failed with `status`.
    pub open spec fn failed(self, status: NtStatus) -> CompoundRun {
        CompoundRun {
            ctx: self.ctx.after(CompoundResult::Failure(status.spec_code())),
            last_error: Some(status),
            ..self
        }
    }

    /// The context after a command that succeeded. The first one sets the
    /// session and the tree; a CREATE sets the file.
    pub open spec fn context_after(self, h: Smb2Header, response: Seq<u8>) -> CompoundContext {
        let ctx = if self.position() == 0 {
            CompoundContext {
                session_id: Some(h.session_id),
                tree_id: Some(h.tree_id),
                ..self.ctx
            }
        } else {
            self.ctx
        };
        ctx.after(
            CompoundResult::Success(
                if h.command == Smb2Command::Create {
                    opened_file(response)
                } else {
                    None
                },
            ),
        )
    }

    /// Adds a response, signed where it had to be.
    pub fn push(self, response: Vec<u8>) -> (run: CompoundRun)
        requires
            self.wf(),
            self.position() < self.offsets@.len(),
        ensures
            run.wf(),
            run.message == self.message,
            run.offsets == self.offsets,
            run.ctx == self.ctx,
            run.last_error == self.last_error,
            run.responses@ == self.responses@.push(response),
    {
        let mut run = self;
        run.responses.push(response);
        run
    }
}

/// What comes of a message that announces more than one command.
#[derive(Debug)]
pub enum CompoundStart {
    /// There is only one command after all.
    Single(Smb2Header),
    Run(CompoundRun),
}

/// Starts to handle a compound message. Whether its commands are related is
/// what the second one says.
pub fn process_compound_request(message: Vec<u8>) -> (start: Result<CompoundStart, HandlerError>)
    ensures
        ({
            let offsets = command_offsets(message@, 0);
            let second = message@.subrange(offsets[1], message@.len() as int);
            if offsets.len() < 2 {
                if Smb2Header::readable(message@) {
                    start matches Ok(CompoundStart::Single(h)) && h.is_header_of(message@)
                } else {
                    error::malformed(start, "Failed to parse header"@)
                }
            } else if !Smb2Header::readable(second) {
                error::malformed(start, "Failed to parse second header"@)
            } else {
                &&& start matches Ok(CompoundStart::Run(run))
                &&& run.wf()
                &&& run.message@ == message@
                &&& run.offsets@.map_values(|o: usize| o as int) == offsets
                &&& run.ctx == CompoundContext::start(
                    codec::u32_at(second, 16) & Smb2Flags::RELATED_OPERATIONS != 0,
                    offsets.len() as usize,
                )
                &&& run.responses@ == Seq::<Vec<u8>>::empty()
                &&& run.last_error is None
            }
        }),
{
    let offsets = parse_compound_offsets(message.as_slice());
    let ghost spec_offsets = command_offsets(message@, 0);
    assert(spec_offsets.len() == offsets@.len());
    if offsets.len() < 2 {
        return match Smb2Header::parse(message.as_slice()) {
            Some(h) => Ok(CompoundStart::Single(h)),
            None => Err(error::protocol_error("Failed to parse header")),
        };
    }
    assert(spec_offsets[1] == offsets@[1]);
    let second = codec::copy_range(message.as_slice(), offsets[1], message.len());
    let is_related = match Smb2Header::parse(second.as_slice()) {
        Some(h) => h.flags.is_related(),
        None => {
            return Err(error::protocol_error("Failed to parse second header"));
        },
    };
    let total: usize = offsets.len();
    let ctx = if is_related {
        CompoundContext::related(total)
    } else {
        CompoundContext::unrelated(total)
    };
    let responses: Vec<Vec<u8>> = Vec::new();
    assert(responses@ =~= Seq::<Vec<u8>>::empty());
    Ok(CompoundStart::Run(CompoundRun { message, offsets, ctx, responses, last_error: None }))
}

/// What has to happen next with a compound message.
#[derive(Debug)]
pub enum CompoundStep {
    /// Handle a command and hand its result to `on_result`.
    Dispatch { run: CompoundRun, header: Smb2Header, message: Vec<u8> },
    /// Sign a response if need be and hand it to `push`.
    Respond { run: CompoundRun, response: SignStep },
    /// Combine the responses.
    Finish { responses: Vec<Vec<u8>>, related: bool },
    /// Answer the whole message with an error.
    Fail(HandlerError),
}

/// The header that stands for a command whose own header cannot be read.
pub open spec fn unreadable_header(ctx: CompoundContext) -> Smb2Header {
    Smb2Header {
        structure_size: 64,
        credit_charge: 1,
        status: 0,
        command: Smb2Command::Negotiate,
        credits: 0,
        flags: Smb2Flags(0),
        next_command: 0,
        message_id: 0,
        async_id: 0,
        tree_id: context_tree(ctx),
        session_id: context_session(ctx),
        signature: header::no_signature(),
    }
}

pub open spec fn context_session(ctx: CompoundContext) -> u64 {
    match ctx.session_id {
        Some(id) => id,
        None => 0,
    }
}

pub open spec fn context_tree(ctx: CompoundContext) -> u32 {
    match ctx.tree_id {
        Some(id) => id,
        None => 0,
    }
}

/// The error response to a command.
pub open spec fn error_message(h: Smb2Header, status: NtStatus) -> Seq<u8> {
    common::error_header(h, status, h.session_id, h.tree_id).bytes() + common::error_body()
}

/// Whether a step answers the next command of a run with an error.
pub open spec fn responds_with_error(
    step: CompoundStep,
    run: CompoundRun,
    keys: SigningKeys,
    h: Smb2Header,
    status: NtStatus,
) -> bool {
    &&& step matches CompoundStep::Respond { run: after, response }
    &&& after == run.failed(status)
    &&& signing::signs(keys, error_message(h, status), response)
}

impl CompoundRun {
    /// Takes the next command of the message. One whose header cannot be read
    /// fails; a related one fails with the status of the failure before it,
    /// whatever session and tree it names.
    pub fn step(self, keys: &SigningKeys) -> (step: CompoundStep)
        requires
            self.wf(),
        ensures
            self.position() == self.offsets@.len() ==> (step matches CompoundStep::Finish {
                responses,
                related,
            } && responses == self.responses && related == self.ctx.related),
            self.position() < self.offsets@.len() ==> {
                let bytes = self.command(self.position());
                if !Smb2Header::readable(bytes) {
                    responds_with_error(
                        step,
                        self,
                        *keys,
                        unreadable_header(self.ctx),
                        NtStatus::InvalidParameter,
                    )
                } else {
                    forall|h: Smb2Header| #[trigger]
                        h.is_header_of(bytes) ==> if self.propagates() {
                            responds_with_error(
                                step,
                                self,
                                *keys,
                                answered_header(h, self.ctx),
                                self.last_error->0,
                            )
                        } else {
                            match self.effective_header(h) {
                                None => step == CompoundStep::Fail(
                                    HandlerError::Status(NtStatus::InvalidParameter),
                                ),
                                Some(e) => {
                                    &&& step matches CompoundStep::Dispatch { run, header, message }
                                    &&& run == self
                                    &&& header == e
                                    &&& message@ == command_message(e.command, bytes, self.ctx)
                                },
                            }
                        }
                }
            },
    {
        let position: usize = self.responses.len();
        if position == self.offsets.len() {
            return CompoundStep::Finish { responses: self.responses, related: self.ctx.related };
        }
        let start: usize = self.offsets[position];
        let end: usize = if position + 1 < self.offsets.len() {
            self.offsets[position + 1]
        } else {
            self.message.len()
        };
        let bytes = codec::copy_range(self.message.as_slice(), start, end);
        assert(bytes@ == self.command(self.position()));
        let parsed = match Smb2Header::parse(bytes.as_slice()) {
            Some(h) => h,
            None => {
                let h = Smb2Header {
                    structure_size: 64,
                    credit_charge: 1,
                    status: 0,
                    command: Smb2Command::Negotiate,
                    credits: 0,
                    flags: Smb2Flags(0),
                    next_command: 0,
                    message_id: 0,
                    async_id: 0,
                    tree_id: self.ctx.tree_id.unwrap_or(0),
                    session_id: self.ctx.session_id.unwrap_or(0),
                    signature: [0u8; 16],
                };
                assert(h == unreadable_header(self.ctx));
                return self.fail_command(&h, NtStatus::InvalidParameter, keys);
            },
        };
        proof {
            assert forall|h: Smb2Header| #[trigger] h.is_header_of(bytes@) implies h == parsed by {
                header::lemma_header_is_unique(bytes@, h, parsed);
            }
        }
        if self.ctx.related && position > 0 {
            if let Some(status) = self.last_error {
                let answered = answer_header(&parsed, &self.ctx);
                return self.fail_command(&answered, status, keys);
            }
        }
        let effective = if self.ctx.related && position > 0 {
            match resolve_related_header(&parsed, &self.ctx) {
                Ok(h) => h,
                Err(e) => {
                    return CompoundStep::Fail(e);
                },
            }
        } else {
            parsed
        };
        let message = substitute_file_id(effective.command, bytes, &self.ctx);
        CompoundStep::Dispatch { run: self, header: effective, message }
    }

    fn fail_command(self, h: &Smb2Header, status: NtStatus, keys: &SigningKeys) -> (step: CompoundStep)
        ensures
            responds_with_error(step, self, *keys, *h, status),
    {
        let response = common::build_error_response_with_ids(h, status, h.session_id, h.tree_id);
        let signed = signing::maybe_sign_response(keys, response);
        let mut run = self;
        run.ctx.advance(CompoundResult::failure(status.code()));
        run.last_error = Some(status);
        CompoundStep::Respond { run, response: signed }
    }

    /// Takes the result of the command that was dispatched with `header`. The
    /// first of related commands sets the session and the tree, also if it fails.
    pub fn on_result(
        self,
        header: &Smb2Header,
        result: Result<Vec<u8>, HandlerError>,
        keys: &SigningKeys,
    ) -> (step: CompoundStep)
        requires
            self.wf(),
        ensures
            match result {
                Err(e) => responds_with_error(
                    step,
                    self.named_by(*header),
                    *keys,
                    *header,
                    e.spec_status(),
                ),
                Ok(response) => {
                    &&& step matches CompoundStep::Respond { run, response: signed }
                    &&& run == (CompoundRun {
                        ctx: self.context_after(*header, response@),
                        ..self
                    })
                    &&& signing::signs(*keys, response@, signed)
                },
            },
    {
        match result {
            Err(e) => {
                let mut run = self;
                if run.ctx.related && run.responses.len() == 0 {
                    run.ctx.set_session_id(header.session_id);
                    run.ctx.set_tree_id(header.tree_id);
                }
                run.fail_command(header, e.status(), keys)
            },
            Ok(response) => {
                let mut run = self;
                if run.responses.len() == 0 {
                    run.ctx.set_session_id(header.session_id);
                    run.ctx.set_tree_id(header.tree_id);
                }
                let opened = if header.command == Smb2Command::Create {
                    extract_opened_file(response.as_slice())
                } else {
                    None
                };
                match opened {
                    Some(id) => run.ctx.advance(CompoundResult::success_with_file(id)),
                    None => run.ctx.advance(CompoundResult::success()),
                }
                let signed = signing::maybe_sign_response(keys, response);
                CompoundStep::Respond { run, response: signed }
            },
        }
    }
}

/// A failure in a related message reaches every command after it: once a
/// command has failed, each one that follows fails with the same status and is
/// not handled.
pub proof fn law_failure_propagates(
    run: CompoundRun,
    status: NtStatus,
    next: CompoundRun,
    response: Vec<u8>,
)
    requires
        run.ctx.related,
        next.ctx == run.failed(status).ctx,
        next.last_error == run.failed(status).last_error,
        next.responses@ == run.responses@.push(response),
    ensures
        next.propagates(),
        next.last_error == Some(status),
        next.failed(status).ctx.related,
        next.failed(status).last_error == Some(status),
{
}

/// The response to a command that fails because one before it did reports that
/// failure, and is the response to the command's own request.
pub proof fn law_propagated_failure_answers_request(
    h: Smb2Header,
    ctx: CompoundContext,
    status: NtStatus,
    read: Smb2Header,
)
    requires
        read.is_header_of(error_message(answered_header(h, ctx), status)),
    ensures
        read.status == status.spec_code(),
        read.command == h.command,
        read.message_id == h.message_id,
{
    let e = answered_header(h, ctx);
    common::law_error_response_reports_status(e, status, e.session_id, e.tree_id, read);
}

/// Whether `next` is the run after a related command whose header can be read was
/// answered with the failure of one before it.
pub open spec fn is_run_after_propagation(run: CompoundRun, next: CompoundRun) -> bool {
    &&& next.ctx == run.failed(run.last_error->0).ctx
    &&& next.last_error == run.failed(run.last_error->0).last_error
    &&& next.responses@.len() == run.responses@.len() + 1
}

/// From the first failure on, all commands of a related message fail with its
/// status, up to the last: `runs` are those from the one after the failure on.
pub proof fn law_failure_reaches_all(runs: Seq<CompoundRun>, j: int)
    requires
        0 <= j < runs.len(),
        runs[0].propagates(),
        forall|i: int|
            0 <= i < runs.len() - 1 && runs[i].propagates() ==> is_run_after_propagation(
                #[trigger] runs[i],
                runs[i + 1],
            ),
    ensures
        runs[j].propagates(),
        runs[j].last_error == runs[0].last_error,
        runs[j].position() == runs[0].position() + j,
    decreases j,
{
    if j > 0 {
        law_failure_reaches_all(runs, j - 1);
        assert(is_run_after_propagation(runs[j - 1], runs[j]));
    }
}

/// Whether the first command has named its session and its tree, unless no
/// command was handled yet or one has failed.
pub open spec fn is_named(run: CompoundRun) -> bool {
    run.position() > 0 && run.last_error is None ==> run.ctx.session_id is Some
        && run.ctx.tree_id is Some
}

/// A command is never refused for want of a session or a tree to take over: as
/// long as none has failed, each finds what it asks for.
pub proof fn law_related_commands_resolve(run: CompoundRun, h: Smb2Header)
    requires
        is_named(run),
        !run.propagates(),
    ensures
        run.effective_header(h) is Some,
{
}

/// What a command finds to take over stays there with each response, whether
/// the command succeeds or fails.
pub proof fn law_commands_stay_named(
    run: CompoundRun,
    h: Smb2Header,
    response: Seq<u8>,
    next: CompoundRun,
)
    requires
        is_named(run),
        next.responses@.len() == run.responses@.len() + 1,
        next.last_error is Some || (next.last_error == run.last_error && next.ctx
            == run.context_after(h, response)),
    ensures
        is_named(next),
{
}

/// A related command that asks for the session and the tree of the command
/// before it gets those of the first command.
pub proof fn law_related_command_inherits(
    run: CompoundRun,
    first: Smb2Header,
    response: Seq<u8>,
    later: Smb2Header,
)
    requires
        run.ctx.related,
        run.position() == 0,
        later.session_id == u64::MAX,
        later.tree_id == u32::MAX,
    ensures
        resolved_header(later, run.context_after(first, response)) == Some(
            Smb2Header { session_id: first.session_id, tree_id: first.tree_id, ..later },
        ),
{
}

/// A command that follows a CREATE in a related message works on the file that
/// was opened, whatever file id it names.
pub proof fn law_related_command_works_on_opened_file(
    run: CompoundRun,
    create: Smb2Header,
    response: Seq<u8>,
    command: Smb2Command,
    message: Seq<u8>,
)
    requires
        run.ctx.related,
        create.command == Smb2Command::Create,
        response.len() >= 144,
        spec_fileid_body_offset(command) is Some,
        message.len() >= 64 + spec_fileid_body_offset(command)->0 + 16,
    ensures
        ({
            let handled = command_message(command, message, run.context_after(create, response));
            let place = 64 + spec_fileid_body_offset(command)->0;
            &&& handled.len() == message.len()
            &&& codec::u64_at(handled, place) == codec::u64_at(response, 128)
            &&& codec::u64_at(handled, place + 8) == codec::u64_at(response, 136)
        }),
{
    let id = opened_file(response)->0;
    let place = 64 + spec_fileid_body_offset(command)->0;
    assert(wire_half(id.persistent) == codec::u64_at(response, 128));
    assert(wire_half(id.volatile) == codec::u64_at(response, 136));
    lemma_overwritten_pair(
        message,
        place,
        codec::u64_at(response, 128),
        codec::u64_at(response, 136),
    );
}

proof fn lemma_overwritten_pair(message: Seq<u8>, place: int, a: u64, b: u64)
    requires
        0 <= place,
        place + 16 <= message.len(),
    ensures
        codec::u64_at(codec::overwrite(message, place, codec::le64(a) + codec::le64(b)), place) == a,
        codec::u64_at(codec::overwrite(message, place, codec::le64(a) + codec::le64(b)), place + 8)
            == b,
{
    let handled = codec::overwrite(message, place, codec::le64(a) + codec::le64(b));
    assert(handled.subrange(place, place + 8) =~= codec::le64(a));
    assert(handled.subrange(place + 8, place + 16) =~= codec::le64(b));
    codec::lemma_read_le64(handled, place, a);
    codec::lemma_read_le64(handled, place + 8, b);
}

/// Of a command nothing but the file id is ever replaced: its sixteen bytes
/// stand at 8 of the body of a CLOSE, FLUSH, LOCK or QUERY_DIRECTORY, at 16 of
/// that of a READ, WRITE or SET_INFO, and at 24 of that of a QUERY_INFO. All
/// other commands stay as they are.
pub proof fn law_only_file_id_is_replaced(
    command: Smb2Command,
    message: Seq<u8>,
    ctx: CompoundContext,
)
    ensures
        ({
            let handled = command_message(command, message, ctx);
            let place: int = match command {
                Smb2Command::Close => 72,
                Smb2Command::Flush => 72,
                Smb2Command::Lock => 72,
                Smb2Command::QueryDirectory => 72,
                Smb2Command::Read => 80,
                Smb2Command::Write => 80,
                Smb2Command::SetInfo => 80,
                Smb2Command::QueryInfo => 88,
                _ => message.len() as int,
            };
            &&& handled.len() == message.len()
            &&& forall|k: int|
                0 <= k < place || place + 16 <= k < message.len() ==> #[trigger] handled[k]
                    == message[k]
            &&& !ctx.related || ctx.first || ctx.file_id is None ==> handled == message
        }),
{
}

/// The file that a CREATE response names is the one that the commands after it
/// take over, and no other command changes which file that is.
pub proof fn law_only_create_sets_file(run: CompoundRun, h: Smb2Header, response: Seq<u8>)
    ensures
        h.command != Smb2Command::Create ==> run.context_after(h, response).file_id
            == run.ctx.file_id,
        h.command == Smb2Command::Create && response.len() >= 144 ==> (run.context_after(
            h,
            response,
        ).file_id matches Some(id) && id.persistent == codec::u64_at(response, 128) && id.volatile
            == codec::u64_at(response, 136)),
        !run.context_after(h, response).first,
        run.context_after(h, response).related == run.ctx.related,
        run.position() > 0 ==> run.context_after(h, response).session_id == run.ctx.session_id
            && run.context_after(h, response).tree_id == run.ctx.tree_id,
{
}

/// A command keeps the session and the tree that it names. Only one that is
/// related to those before it, and names the highest session id or tree id
/// there is, takes over theirs.
pub proof fn law_named_ids_are_kept(header: Smb2Header, ctx: CompoundContext)
    ensures
        !ctx.related || ctx.first ==> resolved_header(header, ctx) == Some(header),
        header.session_id != 0xFFFF_FFFF_FFFF_FFFF ==> ctx.spec_resolve_session_id(
            header.session_id,
        ) == Some(header.session_id),
        header.tree_id != 0xFFFF_FFFF ==> ctx.spec_resolve_tree_id(header.tree_id) == Some(
            header.tree_id,
        ),
        ctx.related && !ctx.first && header.session_id == 0xFFFF_FFFF_FFFF_FFFF
            ==> ctx.spec_resolve_session_id(header.session_id) == ctx.session_id,
        ctx.related && !ctx.first && header.tree_id == 0xFFFF_FFFF ==> ctx.spec_resolve_tree_id(
            header.tree_id,
        ) == ctx.tree_id,
        resolved_header(header, ctx) matches Some(h) ==> h == (Smb2Header {
            session_id: h.session_id,
            tree_id: h.tree_id,
            ..header
        }),
{
}

/// Commands follow each other as their headers say: the first one starts where
/// the walk does, each further one as many bytes behind the one before as the
/// four bytes at 20 of that one's header say, with room for its header; and the
/// walk ends where there is no next one, or none that fits.
pub proof fn law_commands_follow_each_other(message: Seq<u8>, offset: int)
    requires
        0 <= offset,
    ensures
        ({
            let offsets = command_offsets(message, offset);
            &&& offsets.len() >= 1
            &&& offsets[0] == offset
            &&& forall|i: int|
                #![trigger offsets[i]]
                0 <= i < offsets.len() - 1 ==> {
                    &&& codec::u32_at(message, offsets[i] + 20) > 0
                    &&& offsets[i + 1] == offsets[i] + codec::u32_at(message, offsets[i] + 20)
                    &&& offsets[i + 1] + 64 <= message.len()
                }
            &&& offsets.last() + 64 <= message.len() ==> (codec::u32_at(
                message,
                offsets.last() + 20,
            ) == 0 || offsets.last() + codec::u32_at(message, offsets.last() + 20) + 64
                > message.len())
            &&& offsets.last() >= 0
        }),
    decreases message.len() - offset,
{
    let next = next_distance(message, offset);
    if next > 0 && offset + 64 <= message.len() {
        let rest = command_offsets(message, offset + next);
        law_commands_follow_each_other(message, offset + next);
        let offsets = command_offsets(message, offset);
        assert(offsets =~= seq![offset] + rest);
        assert forall|i: int| #![trigger offsets[i]] 0 <= i < offsets.len() - 1 implies {
            &&& codec::u32_at(message, offsets[i] + 20) > 0
            &&& offsets[i + 1] == offsets[i] + codec::u32_at(message, offsets[i] + 20)
            &&& offsets[i + 1] + 64 <= message.len()
        } by {
            if i > 0 {
                assert(offsets[i] == rest[i - 1]);
                assert(offsets[i + 1] == rest[i]);
            } else {
                assert(offsets[1] == rest[0]);
            }
        }
        assert(offsets.last() == rest.last());
    }
}

/// The padding behind a response is less than eight bytes and brings the next
/// one to a multiple of eight.
pub proof fn law_padding_aligns(len: int)
    requires
        0 <= len,
    ensures
        (len + padding(len)) % 8 == 0,
        0 <= padding(len) < 8,
{
}

/// Each request but NEGOTIATE takes at least one credit, and as many as it
/// charges if that is more.
pub proof fn law_every_request_pays(header: Smb2Header)
    ensures
        header.command == Smb2Command::Negotiate <==> spec_consumed_credits(header) is None,
        spec_consumed_credits(header) matches Some(n) ==> n >= 1 && n >= header.credit_charge && (n
            == 1 || n == header.credit_charge),
{
}

/// A command that is answered with the failure of one before it is answered in
/// the session and the tree that it would have worked in, or in none if there
/// is none to take over.
pub proof fn law_answered_header(header: Smb2Header, ctx: CompoundContext)
    ensures
        ({
            let answered = answered_header(header, ctx);
            let inherits = ctx.related && !ctx.first;
            &&& answered.session_id == if inherits && header.session_id == 0xFFFF_FFFF_FFFF_FFFF {
                context_session(ctx)
            } else {
                header.session_id
            }
            &&& answered.tree_id == if inherits && header.tree_id == 0xFFFF_FFFF {
                context_tree(ctx)
            } else {
                header.tree_id
            }
            &&& answered.message_id == header.message_id
            &&& answered.command == header.command
            &&& answered.credit_charge == header.credit_charge
        }),
{
}

/// A command whose file id is the highest in both halves stands for the file of
/// the command before; any other file id is its own.
pub proof fn law_named_file_is_kept(ctx: CompoundContext, requested: FileId)
    ensures
        requested.persistent != 0xFFFF_FFFF_FFFF_FFFF || requested.volatile
            != 0xFFFF_FFFF_FFFF_FFFF || !ctx.related || ctx.first ==> ctx.spec_resolve_file_id(
            requested,
        ) == Some(requested),
        requested.persistent == 0xFFFF_FFFF_FFFF_FFFF && requested.volatile
            == 0xFFFF_FFFF_FFFF_FFFF && ctx.related && !ctx.first ==> ctx.spec_resolve_file_id(
            requested,
        ) == ctx.file_id,
{
}

/// A failure is remembered with its status, and changes neither the file nor
/// the session that the commands after it find.
pub proof fn law_failure_is_remembered(run: CompoundRun, status: NtStatus)
    ensures
        run.failed(status).last_error == Some(status),
        run.failed(status).ctx.failure == Some(status.spec_code()),
        run.failed(status).ctx.file_id == run.ctx.file_id,
        run.failed(status).ctx.session_id == run.ctx.session_id,
        run.failed(status).ctx.tree_id == run.ctx.tree_id,
        !run.failed(status).ctx.first,
        run.failed(status).responses == run.responses,
{
}

/// The commands after a first one that fails find its session and its tree if
/// they are related to it; otherwise nothing changes, and nothing else ever.
pub proof fn law_failing_command_names_session(run: CompoundRun, h: Smb2Header)
    ensures
        run.ctx.related && run.position() == 0 ==> run.named_by(h).ctx.session_id == Some(
            h.session_id,
        ) && run.named_by(h).ctx.tree_id == Some(h.tree_id),
        !run.ctx.related || run.position() != 0 ==> run.named_by(h) == run,
        run.named_by(h).ctx.file_id == run.ctx.file_id,
        run.named_by(h).ctx.related == run.ctx.related,
        run.named_by(h).ctx.failure == run.ctx.failure,
        run.named_by(h).responses == run.responses,
        run.named_by(h).last_error == run.last_error,
{
}

/// A command whose header cannot be read is answered in the session and the tree
/// of the commands before it, as message 0.
pub proof fn law_unreadable_command_is_answered(ctx: CompoundContext)
    ensures
        unreadable_header(ctx).message_id == 0,
        unreadable_header(ctx).flags.0 == 0,
        unreadable_header(ctx).next_command == 0,
        ctx.session_id matches Some(id) ==> unreadable_header(ctx).session_id == id,
        ctx.session_id is None ==> unreadable_header(ctx).session_id == 0,
        ctx.tree_id matches Some(id) ==> unreadable_header(ctx).tree_id == id,
        ctx.tree_id is None ==> unreadable_header(ctx).tree_id == 0,
{
}

/// A command works in the session and the tree that it names, unless it is
/// related to one before it and names the highest id: that stands for the
/// session or the tree of the commands before.
pub proof fn law_effective_ids(run: CompoundRun, h: Smb2Header)
    ensures
        !run.ctx.related || run.position() == 0 ==> run.effective_header(h) == Some(h),
        run.ctx.related && run.position() > 0 && h.session_id != 0xFFFF_FFFF_FFFF_FFFF && h.tree_id
            != 0xFFFF_FFFF ==> (run.effective_header(h) matches Some(e) && e.session_id
            == h.session_id && e.tree_id == h.tree_id && e.message_id == h.message_id && e.command
            == h.command),
        run.ctx.related && run.position() > 0 && !run.ctx.first && h.session_id
            == 0xFFFF_FFFF_FFFF_FFFF && run.ctx.session_id is None ==> run.effective_header(h)
            is None,
        run.ctx.related && run.position() > 0 && !run.ctx.first && h.session_id
            == 0xFFFF_FFFF_FFFF_FFFF ==> (run.effective_header(h) matches Some(e) ==> Some(
            e.session_id,
        ) == run.ctx.session_id),
        run.ctx.related && run.position() > 0 && !run.ctx.first && h.tree_id == 0xFFFF_FFFF ==> (
        run.effective_header(h) matches Some(e) ==> Some(e.tree_id) == run.ctx.tree_id),
{
}

} // verus!
