//! SET_INFO: changing the properties of an open file.

use vstd::prelude::*;

use crate::codec;
use crate::error;
use crate::error::HandlerError;
use crate::handler::common;
use crate::handler::common::TreeReply;
use crate::handler::create_response;
use crate::handler::create_response::CreateReply;
use crate::handler::query::InfoType;
use crate::helpers::info_builders;
use crate::helpers::strings;
use crate::helpers::time;
use crate::protocol::header::Smb2Header;
use crate::protocol::status::NtStatus;
use crate::state::HandleState;
use crate::storage;
use crate::storage::{Metadata, UnixTime, FILE_ATTRIBUTE_READONLY};

verus! {

/// A SET_INFO request.
#[derive(Clone, Copy, Debug)]
pub struct SetInfoRequest {
    pub info_type: InfoType,
    pub file_info_class: u8,
    pub buffer_length: u32,
    pub buffer_offset: u16,
    pub file_id_persistent: u64,
    pub file_id_volatile: u64,
}

impl SetInfoRequest {
    /// Whether a body can be read: it is 32 bytes long, and what it sets has a
    /// meaning.
    pub open spec fn readable(body: Seq<u8>) -> bool {
        body.len() >= 32 && InfoType::spec_from_u8(body[2]) is Some
    }

    pub open spec fn of(body: Seq<u8>) -> SetInfoRequest {
        SetInfoRequest {
            info_type: InfoType::spec_from_u8(body[2])->0,
            file_info_class: body[3],
            buffer_length: codec::u32_at(body, 4),
            buffer_offset: codec::u16_at(body, 8),
            file_id_persistent: codec::u64_at(body, 16),
            file_id_volatile: codec::u64_at(body, 24),
        }
    }

    pub fn parse(body: &[u8]) -> (request: Option<SetInfoRequest>)
        ensures
            Self::readable(body@) ==> request == Some(Self::of(body@)),
            !Self::readable(body@) ==> request is None,
    {
        if body.len() < 32 {
            return None;
        }
        match InfoType::from_u8(body[2]) {
            None => None,
            Some(info_type) => Some(
                SetInfoRequest {
                    info_type,
                    file_info_class: body[3],
                    buffer_length: codec::get_u32(body, 4),
                    buffer_offset: codec::get_u16(body, 8),
                    file_id_persistent: codec::get_u64(body, 16),
                    file_id_volatile: codec::get_u64(body, 24),
                },
            ),
        }
    }

    /// Where the buffer starts in the body. A place inside the header stands for
    /// the end of the fixed part.
    pub open spec fn buffer_start(self) -> int {
        if self.buffer_offset > 64 {
            self.buffer_offset - 64
        } else {
            33
        }
    }

    /// Whether the buffer lies inside the body.
    pub open spec fn has_buffer(self, body: Seq<u8>) -> bool {
        self.buffer_start() + self.buffer_length <= body.len()
    }

    pub open spec fn buffer(self, body: Seq<u8>) -> Seq<u8> {
        body.subrange(self.buffer_start(), self.buffer_start() + self.buffer_length)
    }
}

/// A SET_INFO request that waits for its handle.
#[derive(Debug)]
pub struct SetAwaitHandle {
    pub header: Smb2Header,
    pub request: SetInfoRequest,
    pub body: Vec<u8>,
    /// The handle to look up.
    pub handle_id: u128,
}

/// Starts to handle a SET_INFO request.
pub fn handle_set_info(header: &Smb2Header, body: &[u8]) -> (r: Result<SetAwaitHandle, HandlerError>)
    ensures
        !SetInfoRequest::readable(body@) ==> error::malformed(r, "Failed to parse set_info"@),
        SetInfoRequest::readable(body@) ==> {
            let request = SetInfoRequest::of(body@);
            if request.buffer_length == 0 {
                error::refused(r, NtStatus::InvalidParameter)
            } else {
                &&& r matches Ok(a)
                &&& a.header == *header
                &&& a.request == request
                &&& a.body@ == body@
                &&& a.handle_id == common::spec_handle_id(
                    request.file_id_persistent,
                    request.file_id_volatile,
                )
            }
        },
        r matches Ok(a) ==> common::is_file_id_at(body@, 16, a.handle_id),
{
    let request = match SetInfoRequest::parse(body) {
        Some(request) => request,
        None => {
            return Err(error::protocol_error("Failed to parse set_info"));
        },
    };
    proof {
        common::lemma_file_id_at(body@, 16);
    }
    if request.buffer_length == 0 {
        return Err(HandlerError::Status(NtStatus::InvalidParameter));
    }
    let copy = codec::copy_range(body, 0, body.len());
    assert(copy@ =~= body@);
    Ok(
        SetAwaitHandle {
            header: *header,
            request,
            body: copy,
            handle_id: common::handle_id(request.file_id_persistent, request.file_id_volatile),
        },
    )
}

/// A SET_INFO request that waits for its tree.
#[derive(Debug)]
pub struct SetAwaitTree {
    pub header: Smb2Header,
    pub request: SetInfoRequest,
    pub body: Vec<u8>,
    pub handle: HandleState,
}

impl SetAwaitHandle {
    /// Takes the handle that the state store found.
    pub fn on_handle(self, reply: Result<Option<HandleState>, String>) -> (r: Result<
        SetAwaitTree,
        HandlerError,
    >)
        ensures
            match common::handle_outcome(self.header, reply, NtStatus::InvalidHandle) {
                Err(e) => r == Err::<SetAwaitTree, HandlerError>(e),
                Ok(handle) => r == Ok::<SetAwaitTree, HandlerError>(
                    SetAwaitTree {
                        header: self.header,
                        request: self.request,
                        body: self.body,
                        handle,
                    },
                ),
            },
    {
        match common::accept_handle(&self.header, reply, NtStatus::InvalidHandle) {
            Err(e) => Err(e),
            Ok(handle) => Ok(
                SetAwaitTree {
                    header: self.header,
                    request: self.request,
                    body: self.body,
                    handle,
                },
            ),
        }
    }
}

/// What has to happen next with a SET_INFO request.
#[derive(Debug)]
pub enum SetStep {
    /// Find out the times of the file and hand them to `on_metadata`.
    Stat(BasicChange),
    /// Set the times of the file and hand the outcome to `on_times`.
    Times(TimesChange),
    /// Find out the mode of the file and hand it to `on_metadata`.
    Mode(ModeChange),
    /// Set the mode of the file and hand the outcome to `on_chmod`.
    Chmod { path: String, mode: u32 },
    /// Find out whether there is a file at the target, and hand it to `on_stat`.
    Exists(RenameChange),
    /// Rename the file and hand the outcome to `on_renamed`.
    Rename(RenameChange),
    /// Set the size of the file and hand the outcome to `on_truncated`.
    Truncate { file: String, size: u64 },
    /// Store the handle and hand the outcome to `on_stored`.
    Store(HandleState),
    /// Answer that all went well.
    Done,
}

/// A change of times and attributes.
#[derive(Debug)]
pub struct BasicChange {
    pub path: String,
    /// The time of the last access to set; none leaves it as it is.
    pub access_time: Option<UnixTime>,
    /// The time of the last change to set.
    pub modify_time: Option<UnixTime>,
    /// Whether the file is to become read-only or writable.
    pub readonly: Option<bool>,
}

/// The times that a file gets, and the attributes that are to follow.
#[derive(Debug)]
pub struct TimesChange {
    pub path: String,
    pub access_time: UnixTime,
    pub modify_time: UnixTime,
    /// Whether the file is to become read-only or writable.
    pub readonly: Option<bool>,
}

/// A change of the read-only attribute.
#[derive(Debug)]
pub struct ModeChange {
    pub path: String,
    pub readonly: bool,
}

/// A change of name.
#[derive(Debug)]
pub struct RenameChange {
    pub handle: HandleState,
    pub target: String,
}

/// The time that a FILETIME of a request sets; zero and the last one set none.
pub open spec fn time_to_set(filetime: u64) -> Option<UnixTime> {
    if filetime == 0 || filetime == u64::MAX {
        None
    } else if filetime / time::TICKS_PER_SEC >= time::EPOCH_DIFF {
        Some(
            UnixTime {
                secs: (filetime / time::TICKS_PER_SEC - time::EPOCH_DIFF) as i64,
                nanos: 0,
            },
        )
    } else {
        Some(UnixTime { secs: 0, nanos: 0 })
    }
}

fn compute_time_to_set(filetime: u64) -> (t: Option<UnixTime>)
    ensures
        t == time_to_set(filetime),
{
    if filetime == 0 || filetime == u64::MAX {
        None
    } else {
        let secs: u64 = time::filetime_to_unix(filetime);
        Some(UnixTime { secs: secs as i64, nanos: 0 })
    }
}

/// The time that a file gets: the one to set, or else the one that it has.
pub open spec fn time_or_current(set: Option<UnixTime>, current: UnixTime) -> UnixTime {
    match set {
        Some(t) => t,
        None => current,
    }
}

/// What attributes ask for; none at all leave the file as it is.
pub open spec fn readonly_to_set(attributes: u32) -> Option<bool> {
    if attributes == 0 {
        None
    } else {
        Some(attributes & FILE_ATTRIBUTE_READONLY != 0)
    }
}

/// The change that basic information asks for.
pub open spec fn basic_change(handle: HandleState, buffer: Seq<u8>) -> BasicChange {
    BasicChange {
        path: handle.path,
        access_time: time_to_set(codec::u64_at(buffer, 8)),
        modify_time: time_to_set(codec::u64_at(buffer, 16)),
        readonly: readonly_to_set(codec::u32_at(buffer, 32)),
    }
}

/// The first step of a change of times and attributes.
pub open spec fn basic_step(change: BasicChange) -> SetStep {
    if change.access_time is Some || change.modify_time is Some {
        SetStep::Stat(change)
    } else {
        attribute_step(change.path, change.readonly)
    }
}

/// The step of a change of times and attributes once the times are set.
pub open spec fn attribute_step(path: String, readonly: Option<bool>) -> SetStep {
    match readonly {
        Some(readonly) => SetStep::Mode(ModeChange { path, readonly }),
        None => SetStep::Done,
    }
}

fn set_attributes(path: String, readonly: Option<bool>) -> (step: SetStep)
    ensures
        step == attribute_step(path, readonly),
{
    match readonly {
        Some(readonly) => SetStep::Mode(ModeChange { path, readonly }),
        None => SetStep::Done,
    }
}

impl BasicChange {
    /// The times to set on a file.
    pub open spec fn times_change(self, metadata: Metadata) -> TimesChange {
        TimesChange {
            path: self.path,
            access_time: time_or_current(self.access_time, metadata.atime),
            modify_time: time_or_current(self.modify_time, metadata.mtime),
            readonly: self.readonly,
        }
    }

    fn start(self) -> (step: SetStep)
        ensures
            step == basic_step(self),
    {
        if self.access_time.is_some() || self.modify_time.is_some() {
            SetStep::Stat(self)
        } else {
            set_attributes(self.path, self.readonly)
        }
    }

    /// Takes what the backend says of the file: a time that is not to be set stays
    /// as it is.
    pub fn on_metadata(self, reply: Result<Metadata, String>) -> (r: Result<SetStep, HandlerError>)
        ensures
            match reply {
                Err(text) => r == Err::<SetStep, HandlerError>(HandlerError::Vfs(text)),
                Ok(metadata) => r == Ok::<SetStep, HandlerError>(
                    SetStep::Times(self.times_change(metadata)),
                ),
            },
    {
        match reply {
            Err(text) => Err(HandlerError::Vfs(text)),
            Ok(metadata) => {
                let access_time = match self.access_time {
                    Some(t) => t,
                    None => metadata.atime,
                };
                let modify_time = match self.modify_time {
                    Some(t) => t,
                    None => metadata.mtime,
                };
                Ok(
                    SetStep::Times(
                        TimesChange {
                            path: self.path,
                            access_time,
                            modify_time,
                            readonly: self.readonly,
                        },
                    ),
                )
            },
        }
    }
}

impl TimesChange {
    /// Takes the outcome of setting the times.
    pub fn on_times(self, reply: Result<(), String>) -> (r: Result<SetStep, HandlerError>)
        ensures
            match reply {
                Err(text) => r == Err::<SetStep, HandlerError>(HandlerError::Vfs(text)),
                Ok(_) => r == Ok::<SetStep, HandlerError>(
                    attribute_step(self.path, self.readonly),
                ),
            },
    {
        match reply {
            Err(text) => Err(HandlerError::Vfs(text)),
            Ok(()) => Ok(set_attributes(self.path, self.readonly)),
        }
    }
}

impl ModeChange {
    /// Takes what the backend says of the file.
    pub fn on_metadata(self, reply: Result<Metadata, String>) -> (r: Result<SetStep, HandlerError>)
        ensures
            match reply {
                Err(text) => r == Err::<SetStep, HandlerError>(HandlerError::Vfs(text)),
                Ok(metadata) => r == Ok::<SetStep, HandlerError>(
                    SetStep::Chmod {
                        path: self.path,
                        mode: storage::readonly_mode(metadata.mode, self.readonly),
                    },
                ),
            },
    {
        match reply {
            Err(text) => Err(HandlerError::Vfs(text)),
            Ok(metadata) => {
                let mode: u32 = storage::apply_readonly_attribute(metadata.mode, self.readonly);
                Ok(SetStep::Chmod { path: self.path, mode })
            },
        }
    }
}

/// Takes the outcome of a change that the backend made.
fn finish_backend(reply: Result<(), String>) -> (r: Result<SetStep, HandlerError>)
    ensures
        match reply {
            Err(text) => r == Err::<SetStep, HandlerError>(HandlerError::Vfs(text)),
            Ok(_) => r == Ok::<SetStep, HandlerError>(SetStep::Done),
        },
{
    match reply {
        Err(text) => Err(HandlerError::Vfs(text)),
        Ok(()) => Ok(SetStep::Done),
    }
}

/// Takes the outcome of setting the mode.
pub fn on_chmod(reply: Result<(), String>) -> (r: Result<SetStep, HandlerError>)
    ensures
        match reply {
            Err(text) => r == Err::<SetStep, HandlerError>(HandlerError::Vfs(text)),
            Ok(_) => r == Ok::<SetStep, HandlerError>(SetStep::Done),
        },
{
    finish_backend(reply)
}

/// Takes the outcome of setting the size.
pub fn on_truncated(reply: Result<(), String>) -> (r: Result<SetStep, HandlerError>)
    ensures
        match reply {
            Err(text) => r == Err::<SetStep, HandlerError>(HandlerError::Vfs(text)),
            Ok(_) => r == Ok::<SetStep, HandlerError>(SetStep::Done),
        },
{
    finish_backend(reply)
}

/// Takes the outcome of storing the handle.
pub fn on_stored(reply: Result<(), String>) -> (r: Result<SetStep, HandlerError>)
    ensures
        match reply {
            Err(text) => r == Err::<SetStep, HandlerError>(HandlerError::Internal(text)),
            Ok(_) => r == Ok::<SetStep, HandlerError>(SetStep::Done),
        },
{
    match reply {
        Err(text) => Err(HandlerError::Internal(text)),
        Ok(()) => Ok(SetStep::Done),
    }
}

/// Whether a component of a path starts at position `i`: one that is not empty
/// and does not stand for the directory itself.
pub open spec fn starts_component(path: Seq<char>, i: int) -> bool {
    i < path.len() && path[i] != '/' && !(path[i] == '.' && (i + 1 == path.len() || path[i + 1]
        == '/'))
}

/// Whether a path means the same on every platform: its components stand between
/// single slashes, and nothing in it is a separator or a prefix on one platform
/// only.
pub open spec fn is_plain_path(path: Seq<char>) -> bool {
    &&& path.len() > 0
    &&& forall|i: int| 0 <= i < path.len() ==> #[trigger] path[i] != '\\' && path[i] != ':'
    &&& forall|i: int|
        0 <= i < path.len() && #[trigger] path[i] == '/' ==> starts_component(path, i + 1)
}

/// The part of a path before its last slash; the slash itself if nothing stands
/// before it.
pub open spec fn directory_of(path: Seq<char>) -> Seq<char>
    decreases path.len(),
{
    if path.len() == 0 || path =~= seq!['/'] {
        path
    } else if path.last() == '/' {
        path.drop_last()
    } else {
        directory_of(path.drop_last())
    }
}

/// What stands in a path before, between and after its slashes.
pub open spec fn pieces(path: Seq<char>) -> Seq<Seq<char>>
    decreases path.len(),
{
    if path.len() == 0 {
        seq![Seq::empty()]
    } else {
        let before = pieces(path.drop_last());
        if path.last() == '/' {
            before.push(Seq::empty())
        } else {
            before.drop_last().push(before.last().push(path.last()))
        }
    }
}

/// Those of the first `n` pieces that count: not the empty ones, and not a dot
/// that stands for the directory itself, unless it is the first piece.
pub open spec fn named_pieces(pieces: Seq<Seq<char>>, n: int) -> Seq<Seq<char>>
    decreases n,
{
    if n <= 0 {
        Seq::empty()
    } else {
        let before = named_pieces(pieces, n - 1);
        if pieces[n - 1].len() == 0 || (n > 1 && pieces[n - 1] =~= seq!['.']) {
            before
        } else {
            before.push(pieces[n - 1])
        }
    }
}

/// The root that a path starts at, if it does.
pub open spec fn root_of(path: Seq<char>) -> Seq<Seq<char>> {
    if path.len() > 0 && path[0] == '/' {
        seq![seq!['/']]
    } else {
        Seq::empty()
    }
}

/// The components of a path: its root, if it has one, and its names. It does not
/// matter how many slashes stand between two names or at the end.
pub open spec fn components(path: Seq<char>) -> Seq<Seq<char>> {
    root_of(path) + named_pieces(pieces(path), pieces(path).len() as int)
}

/// Whether a path has the same components on every platform: nothing in it is a
/// separator or a prefix on one platform only.
pub open spec fn is_portable_path(path: Seq<char>) -> bool {
    &&& forall|i: int| 0 <= i < path.len() ==> #[trigger] path[i] != '\\' && path[i] != ':'
    &&& !(path.len() >= 2 && path[0] == '/' && path[1] == '/')
}

/// The parent of a path has all of its components but the last. The empty path
/// and the root have none. Of a path of names between single slashes it is the
/// part before the last slash. Of a path that is not portable nothing is stated.
pub open spec fn is_parent(parent: Option<Seq<char>>, path: Seq<char>) -> bool {
    &&& is_portable_path(path) ==> if components(path).len() == 0 || components(path) == seq![
        seq!['/'],
    ] {
        parent is None
    } else {
        parent matches Some(p) && components(p) == components(path).drop_last()
    }
    &&& is_plain_path(path) ==> parent == Some(directory_of(path))
}

/// `std::path::Path::parent`: the path without its last component, as text.
/// There is none for the empty path and for the root. What a component is differs
/// between platforms, so of a path that holds a backslash, a colon or two slashes
/// in front nothing is stated. How the components are joined is stated only where
/// single slashes stand between them.
#[verifier::external_body]
fn parent_path(path: &str) -> (parent: Option<String>)
    ensures
        is_parent(text_of(parent), path@),
{
    std::path::Path::new(path).parent().map(|p| p.display().to_string())
}

/// The path that a file is renamed to: the new name itself if it starts with a
/// slash, otherwise the name below the parent of the file.
pub open spec fn target_path(name: Seq<char>, parent: Option<Seq<char>>) -> Seq<char> {
    if name.len() > 0 && name[0] == '/' {
        name
    } else {
        let below = match parent {
            Some(p) => p,
            None => Seq::empty(),
        };
        below + seq!['/'] + name
    }
}

pub open spec fn text_of(text: Option<String>) -> Option<Seq<char>> {
    match text {
        Some(t) => Some(t@),
        None => None,
    }
}

pub fn rename_target(name: String, parent: Option<String>) -> (target: String)
    ensures
        target@ == target_path(name@, text_of(parent)),
{
    if name.as_str().unicode_len() > 0 && name.as_str().get_char(0) == '/' {
        return name;
    }
    match parent {
        Some(p) => strings::join_path(p.as_str(), name.as_str()),
        None => {
            let target = strings::join_path("", name.as_str());
            proof {
                reveal_strlit("");
                assert(""@ =~= Seq::<char>::empty());
            }
            target
        },
    }
}

/// Whether the name in rename information lies inside it.
pub open spec fn has_name(buffer: Seq<u8>) -> bool {
    buffer.len() >= 20 && 20 + codec::u32_at(buffer, 16) <= buffer.len()
}

/// The new name in rename information, with slashes in place of backslashes.
pub open spec fn new_name(buffer: Seq<u8>) -> Seq<char> {
    strings::replaced(
        strings::utf16_decode(
            strings::until_null(
                strings::utf16_units(buffer.subrange(20, 20 + codec::u32_at(buffer, 16))),
            ),
        ),
        '\\',
        "/"@,
    )
}

/// What a backend says of the target of a rename.
#[derive(Debug)]
pub enum TargetReply {
    /// There is a file.
    Found,
    /// There is none.
    Absent,
    Failed(String),
}

impl RenameChange {
    /// Takes whether there is a file at the target.
    pub fn on_stat(self, reply: TargetReply) -> (r: Result<SetStep, HandlerError>)
        ensures
            match reply {
                TargetReply::Found => error::refused(r, NtStatus::ObjectNameCollision),
                TargetReply::Absent => r == Ok::<SetStep, HandlerError>(SetStep::Rename(self)),
                TargetReply::Failed(text) => r == Err::<SetStep, HandlerError>(
                    HandlerError::Vfs(text),
                ),
            },
    {
        match reply {
            TargetReply::Found => Err(HandlerError::Status(NtStatus::ObjectNameCollision)),
            TargetReply::Absent => Ok(SetStep::Rename(self)),
            TargetReply::Failed(text) => Err(HandlerError::Vfs(text)),
        }
    }

    /// Takes the outcome of renaming: the handle follows the file.
    pub fn on_renamed(self, reply: Result<(), String>) -> (r: Result<SetStep, HandlerError>)
        ensures
            match reply {
                Err(text) => r == Err::<SetStep, HandlerError>(HandlerError::Vfs(text)),
                Ok(_) => r == Ok::<SetStep, HandlerError>(
                    SetStep::Store(HandleState { path: self.target, ..self.handle }),
                ),
            },
    {
        match reply {
            Err(text) => Err(HandlerError::Vfs(text)),
            Ok(()) => {
                let mut handle = self.handle;
                handle.path = self.target;
                Ok(SetStep::Store(handle))
            },
        }
    }
}

/// The classes of file information that can be set.
#[derive(Clone, Copy, Debug, PartialEq, Eq, Structural)]
pub enum SetFileInfoClass {
    Basic,
    Rename,
    Disposition,
    Position,
    Mode,
    Allocation,
    EndOfFile,
}

impl SetFileInfoClass {
    pub open spec fn spec_from_u8(n: u8) -> Option<SetFileInfoClass> {
        if n == 4 {
            Some(SetFileInfoClass::Basic)
        } else if n == 10 {
            Some(SetFileInfoClass::Rename)
        } else if n == 13 {
            Some(SetFileInfoClass::Disposition)
        } else if n == 14 {
            Some(SetFileInfoClass::Position)
        } else if n == 16 {
            Some(SetFileInfoClass::Mode)
        } else if n == 19 {
            Some(SetFileInfoClass::Allocation)
        } else if n == 20 {
            Some(SetFileInfoClass::EndOfFile)
        } else {
            None
        }
    }

    pub fn from_u8(n: u8) -> (class: Option<SetFileInfoClass>)
        ensures
            class == Self::spec_from_u8(n),
    {
        if n == 4 {
            Some(SetFileInfoClass::Basic)
        } else if n == 10 {
            Some(SetFileInfoClass::Rename)
        } else if n == 13 {
            Some(SetFileInfoClass::Disposition)
        } else if n == 14 {
            Some(SetFileInfoClass::Position)
        } else if n == 16 {
            Some(SetFileInfoClass::Mode)
        } else if n == 19 {
            Some(SetFileInfoClass::Allocation)
        } else if n == 20 {
            Some(SetFileInfoClass::EndOfFile)
        } else {
            None
        }
    }
}

/// What setting file information comes to.
pub open spec fn sets_file_info(
    r: Result<SetStep, HandlerError>,
    handle: HandleState,
    info_class: u8,
    buffer: Seq<u8>,
) -> bool {
    match SetFileInfoClass::spec_from_u8(info_class) {
        Some(SetFileInfoClass::Basic) => if buffer.len() < 40 {
            error::refused(r, NtStatus::InvalidParameter)
        } else {
            r == Ok::<SetStep, HandlerError>(basic_step(basic_change(handle, buffer)))
        },
        Some(SetFileInfoClass::Disposition) => if buffer.len() == 0 {
            error::refused(r, NtStatus::InvalidParameter)
        } else if buffer[0] != 0 {
            r == Ok::<SetStep, HandlerError>(
                SetStep::Store(HandleState { delete_on_close: true, ..handle }),
            )
        } else {
            r == Ok::<SetStep, HandlerError>(SetStep::Done)
        },
        Some(SetFileInfoClass::Rename) => if !has_name(buffer) {
            error::refused(r, NtStatus::InvalidParameter)
        } else {
            exists|change: RenameChange, parent: Option<Seq<char>>| #[trigger]
                is_rename(r, handle, buffer, change, parent)
        },
        Some(SetFileInfoClass::EndOfFile) => if buffer.len() < 8 {
            error::refused(r, NtStatus::InvalidParameter)
        } else {
            r == Ok::<SetStep, HandlerError>(
                SetStep::Truncate { file: handle.path, size: codec::u64_at(buffer, 0) },
            )
        },
        Some(SetFileInfoClass::Allocation) => if buffer.len() < 8 {
            error::refused(r, NtStatus::InvalidParameter)
        } else {
            r == Ok::<SetStep, HandlerError>(
                SetStep::Truncate { file: handle.path, size: codec::u64_at(buffer, 0) },
            )
        },
        Some(SetFileInfoClass::Position) => if buffer.len() < 8 {
            r == Ok::<SetStep, HandlerError>(SetStep::Done)
        } else {
            r == Ok::<SetStep, HandlerError>(
                SetStep::Store(HandleState { file_offset: codec::u64_at(buffer, 0), ..handle }),
            )
        },
        Some(SetFileInfoClass::Mode) => r == Ok::<SetStep, HandlerError>(SetStep::Done),
        None => error::refused(r, NtStatus::NotSupported),
    }
}

/// Whether a step starts a rename, for the parent of the file.
pub open spec fn is_rename(
    r: Result<SetStep, HandlerError>,
    handle: HandleState,
    buffer: Seq<u8>,
    change: RenameChange,
    parent: Option<Seq<char>>,
) -> bool {
    &&& change.handle == handle
    &&& is_parent(parent, handle.path@)
    &&& change.target@ == target_path(new_name(buffer), parent)
    &&& r == rename_step(change, buffer[0] != 0)
}

/// The first step of a rename: a file at the target is in the way, unless it may
/// be replaced.
pub open spec fn rename_step(change: RenameChange, replace: bool) -> Result<SetStep, HandlerError> {
    if replace {
        Ok(SetStep::Rename(change))
    } else {
        Ok(SetStep::Exists(change))
    }
}

fn start_rename(handle: HandleState, buffer: &[u8]) -> (r: Result<SetStep, HandlerError>)
    ensures
        if !has_name(buffer@) {
            error::refused(r, NtStatus::InvalidParameter)
        } else {
            exists|change: RenameChange, parent: Option<Seq<char>>| #[trigger]
                is_rename(r, handle, buffer@, change, parent)
        },
{
    if buffer.len() < 20 {
        return Err(HandlerError::Status(NtStatus::InvalidParameter));
    }
    let name_len: u64 = codec::get_u32(buffer, 16) as u64;
    if (buffer.len() as u64) < 20 + name_len {
        return Err(HandlerError::Status(NtStatus::InvalidParameter));
    }
    let name_bytes = codec::copy_range(buffer, 20, 20 + name_len as usize);
    let raw_name = strings::parse_utf16_string(name_bytes.as_slice());
    let name = strings::replace_char(raw_name.as_str(), '\\', "/");
    let parent = parent_path(handle.path.as_str());
    let ghost parent_view = text_of(parent);
    let target = rename_target(name, parent);
    let change = RenameChange { handle, target };
    let ghost started = rename_step(change, buffer@[0] != 0);
    assert(is_rename(started, handle, buffer@, change, parent_view));
    if buffer[0] != 0 {
        Ok(SetStep::Rename(change))
    } else {
        Ok(SetStep::Exists(change))
    }
}

/// Starts to set file information.
pub fn handle_set_file_info(handle: HandleState, info_class: u8, buffer: &[u8]) -> (r: Result<
    SetStep,
    HandlerError,
>)
    ensures
        sets_file_info(r, handle, info_class, buffer@),
{
    match SetFileInfoClass::from_u8(info_class) {
        Some(SetFileInfoClass::Basic) => {
            if buffer.len() < 40 {
                return Err(HandlerError::Status(NtStatus::InvalidParameter));
            }
            let attributes: u32 = codec::get_u32(buffer, 32);
            let change = BasicChange {
                path: handle.path,
                access_time: compute_time_to_set(codec::get_u64(buffer, 8)),
                modify_time: compute_time_to_set(codec::get_u64(buffer, 16)),
                readonly: if attributes == 0 {
                    None
                } else {
                    Some(attributes & FILE_ATTRIBUTE_READONLY != 0)
                },
            };
            Ok(change.start())
        },
        Some(SetFileInfoClass::Disposition) => {
            if buffer.len() == 0 {
                return Err(HandlerError::Status(NtStatus::InvalidParameter));
            }
            if buffer[0] != 0 {
                let mut updated = handle;
                updated.delete_on_close = true;
                Ok(SetStep::Store(updated))
            } else {
                Ok(SetStep::Done)
            }
        },
        Some(SetFileInfoClass::Rename) => start_rename(handle, buffer),
        Some(SetFileInfoClass::EndOfFile) => {
            if buffer.len() < 8 {
                return Err(HandlerError::Status(NtStatus::InvalidParameter));
            }
            Ok(SetStep::Truncate { file: handle.path, size: codec::get_u64(buffer, 0) })
        },
        Some(SetFileInfoClass::Allocation) => {
            if buffer.len() < 8 {
                return Err(HandlerError::Status(NtStatus::InvalidParameter));
            }
            Ok(SetStep::Truncate { file: handle.path, size: codec::get_u64(buffer, 0) })
        },
        Some(SetFileInfoClass::Position) => {
            if buffer.len() >= 8 {
                let mut updated = handle;
                updated.file_offset = codec::get_u64(buffer, 0);
                Ok(SetStep::Store(updated))
            } else {
                Ok(SetStep::Done)
            }
        },
        Some(SetFileInfoClass::Mode) => Ok(SetStep::Done),
        None => Err(HandlerError::Status(NtStatus::NotSupported)),
    }
}

impl SetAwaitTree {
    /// Takes the tree that the state store found, and starts the change. What is
    /// set of the security of a file is acknowledged and has no effect.
    pub fn on_tree(self, reply: TreeReply) -> (r: Result<SetStep, HandlerError>)
        ensures
            match common::tree_outcome(reply, NtStatus::InvalidParameter) {
                Err(e) => r == Err::<SetStep, HandlerError>(e),
                Ok(_) => if !self.request.has_buffer(self.body@) {
                    error::refused(r, NtStatus::InvalidParameter)
                } else {
                    match self.request.info_type {
                        InfoType::File => sets_file_info(
                            r,
                            self.handle,
                            self.request.file_info_class,
                            self.request.buffer(self.body@),
                        ),
                        InfoType::Security => r == Ok::<SetStep, HandlerError>(SetStep::Done),
                        InfoType::FileSystem => error::refused(r, NtStatus::NotSupported),
                        InfoType::Quota => error::refused(r, NtStatus::NotSupported),
                    }
                },
            },
    {
        match common::accept_tree(reply, NtStatus::InvalidParameter) {
            Err(e) => {
                return Err(e);
            },
            Ok(_) => {},
        }
        let start: u64 = if self.request.buffer_offset > 64 {
            self.request.buffer_offset as u64 - 64
        } else {
            33
        };
        let end: u64 = start + self.request.buffer_length as u64;
        if end > self.body.len() as u64 {
            return Err(HandlerError::Status(NtStatus::InvalidParameter));
        }
        match self.request.info_type {
            InfoType::File => {
                let buffer = codec::copy_range(
                    self.body.as_slice(),
                    start as usize,
                    end as usize,
                );
                handle_set_file_info(
                    self.handle,
                    self.request.file_info_class,
                    buffer.as_slice(),
                )
            },
            InfoType::Security => Ok(SetStep::Done),
            InfoType::FileSystem => Err(HandlerError::Status(NtStatus::NotSupported)),
            InfoType::Quota => Err(HandlerError::Status(NtStatus::NotSupported)),
        }
    }
}

/// Builds the response to a SET_INFO request that was carried out.
pub fn build_set_info_response(header: &Smb2Header, credits: u16) -> (message: Vec<u8>)
    ensures
        message@ == common::response(*header, NtStatus::Success, credits, codec::le16(2)),
{
    let mut body: Vec<u8> = Vec::new();
    codec::put_u16(&mut body, 2);
    assert(body@ =~= codec::le16(2));
    common::build_response(header, NtStatus::Success, credits, body.as_slice())
}

/// A time that basic information leaves alone stays what it is, and if it leaves
/// both alone no time is set.
pub proof fn law_times_left_alone_stay(handle: HandleState, buffer: Seq<u8>, metadata: Metadata)
    ensures
        ({
            let change = basic_change(handle, buffer);
            let access = codec::u64_at(buffer, 8);
            let modify = codec::u64_at(buffer, 16);
            &&& access == 0 || access == u64::MAX ==> time_or_current(
                change.access_time,
                metadata.atime,
            ) == metadata.atime
            &&& modify == 0 || modify == u64::MAX ==> time_or_current(
                change.modify_time,
                metadata.mtime,
            ) == metadata.mtime
            &&& basic_step(change) is Stat <==> !((access == 0 || access == u64::MAX) && (modify
                == 0 || modify == u64::MAX))
        }),
{
}

/// A file that is marked to go when it is closed is deleted when its handle is
/// closed, and stays marked across a reconnect.
pub proof fn law_disposition_deletes_on_close(handle: HandleState, buffer: Seq<u8>, r: Result<SetStep, HandlerError>)
    requires
        buffer.len() > 0,
        buffer[0] != 0,
        sets_file_info(r, handle, 13, buffer),
    ensures
        r matches Ok(SetStep::Store(h)) && h.delete_on_close && h.path == handle.path
            && h.session_id == handle.session_id,
{
}

/// A rename goes to the new name itself if that starts with a slash, and
/// otherwise to the new name below the parent of the file, or below the root if
/// it has none.
pub proof fn law_rename_target(name: Seq<char>, parent: Seq<char>)
    ensures
        name.len() > 0 && name[0] == '/' ==> target_path(name, Some(parent)) == name,
        !(name.len() > 0 && name[0] == '/') ==> parent.is_prefix_of(
            target_path(name, Some(parent)),
        ) && target_path(name, Some(parent)).skip(parent.len() as int + 1) == name,
        target_path(name, None).len() > 0 && target_path(name, None)[0] == '/',
{
    if !(name.len() > 0 && name[0] == '/') {
        let target = parent + seq!['/'] + name;
        assert(target.skip(parent.len() as int + 1) =~= name);
    }
}

/// A file that is renamed to a name without a slash in front stays in its
/// directory: the name follows a path that has the components of the file's own
/// path but the last, and that is the file's own path up to its last slash, where
/// the path is of names between single slashes.
pub proof fn law_rename_stays_in_directory(
    r: Result<SetStep, HandlerError>,
    handle: HandleState,
    buffer: Seq<u8>,
    change: RenameChange,
    parent: Option<Seq<char>>,
)
    requires
        is_rename(r, handle, buffer, change, parent),
        is_portable_path(handle.path@),
        !(new_name(buffer).len() > 0 && new_name(buffer)[0] == '/'),
    ensures
        components(handle.path@).len() > 0 && components(handle.path@) != seq![seq!['/']]
            ==> exists|p: Seq<char>|
            components(p) == components(handle.path@).drop_last() && change.target@ == #[trigger] (p
                + seq!['/']) + new_name(buffer),
        is_plain_path(handle.path@) ==> change.target@ == directory_of(handle.path@) + seq!['/']
            + new_name(buffer) && directory_of(handle.path@).is_prefix_of(handle.path@),
{
    lemma_directory_is_prefix(handle.path@);
    if components(handle.path@).len() > 0 && components(handle.path@) != seq![seq!['/']] {
        let p = parent->0;
        assert(change.target@ == (p + seq!['/']) + new_name(buffer));
    }
}

/// The part of a path of names between single slashes before its last slash has
/// all of its components but the last.
pub proof fn law_directory_drops_last_component(path: Seq<char>)
    requires
        is_plain_path(path),
    ensures
        components(directory_of(path)) == components(path).drop_last(),
        components(path).len() > 0,
        components(path) != seq![seq!['/']],
{
    let k = last_slash(path);
    lemma_last_slash(path);
    let name = path.skip(k + 1);
    let before = path.take(k);
    if k < 0 {
        lemma_pieces_of_name(path);
        assert(pieces(path) =~= seq![path]);
        assert(named_pieces(pieces(path), 0) =~= Seq::<Seq<char>>::empty());
        assert(named_pieces(pieces(path), 1) =~= seq![path]);
        assert(components(path) =~= seq![path]);
        assert(seq![path][0] == path && seq![seq!['/']][0] == seq!['/']);
        assert(path[0] != '/');
        lemma_components_of_ends();
    } else {
        assert(path =~= before + seq!['/'] + name);
        lemma_pieces_behind_slash(before, name);
        let all = pieces(path);
        let n = pieces(before).len() as int;
        lemma_pieces_of_some(before);
        assert(starts_component(path, k + 1));
        assert(name.len() > 0 && name[0] == path[k + 1]);
        if name =~= seq!['.'] {
            assert(path.len() == k + 2);
        }
        lemma_named_pieces_agree(all, pieces(before), n);
        assert(components(path) =~= (root_of(path) + named_pieces(pieces(before), n)).push(name));
        assert(components(path).last() == name);
        assert(name[0] != '/');
        assert(seq![seq!['/']].last() == seq!['/']);
        if k == 0 {
            assert(before =~= Seq::<char>::empty());
            lemma_components_of_ends();
        } else {
            assert(before[0] == path[0]);
            assert(root_of(before) == root_of(path));
        }
        assert(components(path).drop_last() =~= root_of(path) + named_pieces(pieces(before), n));
    }
}

/// Where the last slash of a path stands, or one before its start.
spec fn last_slash(path: Seq<char>) -> int
    decreases path.len(),
{
    if path.len() == 0 {
        -1
    } else if path.last() == '/' {
        path.len() - 1
    } else {
        last_slash(path.drop_last())
    }
}

proof fn lemma_last_slash(path: Seq<char>)
    ensures
        ({
            let k = last_slash(path);
            &&& -1 <= k < path.len()
            &&& k >= 0 ==> path[k] == '/'
            &&& forall|i: int| k < i < path.len() ==> #[trigger] path[i] != '/'
            &&& k < 0 ==> directory_of(path) == Seq::<char>::empty()
            &&& k == 0 ==> directory_of(path) == seq!['/']
            &&& k > 0 ==> directory_of(path) == path.take(k)
        }),
    decreases path.len(),
{
    if path.len() > 0 {
        let shorter = path.drop_last();
        lemma_last_slash(shorter);
        assert(seq!['/'].last() == '/');
        if path.last() == '/' {
            assert(path.take(path.len() - 1) =~= shorter);
            if path.len() == 1 {
                assert(path =~= seq!['/']);
            }
        } else {
            let k = last_slash(shorter);
            assert forall|i: int| k < i < path.len() implies #[trigger] path[i] != '/' by {
                if i < shorter.len() {
                    assert(shorter[i] == path[i]);
                }
            }
            if k >= 0 {
                assert(shorter[k] == path[k]);
            }
            if k > 0 {
                assert(shorter.take(k) =~= path.take(k));
            }
        }
    } else {
        assert(path =~= Seq::<char>::empty());
    }
}

proof fn lemma_pieces_of_some(path: Seq<char>)
    ensures
        pieces(path).len() > 0,
    decreases path.len(),
{
    if path.len() > 0 {
        lemma_pieces_of_some(path.drop_last());
    }
}

proof fn lemma_pieces_of_name(name: Seq<char>)
    requires
        forall|i: int| 0 <= i < name.len() ==> #[trigger] name[i] != '/',
    ensures
        pieces(name) == seq![name],
    decreases name.len(),
{
    if name.len() > 0 {
        let shorter = name.drop_last();
        assert forall|i: int| 0 <= i < shorter.len() implies #[trigger] shorter[i] != '/' by {
            assert(shorter[i] == name[i]);
        }
        lemma_pieces_of_name(shorter);
        assert(name.last() != '/');
        assert(shorter.push(name.last()) =~= name);
        assert(pieces(name) =~= seq![name]);
    } else {
        assert(name =~= Seq::<char>::empty());
    }
}

proof fn lemma_pieces_behind_slash(before: Seq<char>, name: Seq<char>)
    requires
        forall|i: int| 0 <= i < name.len() ==> #[trigger] name[i] != '/',
    ensures
        pieces(before + seq!['/'] + name) == pieces(before).push(name),
    decreases name.len(),
{
    let path = before + seq!['/'] + name;
    if name.len() == 0 {
        assert(path.drop_last() =~= before);
        assert(path.last() == '/');
        assert(name =~= Seq::<char>::empty());
    } else {
        let shorter = name.drop_last();
        assert forall|i: int| 0 <= i < shorter.len() implies #[trigger] shorter[i] != '/' by {
            assert(shorter[i] == name[i]);
        }
        lemma_pieces_behind_slash(before, shorter);
        assert(path.drop_last() =~= before + seq!['/'] + shorter);
        assert(path.last() == name.last() && name.last() != '/');
        assert(shorter.push(name.last()) =~= name);
        let all = pieces(before).push(shorter);
        assert(all.drop_last() =~= pieces(before));
    }
}

proof fn lemma_named_pieces_agree(a: Seq<Seq<char>>, b: Seq<Seq<char>>, n: int)
    requires
        0 <= n <= a.len(),
        n <= b.len(),
        forall|i: int| 0 <= i < n ==> a[i] == b[i],
    ensures
        named_pieces(a, n) == named_pieces(b, n),
    decreases n,
{
    if n > 0 {
        lemma_named_pieces_agree(a, b, n - 1);
    }
}

proof fn lemma_components_of_ends()
    ensures
        components(Seq::empty()) == Seq::<Seq<char>>::empty(),
        named_pieces(pieces(Seq::empty()), 1) == Seq::<Seq<char>>::empty(),
        components(seq!['/']) == seq![seq!['/']],
{
    let nothing = Seq::<char>::empty();
    assert(pieces(nothing) =~= seq![nothing]);
    assert(named_pieces(pieces(nothing), 0) =~= Seq::<Seq<char>>::empty());
    assert(pieces(nothing)[0] == nothing);
    assert(named_pieces(pieces(nothing), 1) =~= Seq::<Seq<char>>::empty());
    assert(components(nothing) =~= Seq::<Seq<char>>::empty());
    let root = seq!['/'];
    assert(root.drop_last() =~= nothing);
    assert(pieces(root) =~= seq![nothing, nothing]);
    assert(named_pieces(pieces(root), 0) =~= Seq::<Seq<char>>::empty());
    assert(named_pieces(pieces(root), 1) =~= Seq::<Seq<char>>::empty());
    assert(named_pieces(pieces(root), 2) =~= Seq::<Seq<char>>::empty());
    assert(components(root) =~= seq![root]);
}

proof fn lemma_directory_is_prefix(path: Seq<char>)
    ensures
        directory_of(path).is_prefix_of(path),
    decreases path.len(),
{
    if path.len() > 0 && path != seq!['/'] && path.last() != '/' {
        lemma_directory_is_prefix(path.drop_last());
    }
}

/// A SET_INFO request that names a file by the sixteen bytes at 64 of the body
/// of the CREATE response, at 16 of its own, works on the handle that the
/// response is about.
pub proof fn law_set_info_leads_to_handle(
    reply: CreateReply,
    contexts: Seq<u8>,
    body: Seq<u8>,
    looked_up: u128,
)
    requires
        body.len() >= 32,
        body.subrange(16, 32) == create_response::create_body(reply, contexts).subrange(64, 80),
    ensures
        common::spec_handle_id(
            SetInfoRequest::of(body).file_id_persistent,
            SetInfoRequest::of(body).file_id_volatile,
        ) == reply.handle_id,
        common::is_file_id_at(body, 16, looked_up) ==> looked_up == reply.handle_id,
{
    let given = create_response::create_body(reply, contexts);
    create_response::law_create_response_holds_file_id(reply, contexts);
    common::law_file_id_names_handle(body, 16, reply.handle_id);
    if common::is_file_id_at(body, 16, looked_up) {
        common::law_same_file_id_same_handle(given, 64, reply.handle_id, body, 16, looked_up);
    }
}

/// What a SET_INFO request sets: byte 2 of its body says whether that belongs to
/// the file (1), the volume (2), its security (3) or quotas (4), byte 3 which
/// class of information it is. The information is what stands in the message
/// from the offset in the two bytes at 8 on, as long as the four at 4 say.
pub proof fn law_what_set_info_sets(head: Seq<u8>, body: Seq<u8>)
    requires
        head.len() == 64,
        SetInfoRequest::readable(body),
        64 < codec::u16_at(body, 8),
    ensures
        ({
            let request = SetInfoRequest::of(body);
            let start = codec::u16_at(body, 8) as int;
            let length = codec::u32_at(body, 4) as int;
            &&& request.info_type == InfoType::File <==> body[2] == 1
            &&& request.info_type == InfoType::FileSystem <==> body[2] == 2
            &&& request.info_type == InfoType::Security <==> body[2] == 3
            &&& request.info_type == InfoType::Quota <==> body[2] == 4
            &&& request.file_info_class == body[3]
            &&& request.has_buffer(body) <==> start + length <= 64 + body.len()
            &&& request.has_buffer(body) ==> request.buffer(body) == (head + body).subrange(
                start,
                start + length,
            )
        }),
{
    let request = SetInfoRequest::of(body);
    if request.has_buffer(body) {
        assert(request.buffer(body) =~= (head + body).subrange(
            codec::u16_at(body, 8) as int,
            codec::u16_at(body, 8) + codec::u32_at(body, 4),
        ));
    }
}

/// The number of each class of file information that can be set.
pub proof fn law_set_classes(n: u8)
    ensures
        SetFileInfoClass::spec_from_u8(n) == Some(SetFileInfoClass::Basic) <==> n == 4,
        SetFileInfoClass::spec_from_u8(n) == Some(SetFileInfoClass::Rename) <==> n == 10,
        SetFileInfoClass::spec_from_u8(n) == Some(SetFileInfoClass::Disposition) <==> n == 13,
        SetFileInfoClass::spec_from_u8(n) == Some(SetFileInfoClass::Position) <==> n == 14,
        SetFileInfoClass::spec_from_u8(n) == Some(SetFileInfoClass::Mode) <==> n == 16,
        SetFileInfoClass::spec_from_u8(n) == Some(SetFileInfoClass::Allocation) <==> n == 19,
        SetFileInfoClass::spec_from_u8(n) == Some(SetFileInfoClass::EndOfFile) <==> n == 20,
{
}

/// A size that a client sets (class 19 or 20) is the one that the file gets: the
/// eight bytes that the information starts with.
pub proof fn law_size_is_set(
    r: Result<SetStep, HandlerError>,
    handle: HandleState,
    class: u8,
    size: u64,
    rest: Seq<u8>,
)
    requires
        class == 19 || class == 20,
        sets_file_info(r, handle, class, codec::le64(size) + rest),
    ensures
        r == Ok::<SetStep, HandlerError>(SetStep::Truncate { file: handle.path, size }),
{
    let buffer = codec::le64(size) + rest;
    assert(buffer.subrange(0, 8) =~= codec::le64(size));
    codec::lemma_read_le64(buffer, 0, size);
}

/// A position that a client sets (class 14) is the one that it is told when it
/// asks for it, whatever else the handle is.
pub proof fn law_position_is_kept(
    r: Result<SetStep, HandlerError>,
    handle: HandleState,
    position: u64,
    rest: Seq<u8>,
    metadata: Metadata,
    access_mask: Option<u32>,
    wanted: Option<u64>,
    now: u64,
)
    requires
        sets_file_info(r, handle, 14, codec::le64(position) + rest),
    ensures
        r matches Ok(SetStep::Store(h)) && h == (HandleState { file_offset: position, ..handle })
            && codec::u64_at(
            info_builders::file_info(
                metadata,
                14,
                Some(h.file_offset),
                access_mask,
                wanted,
                now,
            ),
            0,
        ) == position,
{
    let buffer = codec::le64(position) + rest;
    assert(buffer.subrange(0, 8) =~= codec::le64(position));
    codec::lemma_read_le64(buffer, 0, position);
    codec::law_numbers_round_trip(0, 0, position, 0);
}

/// The times that basic information sets: that of the last access stands at 8,
/// that of the last change at 16, in units of a tenth of a microsecond since the
/// start of 1601, and the file gets them to the second. Attributes at 32 make it
/// read-only if bit 0 is set, and writable if others are.
pub proof fn law_basic_information_is_set(
    handle: HandleState,
    buffer: Seq<u8>,
    access_secs: u64,
    modify_secs: u64,
    access_rest: u64,
    modify_rest: u64,
)
    requires
        buffer.len() >= 40,
        access_rest < 10_000_000,
        modify_rest < 10_000_000,
        codec::u64_at(buffer, 8) == 116_444_736_000_000_000 + 10_000_000 * access_secs
            + access_rest,
        codec::u64_at(buffer, 16) == 116_444_736_000_000_000 + 10_000_000 * modify_secs
            + modify_rest,
        codec::u64_at(buffer, 8) < u64::MAX,
        codec::u64_at(buffer, 16) < u64::MAX,
    ensures
        ({
            let change = basic_change(handle, buffer);
            let attributes = codec::u32_at(buffer, 32);
            &&& change.path == handle.path
            &&& change.access_time == Some(UnixTime { secs: access_secs as i64, nanos: 0 })
            &&& change.modify_time == Some(UnixTime { secs: modify_secs as i64, nanos: 0 })
            &&& change.readonly == if attributes == 0 {
                None
            } else {
                Some(attributes & 1 != 0)
            }
        }),
{
}

/// A rename goes to the name that the client writes, as UTF-16, at 20 of the
/// rename information, with slashes in place of backslashes; how many bytes it
/// takes stands at 16. A file at the target is replaced without being looked for
/// if the first byte is not zero.
pub proof fn law_new_name_is_read(buffer: Seq<u8>, name: Seq<char>)
    requires
        buffer.len() >= 20,
        !strings::utf16_encode(name).contains(0),
        codec::u32_at(buffer, 16) == 2 * strings::utf16_encode(name).len(),
        20 + 2 * strings::utf16_encode(name).len() <= buffer.len(),
        buffer.subrange(20, 20 + 2 * strings::utf16_encode(name).len() as int)
            == strings::utf16_bytes(strings::utf16_encode(name)),
    ensures
        has_name(buffer),
        new_name(buffer).len() == name.len(),
        forall|i: int|
            0 <= i < name.len() ==> #[trigger] new_name(buffer)[i] == if name[i] == '\\' {
                '/'
            } else {
                name[i]
            },
{
    let units = strings::utf16_encode(name);
    strings::law_utf16_bytes_round_trip(units);
    strings::law_text_ends_at_null(units, Seq::empty());
    strings::law_utf16_round_trip(name);
    reveal_strlit("/");
    strings::law_replaced_char_by_char(name, '\\', "/"@);
}

/// What a rename does first: the handle and the file are those of the request,
/// and a file at the target is looked for unless it may be replaced, which the
/// first byte of the information says.
pub proof fn law_rename_looks_first(
    r: Result<SetStep, HandlerError>,
    handle: HandleState,
    buffer: Seq<u8>,
    change: RenameChange,
    parent: Option<Seq<char>>,
)
    requires
        is_rename(r, handle, buffer, change, parent),
    ensures
        buffer[0] != 0 ==> r == Ok::<SetStep, HandlerError>(SetStep::Rename(change)),
        buffer[0] == 0 ==> r == Ok::<SetStep, HandlerError>(SetStep::Exists(change)),
        change.handle == handle,
{
}

/// A time that is to be set takes the place of the one that the file has.
pub proof fn law_set_time_replaces(set: UnixTime, current: UnixTime)
    ensures
        time_or_current(Some(set), current) == set,
        time_or_current(None, current) == current,
{
}

/// Each of the two times that can be set takes the place of its own: a time of
/// access that is not to be set stays the time of access, and one of change the
/// time of change.
pub proof fn law_times_keep_their_places(change: BasicChange, metadata: Metadata)
    ensures
        change.access_time is None ==> change.times_change(metadata).access_time == metadata.atime,
        change.modify_time is None ==> change.times_change(metadata).modify_time == metadata.mtime,
        change.access_time matches Some(t) ==> change.times_change(metadata).access_time == t,
        change.modify_time matches Some(t) ==> change.times_change(metadata).modify_time == t,
        change.times_change(metadata).readonly == change.readonly,
        change.times_change(metadata).path == change.path,
{
}

} // verus!
