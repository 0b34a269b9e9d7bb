//! TREE_CONNECT and TREE_DISCONNECT: a session is connected to a share.

use vstd::prelude::*;

use crate::codec;
use crate::error;
use crate::error::HandlerError;
use crate::handler::common;
use crate::helpers::info_builders::FULL_ACCESS;
use crate::helpers::strings;
use crate::helpers::time::current_unix_time;
use crate::protocol::header;
use crate::protocol::header::Smb2Header;
use crate::protocol::status::NtStatus;
use crate::state::TreeState;

verus! {

/// Properties of a share.
pub struct ShareFlags;

impl ShareFlags {
    pub const MANUAL_CACHING: u32 = 0x00;
    pub const DFS: u32 = 0x01;
    pub const DFS_ROOT: u32 = 0x02;
    pub const AUTO_CACHING: u32 = 0x10;
    pub const VDO_CACHING: u32 = 0x20;
    pub const NO_CACHING: u32 = 0x30;
}

/// What a share can do.
pub struct ShareCapabilities;

impl ShareCapabilities {
    pub const DFS: u32 = 0x08;
    pub const CONTINUOUS_AVAILABILITY: u32 = 0x10;
    pub const SCALEOUT: u32 = 0x20;
    pub const CLUSTER: u32 = 0x40;
}

/// The share type of a disk.
pub const SHARE_TYPE_DISK: u8 = 0x01;

/// The rights to read and execute files.
pub const READ_ONLY_ACCESS: u32 = 0x0012_00A9;

/// The path that a request names.
pub open spec fn requested_path(body: Seq<u8>) -> Seq<char> {
    strings::utf16_decode(
        strings::utf16_units(
            common::message_part(
                body,
                codec::u16_at(body, 4) as int,
                codec::u16_at(body, 6) as int,
            ),
        ),
    )
}

/// A TREE_CONNECT request that waits for its share.
#[derive(Debug)]
pub struct TreeAwaitShare {
    pub header: Smb2Header,
    /// The share to look up.
    pub share_name: String,
}

/// Starts to handle a TREE_CONNECT request.
pub fn handle_tree_connect(header: &Smb2Header, body: &[u8]) -> (r: Result<
    TreeAwaitShare,
    HandlerError,
>)
    ensures
        body@.len() < 8 ==> error::malformed(r, "Failed to parse tree_connect"@),
        body@.len() >= 8 ==> (r matches Ok(a) && a.header == *header && a.share_name@
            == strings::share_name_of(requested_path(body@))),
{
    if body.len() < 8 {
        return Err(error::protocol_error("Failed to parse tree_connect"));
    }
    let path_bytes = common::copy_message_part(
        body,
        codec::get_u16(body, 4) as u32,
        codec::get_u16(body, 6) as u32,
    );
    let path = strings::decode_utf16le(path_bytes.as_slice());
    let share_name = strings::extract_share_name(path.as_str());
    Ok(TreeAwaitShare { header: *header, share_name })
}

/// What the server knows of a share.
#[derive(Debug)]
pub struct ShareInfo {
    pub path: String,
    pub read_only: bool,
}

/// The rights that a share gives.
pub open spec fn share_access(read_only: bool) -> u32 {
    if read_only {
        READ_ONLY_ACCESS
    } else {
        FULL_ACCESS
    }
}

/// A TREE_CONNECT request that waits for a tree id.
#[derive(Debug)]
pub struct TreeAwaitId {
    pub header: Smb2Header,
    pub share_name: String,
    pub share_path: String,
    pub maximal_access: u32,
}

impl TreeAwaitShare {
    /// Takes the share, if there is one of that name.
    pub fn on_share(self, share: Option<ShareInfo>) -> (r: Result<TreeAwaitId, HandlerError>)
        ensures
            match share {
                None => error::refused(r, NtStatus::BadNetworkName),
                Some(info) => r == Ok::<TreeAwaitId, HandlerError>(
                    TreeAwaitId {
                        header: self.header,
                        share_name: self.share_name,
                        share_path: info.path,
                        maximal_access: share_access(info.read_only),
                    },
                ),
            },
    {
        match share {
            None => Err(HandlerError::Status(NtStatus::BadNetworkName)),
            Some(info) => {
                let maximal_access: u32 = if info.read_only {
                    READ_ONLY_ACCESS
                } else {
                    FULL_ACCESS
                };
                Ok(
                    TreeAwaitId {
                        header: self.header,
                        share_name: self.share_name,
                        share_path: info.path,
                        maximal_access,
                    },
                )
            },
        }
    }
}

/// A TREE_CONNECT request whose tree is to be stored.
#[derive(Debug)]
pub struct TreeStore {
    pub header: Smb2Header,
    pub tree_id: u32,
    pub maximal_access: u32,
    /// The tree to store.
    pub tree: TreeState,
}

impl TreeAwaitId {
    /// What comes of asking for a new tree id.
    pub open spec fn tree_to_store(self, reply: Result<u32, String>, now: u64) -> Result<
        TreeStore,
        HandlerError,
    > {
        match reply {
            Err(text) => Err(HandlerError::Internal(text)),
            Ok(tree_id) => Ok(
                TreeStore {
                    header: self.header,
                    tree_id,
                    maximal_access: self.maximal_access,
                    tree: TreeState {
                        tree_id,
                        session_id: self.header.session_id,
                        share_name: self.share_name,
                        share_path: self.share_path,
                        access_flags: self.maximal_access,
                        is_dfs: false,
                        created_at: now,
                    },
                },
            ),
        }
    }

    /// Takes a new tree id.
    pub fn on_tree_id(self, reply: Result<u32, String>) -> (r: Result<TreeStore, HandlerError>)
        ensures
            exists|now: u64| r == #[trigger] self.tree_to_store(reply, now),
    {
        self.on_tree_id_at(reply, current_unix_time())
    }

    /// Takes a new tree id, at a time in seconds.
    pub fn on_tree_id_at(self, reply: Result<u32, String>, now: u64) -> (r: Result<
        TreeStore,
        HandlerError,
    >)
        ensures
            r == self.tree_to_store(reply, now),
    {
        match reply {
            Err(text) => Err(HandlerError::Internal(text)),
            Ok(tree_id) => Ok(
                TreeStore {
                    header: self.header,
                    tree_id,
                    maximal_access: self.maximal_access,
                    tree: TreeState {
                        tree_id,
                        session_id: self.header.session_id,
                        share_name: self.share_name,
                        share_path: self.share_path,
                        access_flags: self.maximal_access,
                        is_dfs: false,
                        created_at: now,
                    },
                },
            ),
        }
    }
}

/// The body of a TREE_CONNECT response.
pub open spec fn tree_connect_body(maximal_access: u32) -> Seq<u8> {
    codec::le16(16) + seq![SHARE_TYPE_DISK, 0u8] + codec::le32(ShareFlags::MANUAL_CACHING)
        + codec::le32(0) + codec::le32(maximal_access)
}

/// The header of a TREE_CONNECT response: it names the new tree.
pub open spec fn tree_connect_header(request: Smb2Header, credits: u16, tree_id: u32) -> Smb2Header {
    Smb2Header { tree_id, ..header::response_header(request, NtStatus::Success, credits) }
}

impl TreeStore {
    /// Takes the outcome of storing the tree, and builds the response.
    pub fn on_stored(&self, reply: Result<(), String>, credits: u16) -> (r: Result<
        Vec<u8>,
        HandlerError,
    >)
        ensures
            match reply {
                Err(text) => r == Err::<Vec<u8>, HandlerError>(HandlerError::Internal(text)),
                Ok(_) => r matches Ok(m) && m@ == tree_connect_header(
                    self.header,
                    credits,
                    self.tree_id,
                ).bytes() + tree_connect_body(self.maximal_access),
            },
    {
        match reply {
            Err(text) => Err(HandlerError::Internal(text)),
            Ok(()) => {
                let mut resp_header = header::build_response_header(
                    &self.header,
                    NtStatus::Success,
                    credits,
                );
                resp_header.tree_id = self.tree_id;
                let mut body: Vec<u8> = Vec::new();
                codec::put_u16(&mut body, 16);
                body.push(SHARE_TYPE_DISK);
                body.push(0);
                codec::put_u32(&mut body, ShareFlags::MANUAL_CACHING);
                codec::put_u32(&mut body, 0);
                codec::put_u32(&mut body, self.maximal_access);
                assert(body@ =~= tree_connect_body(self.maximal_access));
                Ok(common::serialize_response(&resp_header, body.as_slice()))
            },
        }
    }
}

/// Handles a TREE_DISCONNECT request, given its tree as far as the state store
/// found it. The tree is to be deleted then.
pub fn handle_tree_disconnect(
    header: &Smb2Header,
    reply: Result<Option<TreeState>, String>,
    credits: u16,
) -> (r: Result<Vec<u8>, HandlerError>)
    ensures
        match reply {
            Err(text) => r == Err::<Vec<u8>, HandlerError>(HandlerError::Internal(text)),
            Ok(None) => error::refused(r, NtStatus::NetworkNameDeleted),
            Ok(Some(_)) => r matches Ok(m) && m@ == common::response(
                *header,
                NtStatus::Success,
                credits,
                common::empty_body(),
            ),
        },
{
    match reply {
        Err(text) => Err(HandlerError::Internal(text)),
        Ok(None) => Err(HandlerError::Status(NtStatus::NetworkNameDeleted)),
        Ok(Some(_)) => Ok(common::build_empty_response(header, credits)),
    }
}

/// The rights that a read-only share gives are among those that a writable one
/// gives, and none of them lets a file be written or deleted.
pub proof fn law_read_only_share()
    ensures
        share_access(true) & share_access(false) == share_access(true),
        share_access(true) & crate::handler::create::FILE_WRITE_DATA == 0,
        share_access(true) & crate::handler::create::DELETE == 0,
{
    assert(0x0012_00A9u32 & 0x1F01FFu32 == 0x0012_00A9u32) by (bit_vector);
    assert(0x0012_00A9u32 & 2u32 == 0 && 0x0012_00A9u32 & 0x0001_0000u32 == 0) by (bit_vector);
}

/// The client learns its tree id from the response, for its own session.
pub proof fn law_tree_connect_names_tree(
    request: Smb2Header,
    credits: u16,
    tree_id: u32,
    body: Seq<u8>,
    read: Smb2Header,
)
    requires
        read.is_header_of(tree_connect_header(request, credits, tree_id).bytes() + body),
    ensures
        read.tree_id == tree_id,
        read.session_id == request.session_id,
        read.message_id == request.message_id,
{
    header::law_header_round_trip(tree_connect_header(request, credits, tree_id), body, read);
}

/// The path that a client writes into a request, as UTF-16 at the place that
/// the two bytes at 4 of its body say and as long as the two at 6 say, names
/// the share that it is connected to: what stands behind the server.
pub proof fn law_requested_share(
    head: Seq<u8>,
    body: Seq<u8>,
    server: Seq<char>,
    share: Seq<char>,
)
    requires
        head.len() == 64,
        body.len() >= 8,
        server.len() > 0,
        !server.contains('\\'),
        !share.contains('\\'),
        ({
            let path = seq!['\\', '\\'] + server + seq!['\\'] + share;
            let bytes = strings::utf16_bytes(strings::utf16_encode(path));
            let offset = codec::u16_at(body, 4) as int;
            &&& 64 <= offset
            &&& codec::u16_at(body, 6) == bytes.len()
            &&& offset + bytes.len() <= 64 + body.len()
            &&& (head + body).subrange(offset, offset + bytes.len() as int) == bytes
        }),
    ensures
        strings::share_name_of(requested_path(body)) == share,
{
    let path = seq!['\\', '\\'] + server + seq!['\\'] + share;
    let units = strings::utf16_encode(path);
    let bytes = strings::utf16_bytes(units);
    common::law_message_part_is_in_message(
        head,
        body,
        codec::u16_at(body, 4) as int,
        bytes.len() as int,
    );
    strings::law_utf16_bytes_round_trip(units);
    strings::law_utf16_round_trip(path);
    strings::law_share_of_unc_path(server, share, Seq::empty());
}

/// A client learns from a TREE_CONNECT response its tree id (36 of the
/// message), that the share is a disk (66), and what it may do there (76): to
/// read and execute on a read-only share, everything on another one.
pub proof fn law_tree_connect_response(
    request: Smb2Header,
    credits: u16,
    tree_id: u32,
    read_only: bool,
)
    ensures
        ({
            let m = tree_connect_header(request, credits, tree_id).bytes() + tree_connect_body(
                share_access(read_only),
            );
            &&& m.len() == 80
            &&& codec::u32_at(m, 36) == tree_id
            &&& codec::u64_at(m, 40) == request.session_id
            &&& codec::u32_at(m, 8) == 0
            &&& codec::u16_at(m, 64) == 16
            &&& m[66] == 1
            &&& codec::u32_at(m, 68) == 0
            &&& codec::u32_at(m, 76) == if read_only {
                0x0012_00A9u32
            } else {
                0x001F_01FFu32
            }
        }),
{
    let h = tree_connect_header(request, credits, tree_id);
    let access = share_access(read_only);
    let body = tree_connect_body(access);
    header::law_header_layout(h, body);
    assert(body.subrange(0, 2) =~= codec::le16(16));
    codec::lemma_read_le16(body, 0, 16);
    assert(body.subrange(4, 8) =~= codec::le32(0));
    codec::lemma_read_le32(body, 4, 0);
    assert(body.subrange(12, 16) =~= codec::le32(access));
    codec::lemma_read_le32(body, 12, access);
    codec::lemma_behind(h.bytes(), body, 0);
    codec::lemma_behind(h.bytes(), body, 4);
    codec::lemma_behind(h.bytes(), body, 12);
}

/// The tree that is stored belongs to the session of the request, has the id
/// that the client is told, and is the share that the request names, with the
/// rights that the share gives.
pub proof fn law_stored_tree(wait: TreeAwaitId, tree_id: u32, now: u64)
    ensures
        wait.tree_to_store(Ok(tree_id), now) matches Ok(store) && store.tree_id == tree_id
            && store.tree.tree_id == tree_id && store.tree.session_id == wait.header.session_id
            && store.tree.share_name == wait.share_name && store.tree.share_path == wait.share_path
            && store.tree.access_flags == wait.maximal_access && store.maximal_access
            == wait.maximal_access && store.tree.created_at == now && store.header == wait.header,
{
}

} // verus!
