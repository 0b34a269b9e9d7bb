//! The 64-byte header of every SMB2 message.

use vstd::prelude::*;

use crate::codec;
use crate::protocol::status::NtStatus;

verus! {

/// Length of the header.
pub const SMB2_HEADER_SIZE: usize = 64;

/// Offset of the flags in the header.
pub const FLAGS_OFFSET: usize = 16;

/// Offset of the distance to the next command of a compound message.
pub const NEXT_COMMAND_OFFSET: usize = 20;

/// Offset of the session id in the header.
pub const SESSION_ID_OFFSET: usize = 40;

/// Offset of the signature in the header.
pub const SIGNATURE_OFFSET: usize = 48;

/// The four bytes that every message starts with.
pub open spec fn magic() -> Seq<u8> {
    seq![0xFEu8, 0x53u8, 0x4Du8, 0x42u8]
}

/// The commands of the protocol.
#[derive(Clone, Copy, Debug, PartialEq, Eq, Structural)]
pub enum Smb2Command {
    Negotiate,
    SessionSetup,
    Logoff,
    TreeConnect,
    TreeDisconnect,
    Create,
    Close,
    Flush,
    Read,
    Write,
    Lock,
    Ioctl,
    Cancel,
    Echo,
    QueryDirectory,
    ChangeNotify,
    QueryInfo,
    SetInfo,
    OplockBreak,
}

impl Smb2Command {
    /// The number that stands for the command on the wire.
    pub open spec fn spec_code(self) -> u16 {
        match self {
            Smb2Command::Negotiate => 0,
            Smb2Command::SessionSetup => 1,
            Smb2Command::Logoff => 2,
            Smb2Command::TreeConnect => 3,
            Smb2Command::TreeDisconnect => 4,
            Smb2Command::Create => 5,
            Smb2Command::Close => 6,
            Smb2Command::Flush => 7,
            Smb2Command::Read => 8,
            Smb2Command::Write => 9,
            Smb2Command::Lock => 10,
            Smb2Command::Ioctl => 11,
            Smb2Command::Cancel => 12,
            Smb2Command::Echo => 13,
            Smb2Command::QueryDirectory => 14,
            Smb2Command::ChangeNotify => 15,
            Smb2Command::QueryInfo => 16,
            Smb2Command::SetInfo => 17,
            Smb2Command::OplockBreak => 18,
        }
    }

    pub fn code(&self) -> (c: u16)
        ensures
            c == self.spec_code(),
    {
        match self {
            Smb2Command::Negotiate => 0,
            Smb2Command::SessionSetup => 1,
            Smb2Command::Logoff => 2,
            Smb2Command::TreeConnect => 3,
            Smb2Command::TreeDisconnect => 4,
            Smb2Command::Create => 5,
            Smb2Command::Close => 6,
            Smb2Command::Flush => 7,
            Smb2Command::Read => 8,
            Smb2Command::Write => 9,
            Smb2Command::Lock => 10,
            Smb2Command::Ioctl => 11,
            Smb2Command::Cancel => 12,
            Smb2Command::Echo => 13,
            Smb2Command::QueryDirectory => 14,
            Smb2Command::ChangeNotify => 15,
            Smb2Command::QueryInfo => 16,
            Smb2Command::SetInfo => 17,
            Smb2Command::OplockBreak => 18,
        }
    }

    /// The command with the given code, if there is one.
    pub fn from_code(code: u16) -> (c: Option<Smb2Command>)
        ensures
            match c {
                Some(command) => command.spec_code() == code,
                None => code > 18,
            },
    {
        let command = match code {
            0 => Smb2Command::Negotiate,
            1 => Smb2Command::SessionSetup,
            2 => Smb2Command::Logoff,
            3 => Smb2Command::TreeConnect,
            4 => Smb2Command::TreeDisconnect,
            5 => Smb2Command::Create,
            6 => Smb2Command::Close,
            7 => Smb2Command::Flush,
            8 => Smb2Command::Read,
            9 => Smb2Command::Write,
            10 => Smb2Command::Lock,
            11 => Smb2Command::Ioctl,
            12 => Smb2Command::Cancel,
            13 => Smb2Command::Echo,
            14 => Smb2Command::QueryDirectory,
            15 => Smb2Command::ChangeNotify,
            16 => Smb2Command::QueryInfo,
            17 => Smb2Command::SetInfo,
            18 => Smb2Command::OplockBreak,
            _ => {
                return None;
            },
        };
        Some(command)
    }
}

/// The flag bits of a header.
#[derive(Clone, Copy, Debug, PartialEq, Eq, Structural)]
pub struct Smb2Flags(pub u32);

impl Smb2Flags {
    /// The message goes from the server to the client.
    pub const SERVER_TO_REDIR: u32 = 0x0000_0001;
    /// The message belongs to an asynchronous operation.
    pub const ASYNC_COMMAND: u32 = 0x0000_0002;
    /// The command works on what the command before it worked on.
    pub const RELATED_OPERATIONS: u32 = 0x0000_0004;
    /// The message is signed.
    pub const SIGNED: u32 = 0x0000_0008;

    pub open spec fn spec_is_signed(self) -> bool {
        self.0 & Self::SIGNED != 0
    }

    pub fn is_signed(&self) -> (b: bool)
        ensures
            b == self.spec_is_signed(),
    {
        self.0 & Self::SIGNED != 0
    }

    pub open spec fn spec_is_related(self) -> bool {
        self.0 & Self::RELATED_OPERATIONS != 0
    }

    pub fn is_related(&self) -> (b: bool)
        ensures
            b == self.spec_is_related(),
    {
        self.0 & Self::RELATED_OPERATIONS != 0
    }
}

/// A message header.
#[derive(Clone, Copy, Debug)]
pub struct Smb2Header {
    pub structure_size: u16,
    pub credit_charge: u16,
    pub status: u32,
    pub command: Smb2Command,
    pub credits: u16,
    pub flags: Smb2Flags,
    pub next_command: u32,
    pub message_id: u64,
    pub async_id: u32,
    pub tree_id: u32,
    pub session_id: u64,
    pub signature: [u8; 16],
}

impl Smb2Header {
    /// The 64 bytes of the header.
    #[verifier::opaque]
    pub open spec fn bytes(self) -> Seq<u8> {
        magic() + codec::le16(self.structure_size) + codec::le16(self.credit_charge) + codec::le32(
            self.status,
        ) + codec::le16(self.command.spec_code()) + codec::le16(self.credits) + codec::le32(
            self.flags.0,
        ) + codec::le32(self.next_command) + codec::le64(self.message_id) + codec::le32(
            self.async_id,
        ) + codec::le32(self.tree_id) + codec::le64(self.session_id) + self.signature@
    }

    /// Whether a message starts with a header that can be read: it is long
    /// enough, starts with the magic bytes and names a command.
    pub open spec fn readable(message: Seq<u8>) -> bool {
        &&& message.len() >= 64
        &&& message.subrange(0, 4) == magic()
        &&& codec::u16_at(message, 12) <= 18
    }

    /// Whether the fields are those that stand at the start of a message.
    pub open spec fn is_header_of(self, message: Seq<u8>) -> bool {
        &&& self.structure_size == codec::u16_at(message, 4)
        &&& self.credit_charge == codec::u16_at(message, 6)
        &&& self.status == codec::u32_at(message, 8)
        &&& self.command.spec_code() == codec::u16_at(message, 12)
        &&& self.credits == codec::u16_at(message, 14)
        &&& self.flags.0 == codec::u32_at(message, 16)
        &&& self.next_command == codec::u32_at(message, 20)
        &&& self.message_id == codec::u64_at(message, 24)
        &&& self.async_id == codec::u32_at(message, 32)
        &&& self.tree_id == codec::u32_at(message, 36)
        &&& self.session_id == codec::u64_at(message, 40)
        &&& self.signature@ == message.subrange(48, 64)
    }

    /// Reads the header at the start of a message.
    pub fn parse(message: &[u8]) -> (header: Option<Smb2Header>)
        ensures
            match header {
                Some(h) => Self::readable(message@) && h.is_header_of(message@),
                None => !Self::readable(message@),
            },
    {
        if message.len() < SMB2_HEADER_SIZE {
            return None;
        }
        if !has_magic(message) {
            return None;
        }
        match Smb2Command::from_code(codec::get_u16(message, 12)) {
            None => None,
            Some(command) => Some(
                Smb2Header {
                    structure_size: codec::get_u16(message, 4),
                    credit_charge: codec::get_u16(message, 6),
                    status: codec::get_u32(message, 8),
                    command,
                    credits: codec::get_u16(message, 14),
                    flags: Smb2Flags(codec::get_u32(message, 16)),
                    next_command: codec::get_u32(message, 20),
                    message_id: codec::get_u64(message, 24),
                    async_id: codec::get_u32(message, 32),
                    tree_id: codec::get_u32(message, 36),
                    session_id: codec::get_u64(message, 40),
                    signature: codec::get_array16(message, 48),
                },
            ),
        }
    }

    /// Appends the bytes of the header to a buffer.
    pub fn write(&self, buf: &mut Vec<u8>)
        ensures
            final(buf)@ == old(buf)@ + self.bytes(),
    {
        reveal(Smb2Header::bytes);
        buf.push(0xFE);
        buf.push(0x53);
        buf.push(0x4D);
        buf.push(0x42);
        assert(buf@ =~= old(buf)@ + magic());
        codec::put_u16(buf, self.structure_size);
        codec::put_u16(buf, self.credit_charge);
        codec::put_u32(buf, self.status);
        codec::put_u16(buf, self.command.code());
        codec::put_u16(buf, self.credits);
        codec::put_u32(buf, self.flags.0);
        codec::put_u32(buf, self.next_command);
        codec::put_u64(buf, self.message_id);
        codec::put_u32(buf, self.async_id);
        codec::put_u32(buf, self.tree_id);
        codec::put_u64(buf, self.session_id);
        codec::put_bytes(buf, self.signature.as_slice());
        assert(buf@ =~= old(buf)@ + self.bytes());
    }
}

/// Whether a message starts with the magic bytes.
pub fn has_magic(message: &[u8]) -> (b: bool)
    requires
        message@.len() >= 4,
    ensures
        b == (message@.subrange(0, 4) == magic()),
{
    let b = message[0] == 0xFE && message[1] == 0x53 && message[2] == 0x4D && message[3] == 0x42;
    proof {
        let head = message@.subrange(0, 4);
        assert(head[0] == message@[0] && head[1] == message@[1] && head[2] == message@[2] && head[3]
            == message@[3]);
        if b {
            assert(head =~= magic());
        } else {
            assert(magic()[0] == 0xFE && magic()[1] == 0x53 && magic()[2] == 0x4D && magic()[3]
                == 0x42);
        }
    }
    b
}

/// Sixteen zero bytes, which stand in the place of a signature that is not set.
pub open spec fn no_signature() -> [u8; 16] {
    vstd::array::spec_array_fill_for_copy_type::<u8, 16>(0u8)
}

/// The header of a response to a request: same command, message, tree and
/// session, marked as coming from the server, unsigned.
pub open spec fn response_header(request: Smb2Header, status: NtStatus, credits: u16) -> Smb2Header {
    Smb2Header {
        structure_size: 64,
        credit_charge: request.credit_charge,
        status: status.spec_code(),
        command: request.command,
        credits,
        flags: Smb2Flags(Smb2Flags::SERVER_TO_REDIR),
        next_command: 0,
        message_id: request.message_id,
        async_id: 0,
        tree_id: request.tree_id,
        session_id: request.session_id,
        signature: no_signature(),
    }
}

pub fn build_response_header(request: &Smb2Header, status: NtStatus, credits: u16) -> (h: Smb2Header)
    ensures
        h == response_header(*request, status, credits),
{
    Smb2Header {
        structure_size: 64,
        credit_charge: request.credit_charge,
        status: status.code(),
        command: request.command,
        credits,
        flags: Smb2Flags(Smb2Flags::SERVER_TO_REDIR),
        next_command: 0,
        message_id: request.message_id,
        async_id: 0,
        tree_id: request.tree_id,
        session_id: request.session_id,
        signature: [0u8; 16],
    }
}

/// A header is 64 bytes long, and what stands at each offset is the field.
#[verifier::rlimit(60)]
pub proof fn lemma_header_fields(h: Smb2Header, rest: Seq<u8>)
    ensures
        h.bytes().len() == 64,
        Smb2Header::readable(h.bytes() + rest),
        h.is_header_of(h.bytes() + rest),
{
    reveal(Smb2Header::bytes);
    let m = h.bytes() + rest;
    assert(m.subrange(0, 4) =~= magic());
    assert(codec::u16_at(m, 4) == h.structure_size) by {
        assert(m.subrange(4, 6) =~= codec::le16(h.structure_size));
        codec::lemma_read_le16(m, 4, h.structure_size);
    }
    assert(codec::u16_at(m, 6) == h.credit_charge) by {
        assert(m.subrange(6, 8) =~= codec::le16(h.credit_charge));
        codec::lemma_read_le16(m, 6, h.credit_charge);
    }
    assert(codec::u32_at(m, 8) == h.status) by {
        assert(m.subrange(8, 12) =~= codec::le32(h.status));
        codec::lemma_read_le32(m, 8, h.status);
    }
    assert(codec::u16_at(m, 12) == h.command.spec_code()) by {
        assert(m.subrange(12, 14) =~= codec::le16(h.command.spec_code()));
        codec::lemma_read_le16(m, 12, h.command.spec_code());
    }
    assert(codec::u16_at(m, 14) == h.credits) by {
        assert(m.subrange(14, 16) =~= codec::le16(h.credits));
        codec::lemma_read_le16(m, 14, h.credits);
    }
    assert(codec::u32_at(m, 16) == h.flags.0) by {
        assert(m.subrange(16, 20) =~= codec::le32(h.flags.0));
        codec::lemma_read_le32(m, 16, h.flags.0);
    }
    assert(codec::u32_at(m, 20) == h.next_command) by {
        assert(m.subrange(20, 24) =~= codec::le32(h.next_command));
        codec::lemma_read_le32(m, 20, h.next_command);
    }
    assert(codec::u64_at(m, 24) == h.message_id) by {
        assert(m.subrange(24, 32) =~= codec::le64(h.message_id));
        codec::lemma_read_le64(m, 24, h.message_id);
    }
    assert(codec::u32_at(m, 32) == h.async_id) by {
        assert(m.subrange(32, 36) =~= codec::le32(h.async_id));
        codec::lemma_read_le32(m, 32, h.async_id);
    }
    assert(codec::u32_at(m, 36) == h.tree_id) by {
        assert(m.subrange(36, 40) =~= codec::le32(h.tree_id));
        codec::lemma_read_le32(m, 36, h.tree_id);
    }
    assert(codec::u64_at(m, 40) == h.session_id) by {
        assert(m.subrange(40, 48) =~= codec::le64(h.session_id));
        codec::lemma_read_le64(m, 40, h.session_id);
    }
    assert(m.subrange(48, 64) =~= h.signature@);
}

/// A message has one header.
pub proof fn lemma_header_is_unique(message: Seq<u8>, a: Smb2Header, b: Smb2Header)
    requires
        a.is_header_of(message),
        b.is_header_of(message),
    ensures
        a == b,
{
    assert(a.command.spec_code() == b.command.spec_code());
    assert(a.signature =~= b.signature);
}

/// Reading a header back gives what was written: every header that is read
/// from the bytes of `h`, whatever follows them, is `h`.
pub proof fn law_header_round_trip(h: Smb2Header, rest: Seq<u8>, read: Smb2Header)
    requires
        read.is_header_of(h.bytes() + rest),
    ensures
        Smb2Header::readable(h.bytes() + rest),
        read == h,
{
    lemma_header_fields(h, rest);
    lemma_header_is_unique(h.bytes() + rest, read, h);
}

/// Writing a header that was read gives the bytes that it was read from.
pub proof fn law_header_bytes_round_trip(message: Seq<u8>, h: Smb2Header)
    requires
        Smb2Header::readable(message),
        h.is_header_of(message),
    ensures
        h.bytes() == message.subrange(0, 64),
{
    reveal(Smb2Header::bytes);
    codec::lemma_write_u16_at(message, 4);
    codec::lemma_write_u16_at(message, 6);
    codec::lemma_write_u32_at(message, 8);
    codec::lemma_write_u16_at(message, 12);
    codec::lemma_write_u16_at(message, 14);
    codec::lemma_write_u32_at(message, 16);
    codec::lemma_write_u32_at(message, 20);
    codec::lemma_write_u64_at(message, 24);
    codec::lemma_write_u32_at(message, 32);
    codec::lemma_write_u32_at(message, 36);
    codec::lemma_write_u64_at(message, 40);
    let m = message;
    let expected = m.subrange(0, 4) + m.subrange(4, 6) + m.subrange(6, 8) + m.subrange(8, 12)
        + m.subrange(12, 14) + m.subrange(14, 16) + m.subrange(16, 20) + m.subrange(20, 24)
        + m.subrange(24, 32) + m.subrange(32, 36) + m.subrange(36, 40) + m.subrange(40, 48)
        + m.subrange(48, 64);
    assert(h.bytes() == expected);
    assert(expected =~= m.subrange(0, 64));
}

/// Where a client finds each field of a header that was written, whatever
/// follows it.
#[verifier::rlimit(50)]
pub proof fn law_header_layout(h: Smb2Header, rest: Seq<u8>)
    ensures
        ({
            let m = h.bytes() + rest;
            &&& m.len() == 64 + rest.len()
            &&& m[0] == 0xFE && m[1] == 0x53 && m[2] == 0x4D && m[3] == 0x42
            &&& codec::u16_at(m, 4) == h.structure_size
            &&& codec::u16_at(m, 6) == h.credit_charge
            &&& codec::u32_at(m, 8) == h.status
            &&& codec::u16_at(m, 12) == h.command.spec_code()
            &&& codec::u16_at(m, 14) == h.credits
            &&& codec::u32_at(m, 16) == h.flags.0
            &&& codec::u32_at(m, 20) == h.next_command
            &&& codec::u64_at(m, 24) == h.message_id
            &&& codec::u32_at(m, 36) == h.tree_id
            &&& codec::u64_at(m, 40) == h.session_id
            &&& forall|k: int| 0 <= k < 16 ==> m[48 + k] == #[trigger] h.signature@[k]
            &&& m.subrange(64, m.len() as int) == rest
        }),
{
    lemma_header_fields(h, rest);
    let m = h.bytes() + rest;
    let head = m.subrange(0, 4);
    assert(head[0] == m[0] && head[1] == m[1] && head[2] == m[2] && head[3] == m[3]);
    assert forall|k: int| 0 <= k < 16 implies m[48 + k] == #[trigger] h.signature@[k] by {
        assert(m.subrange(48, 64)[k] == m[48 + k]);
    }
    assert(m.subrange(64, m.len() as int) =~= rest);
}

/// What a header that was read from a message says is what the client wrote
/// there.
pub proof fn law_read_header(message: Seq<u8>, h: Smb2Header)
    requires
        h.is_header_of(message),
        message.len() >= 64,
    ensures
        h.credit_charge == codec::u16_at(message, 6),
        h.status == codec::u32_at(message, 8),
        h.command.spec_code() == codec::u16_at(message, 12),
        h.credits == codec::u16_at(message, 14),
        h.flags.spec_is_related() <==> codec::u32_at(message, 16) & 0x4 != 0,
        h.flags.spec_is_signed() <==> codec::u32_at(message, 16) & 0x8 != 0,
        h.next_command == codec::u32_at(message, 20),
        h.message_id == codec::u64_at(message, 24),
        h.tree_id == codec::u32_at(message, 36),
        h.session_id == codec::u64_at(message, 40),
        h.signature@ == message.subrange(48, 64),
{
}

/// The number of each command, which no other one has.
pub proof fn law_command_numbers(c: Smb2Command)
    ensures
        c.spec_code() <= 18,
        c.spec_code() == 0 <==> c == Smb2Command::Negotiate,
        c.spec_code() == 1 <==> c == Smb2Command::SessionSetup,
        c.spec_code() == 2 <==> c == Smb2Command::Logoff,
        c.spec_code() == 3 <==> c == Smb2Command::TreeConnect,
        c.spec_code() == 4 <==> c == Smb2Command::TreeDisconnect,
        c.spec_code() == 5 <==> c == Smb2Command::Create,
        c.spec_code() == 6 <==> c == Smb2Command::Close,
        c.spec_code() == 7 <==> c == Smb2Command::Flush,
        c.spec_code() == 8 <==> c == Smb2Command::Read,
        c.spec_code() == 9 <==> c == Smb2Command::Write,
        c.spec_code() == 10 <==> c == Smb2Command::Lock,
        c.spec_code() == 11 <==> c == Smb2Command::Ioctl,
        c.spec_code() == 12 <==> c == Smb2Command::Cancel,
        c.spec_code() == 13 <==> c == Smb2Command::Echo,
        c.spec_code() == 14 <==> c == Smb2Command::QueryDirectory,
        c.spec_code() == 15 <==> c == Smb2Command::ChangeNotify,
        c.spec_code() == 16 <==> c == Smb2Command::QueryInfo,
        c.spec_code() == 17 <==> c == Smb2Command::SetInfo,
        c.spec_code() == 18 <==> c == Smb2Command::OplockBreak,
{
}

/// The header of a response says on the wire whom it answers, with which
/// status and how many credits, and that it comes from the server and is not
/// signed.
#[verifier::rlimit(50)]
pub proof fn law_response_header_on_wire(request: Smb2Header, status: NtStatus, credits: u16, body: Seq<u8>)
    ensures
        ({
            let m = response_header(request, status, credits).bytes() + body;
            &&& codec::u16_at(m, 4) == 64
            &&& codec::u16_at(m, 6) == request.credit_charge
            &&& codec::u32_at(m, 8) == status.spec_code()
            &&& codec::u16_at(m, 12) == request.command.spec_code()
            &&& codec::u16_at(m, 14) == credits
            &&& codec::u32_at(m, 16) == 1
            &&& codec::u32_at(m, 20) == 0
            &&& codec::u64_at(m, 24) == request.message_id
            &&& codec::u32_at(m, 36) == request.tree_id
            &&& codec::u64_at(m, 40) == request.session_id
            &&& forall|k: int| 48 <= k < 64 ==> #[trigger] m[k] == 0
        }),
{
    let h = response_header(request, status, credits);
    let m = h.bytes() + body;
    law_header_layout(h, body);
    assert forall|k: int| 48 <= k < 64 implies #[trigger] m[k] == 0 by {
        assert(h.signature@[k - 48] == 0);
        assert(m[48 + (k - 48)] == h.signature@[k - 48]);
    }
}

} // verus!
