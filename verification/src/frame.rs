//! Session messages on a byte stream: one zero byte, the length as three
//! bytes, most significant first, then the message.

use bytes::{Buf, BytesMut};
use vstd::prelude::*;

use crate::codec;
use crate::error;
use crate::error::HandlerError;

verus! {

/// `bytes::BytesMut`, the buffer that collects what was read from the stream.
#[verifier::external_type_specification]
#[verifier::external_body]
pub struct ExBytesMut(BytesMut);

/// The bytes that a buffer holds, oldest first.
pub uninterp spec fn buffered(buf: BytesMut) -> Seq<u8>;

/// `BytesMut::len`: the number of bytes in the buffer.
#[verifier::external_body]
fn buffer_len(buf: &BytesMut) -> (n: usize)
    ensures
        n == buffered(*buf).len(),
{
    buf.len()
}

/// Indexing a `BytesMut`, which dereferences to its bytes: the byte at
/// position `i`. It panics past the end.
#[verifier::external_body]
fn buffer_byte(buf: &BytesMut, i: usize) -> (b: u8)
    requires
        i < buffered(*buf).len(),
    ensures
        b == buffered(*buf)[i as int],
{
    buf[i]
}

/// `BytesMut::advance`: drops the first `n` bytes. It panics if there are fewer.
#[verifier::external_body]
fn buffer_advance(buf: &mut BytesMut, n: usize)
    requires
        n <= buffered(*old(buf)).len(),
    ensures
        buffered(*final(buf)) == buffered(*old(buf)).subrange(
            n as int,
            buffered(*old(buf)).len() as int,
        ),
{
    buf.advance(n)
}

/// `BytesMut::split_to`: takes the first `n` bytes out and leaves the rest. It
/// panics if there are fewer.
#[verifier::external_body]
fn buffer_split_to(buf: &mut BytesMut, n: usize) -> (head: Vec<u8>)
    requires
        n <= buffered(*old(buf)).len(),
    ensures
        head@ == buffered(*old(buf)).subrange(0, n as int),
        buffered(*final(buf)) == buffered(*old(buf)).subrange(
            n as int,
            buffered(*old(buf)).len() as int,
        ),
{
    buf.split_to(n).to_vec()
}

/// The length that a frame announces for its message.
pub open spec fn announced_length(stream: Seq<u8>) -> int {
    stream[1] * 0x1_0000 + stream[2] * 0x100 + stream[3]
}

/// Whether the stream starts with a whole frame.
pub open spec fn has_frame(stream: Seq<u8>) -> bool {
    stream.len() >= 4 && stream.len() >= 4 + announced_length(stream)
}

/// Takes the first message out of the buffer, if all of it has arrived.
/// Otherwise the buffer stays as it is.
pub fn try_parse_message(read_buf: &mut BytesMut) -> (message: Result<Option<Vec<u8>>, HandlerError>)
    ensures
        has_frame(buffered(*old(read_buf))) ==> {
            let stream = buffered(*old(read_buf));
            let end = 4 + announced_length(stream);
            &&& message matches Ok(Some(m)) && m@ == stream.subrange(4, end)
            &&& buffered(*final(read_buf)) == stream.subrange(end, stream.len() as int)
        },
        !has_frame(buffered(*old(read_buf))) ==> {
            &&& message matches Ok(None)
            &&& *final(read_buf) == *old(read_buf)
        },
{
    if buffer_len(read_buf) < 4 {
        return Ok(None);
    }
    let len: usize = buffer_byte(read_buf, 1) as usize * 0x1_0000 + buffer_byte(read_buf, 2) as usize
        * 0x100 + buffer_byte(read_buf, 3) as usize;
    if buffer_len(read_buf) < 4 + len {
        return Ok(None);
    }
    buffer_advance(read_buf, 4);
    let message = buffer_split_to(read_buf, len);
    proof {
        let stream = buffered(*old(read_buf));
        let rest = stream.subrange(4, stream.len() as int);
        assert(rest.subrange(0, len as int) =~= stream.subrange(4, 4 + len));
        assert(rest.subrange(len as int, rest.len() as int) =~= stream.subrange(
            4 + len,
            stream.len() as int,
        ));
    }
    Ok(Some(message))
}

/// The four bytes before a message of `len` bytes. Of a longer length than
/// three bytes can hold, only the lowest three bytes are sent.
pub open spec fn frame_header(len: int) -> Seq<u8> {
    seq![0u8, ((len / 0x1_0000) % 0x100) as u8, ((len / 0x100) % 0x100) as u8, (len % 0x100) as u8]
}

/// Puts the frame around a message.
pub fn frame_message(message: &[u8]) -> (framed: Vec<u8>)
    ensures
        framed@ == frame_header(message@.len() as int) + message@,
{
    let len: usize = message.len();
    let mut framed: Vec<u8> = Vec::new();
    framed.push(0);
    framed.push(((len / 0x1_0000) % 0x100) as u8);
    framed.push(((len / 0x100) % 0x100) as u8);
    framed.push((len % 0x100) as u8);
    assert(framed@ =~= frame_header(len as int));
    codec::put_bytes(&mut framed, message);
    framed
}

/// What the end of a read from the stream means.
#[derive(Clone, Copy, Debug, PartialEq, Eq, Structural)]
pub enum ReadOutcome {
    /// The client closed the connection between two messages.
    Closed,
    /// Bytes arrived.
    Received,
}

/// Judges a read that brought `bytes_read` bytes, with what the buffer then
/// holds. The end of the stream in the middle of a message is an error.
pub fn read_outcome(bytes_read: usize, read_buf: &BytesMut) -> (outcome: Result<
    ReadOutcome,
    HandlerError,
>)
    ensures
        bytes_read > 0 ==> outcome == Ok::<ReadOutcome, HandlerError>(ReadOutcome::Received),
        bytes_read == 0 && buffered(*read_buf).len() == 0 ==> outcome == Ok::<
            ReadOutcome,
            HandlerError,
        >(ReadOutcome::Closed),
        bytes_read == 0 && buffered(*read_buf).len() > 0 ==> error::malformed(
            outcome,
            "Incomplete message"@,
        ),
{
    if bytes_read > 0 {
        Ok(ReadOutcome::Received)
    } else if buffer_len(read_buf) == 0 {
        Ok(ReadOutcome::Closed)
    } else {
        Err(error::protocol_error("Incomplete message"))
    }
}

/// A framed message is found again: a stream that starts with the frame of a
/// message holds that message, and after it what followed the frame.
pub proof fn law_frame_round_trip(message: Seq<u8>, rest: Seq<u8>)
    requires
        message.len() < 0x100_0000,
    ensures
        ({
            let stream = frame_header(message.len() as int) + message + rest;
            let end = 4 + announced_length(stream);
            &&& has_frame(stream)
            &&& stream.subrange(4, end) == message
            &&& stream.subrange(end, stream.len() as int) == rest
        }),
{
    let n = message.len() as int;
    let stream = frame_header(n) + message + rest;
    assert(stream[1] == ((n / 0x1_0000) % 0x100) as u8);
    assert(stream[2] == ((n / 0x100) % 0x100) as u8);
    assert(stream[3] == (n % 0x100) as u8);
    assert(announced_length(stream) == n);
    assert(stream.subrange(4, 4 + n) =~= message);
    assert(stream.subrange(4 + n, stream.len() as int) =~= rest);
}

/// What stands before a message on the stream: a zero byte, then its length in
/// three bytes, the most significant one first.
pub proof fn law_frame_on_wire(len: int, stream: Seq<u8>)
    requires
        0 <= len < 0x100_0000,
    ensures
        frame_header(len).len() == 4,
        frame_header(len)[0] == 0,
        0x1_0000 * frame_header(len)[1] + 0x100 * frame_header(len)[2] + frame_header(len)[3] == len,
        has_frame(stream) <==> stream.len() >= 4 && stream.len() >= 4 + 0x1_0000 * stream[1] + 0x100
            * stream[2] + stream[3],
{
}

} // verus!
