//! A message as it comes in and as it is answered.

use vstd::prelude::*;

use crate::codec;
use crate::error;
use crate::error::HandlerError;
use crate::handler::common;
use crate::handler::signing;
use crate::handler::signing::{SignStep, SigningKeys};
use crate::protocol::header;
use crate::protocol::header::{Smb2Header, SMB2_HEADER_SIZE};

verus! {

/// What a message holds.
#[derive(Debug)]
pub enum MessageKind {
    /// One request.
    Single(Smb2Header),
    /// Several requests, each linked to the next.
    Compound,
}

/// Finds out what a message holds.
pub fn process_message(message: &[u8]) -> (r: Result<MessageKind, HandlerError>)
    ensures
        if message@.len() < 64 {
            error::malformed(r, "Message too small"@)
        } else if message@.subrange(0, 4) != header::magic() {
            error::malformed(r, "Invalid SMB2 magic"@)
        } else if !Smb2Header::readable(message@) {
            error::malformed(r, "Failed to parse header"@)
        } else {
            exists|h: Smb2Header|
                {
                    &&& #[trigger] h.is_header_of(message@)
                    &&& if h.next_command != 0 {
                        r == Ok::<MessageKind, HandlerError>(MessageKind::Compound)
                    } else {
                        r == Ok::<MessageKind, HandlerError>(MessageKind::Single(h))
                    }
                }
        },
{
    if message.len() < SMB2_HEADER_SIZE {
        return Err(error::protocol_error("Message too small"));
    }
    if !header::has_magic(message) {
        return Err(error::protocol_error("Invalid SMB2 magic"));
    }
    match Smb2Header::parse(message) {
        None => Err(error::protocol_error("Failed to parse header")),
        Some(h) => {
            assert(h.is_header_of(message@));
            if h.next_command != 0 {
                Ok(MessageKind::Compound)
            } else {
                Ok(MessageKind::Single(h))
            }
        },
    }
}

/// What is sent in answer to a message: nothing if its handler gave an empty
/// response, otherwise the response, or the error response, signed if its
/// session has a key.
pub open spec fn is_answer(
    r: Result<Option<SignStep>, HandlerError>,
    message: Seq<u8>,
    outcome: Result<Vec<u8>, HandlerError>,
    keys: SigningKeys,
) -> bool {
    match outcome {
        Ok(response) => if response@.len() == 0 {
            r == Ok::<Option<SignStep>, HandlerError>(None)
        } else {
            r matches Ok(Some(step)) && signing::signs(keys, response@, step)
        },
        Err(e) => if !Smb2Header::readable(message) {
            error::malformed(r, "Failed to parse header"@)
        } else {
            &&& r matches Ok(Some(step))
            &&& forall|h: Smb2Header| #[trigger]
                h.is_header_of(message) ==> signing::signs(
                    keys,
                    common::error_header(
                        h,
                        e.spec_status(),
                        h.session_id,
                        h.tree_id,
                    ).bytes() + common::error_body(),
                    step,
                )
        },
    }
}

/// Turns what came of handling a message into what is sent.
pub fn process_and_respond(message: &[u8], outcome: Result<Vec<u8>, HandlerError>, keys: &SigningKeys) -> (r:
    Result<Option<SignStep>, HandlerError>)
    ensures
        is_answer(r, message@, outcome, *keys),
{
    match outcome {
        Ok(response) => {
            if response.len() == 0 {
                return Ok(None);
            }
            Ok(Some(signing::maybe_sign_response(keys, response)))
        },
        Err(e) => match common::build_error_response(message, e.status()) {
            Err(error) => Err(error),
            Ok(response) => Ok(Some(signing::maybe_sign_response(keys, response))),
        },
    }
}

/// A client whose request failed gets a response that reports the failure (8 of
/// the message), for its own request (24), session (40) and tree (36); nothing
/// is sent for a request whose handler has nothing to send.
pub proof fn law_failures_are_reported(
    r: Result<Option<SignStep>, HandlerError>,
    message: Seq<u8>,
    e: HandlerError,
    keys: SigningKeys,
    h: Smb2Header,
)
    requires
        Smb2Header::readable(message),
        h.is_header_of(message),
        is_answer(r, message, Err(e), keys),
    ensures
        r matches Ok(Some(step)) && ({
            let m = match step {
                SignStep::Ready(m) => m@,
                SignStep::Sign(p) => p.message@,
            };
            &&& m.len() == 73
            &&& codec::u32_at(m, 8) == e.spec_status().spec_code()
            &&& codec::u64_at(m, 24) == codec::u64_at(message, 24)
            &&& codec::u32_at(m, 36) == codec::u32_at(message, 36)
            &&& codec::u64_at(m, 40) == codec::u64_at(message, 40)
        }),
{
    let status = e.spec_status();
    let plain = common::error_header(h, status, h.session_id, h.tree_id).bytes()
        + common::error_body();
    common::law_plain_bodies(h, status, h.session_id, h.tree_id);
    let step = r->Ok_0->0;
    signing::law_which_responses_are_signed(keys, plain, step);
    if let SignStep::Sign(p) = step {
        lemma_same_answer(p.message@, plain);
    }
}

proof fn lemma_same_answer(signed: Seq<u8>, plain: Seq<u8>)
    requires
        plain.len() >= 64,
        signed.len() == plain.len(),
        forall|i: int|
            0 <= i < plain.len() && !(16 <= i < 20) && !(48 <= i < 64) ==> #[trigger] signed[i]
                == plain[i],
    ensures
        codec::u32_at(signed, 8) == codec::u32_at(plain, 8),
        codec::u64_at(signed, 24) == codec::u64_at(plain, 24),
        codec::u32_at(signed, 36) == codec::u32_at(plain, 36),
        codec::u64_at(signed, 40) == codec::u64_at(plain, 40),
{
    assert(signed.subrange(8, 12) =~= plain.subrange(8, 12));
    codec::lemma_same_bytes(signed, 8, plain, 8, 4);
    assert(signed.subrange(24, 32) =~= plain.subrange(24, 32));
    codec::lemma_same_bytes(signed, 24, plain, 24, 8);
    assert(signed.subrange(36, 40) =~= plain.subrange(36, 40));
    codec::lemma_same_bytes(signed, 36, plain, 36, 4);
    assert(signed.subrange(40, 48) =~= plain.subrange(40, 48));
    codec::lemma_same_bytes(signed, 40, plain, 40, 8);
}

/// A response is sent if it holds anything, and then it is the one that the
/// handler gave, but for the signature and the flag that tells of it.
pub proof fn law_responses_are_sent(
    r: Result<Option<SignStep>, HandlerError>,
    message: Seq<u8>,
    response: Vec<u8>,
    keys: SigningKeys,
)
    requires
        is_answer(r, message, Ok(response), keys),
    ensures
        r == Ok::<Option<SignStep>, HandlerError>(None) <==> response@.len() == 0,
        r is Ok,
        response@.len() >= 64 ==> (r matches Ok(Some(step)) && match step {
            SignStep::Ready(m) => m@ == response@,
            SignStep::Sign(p) => p.message@.len() == response@.len() && forall|i: int|
                0 <= i < response@.len() && !(16 <= i < 20) && !(48 <= i < 64)
                    ==> #[trigger] p.message@[i] == response@[i],
        }),
{
    if response@.len() >= 64 {
        signing::law_which_responses_are_signed(keys, response@, r->Ok_0->0);
    }
}

} // verus!
