//! Message signatures. The message authentication code itself is computed
//! outside: a step that needs one names the key and the bytes, and takes the
//! code back.

use std::collections::HashMap;
use vstd::prelude::*;

use crate::codec;
use crate::error;
use crate::error::HandlerError;
use crate::protocol::dialect::SmbDialect;
use crate::protocol::header::{
    Smb2Flags, FLAGS_OFFSET, SESSION_ID_OFFSET, SIGNATURE_OFFSET, SMB2_HEADER_SIZE,
};
use crate::protocol::status::NtStatus;

verus! {

broadcast use vstd::std_specs::hash::group_hash_axioms;

/// How message authentication codes are computed.
#[derive(Clone, Copy, Debug, PartialEq, Eq, Structural)]
pub enum SigningAlgorithm {
    AesCmac,
}

/// The algorithm for a dialect: the same one for all of them.
pub fn signing_algorithm(dialect: SmbDialect) -> (a: SigningAlgorithm)
    ensures
        a == SigningAlgorithm::AesCmac,
{
    SigningAlgorithm::AesCmac
}

/// The signing keys of the sessions of a connection.
#[derive(Debug)]
pub struct SigningKeys {
    pub keys: HashMap<u64, Vec<u8>>,
}

impl SigningKeys {
    /// The signing key of a session.
    pub open spec fn key_of(self, session_id: u64) -> Option<Seq<u8>> {
        if self.keys@.contains_key(session_id) {
            Some(self.keys@[session_id]@)
        } else {
            None
        }
    }

    pub fn new() -> (k: Self)
        ensures
            forall|id: u64| k.key_of(id) is None,
    {
        SigningKeys { keys: HashMap::new() }
    }

    pub fn insert(&mut self, session_id: u64, key: Vec<u8>)
        ensures
            final(self).key_of(session_id) == Some(key@),
            forall|id: u64| id != session_id ==> final(self).key_of(id) == old(self).key_of(id),
    {
        let _ = self.keys.insert(session_id, key);
    }

    pub fn remove(&mut self, session_id: u64)
        ensures
            final(self).key_of(session_id) is None,
            forall|id: u64| id != session_id ==> final(self).key_of(id) == old(self).key_of(id),
    {
        let _ = self.keys.remove(&session_id);
    }

    pub fn contains_key(&self, session_id: u64) -> (b: bool)
        ensures
            b == (self.key_of(session_id) is Some),
    {
        self.keys.contains_key(&session_id)
    }

    /// A copy of the key of a session.
    pub fn get(&self, session_id: u64) -> (key: Option<Vec<u8>>)
        ensures
            match key {
                Some(k) => self.key_of(session_id) == Some(k@),
                None => self.key_of(session_id) is None,
            },
    {
        match self.keys.get(&session_id) {
            Some(key) => {
                let copy = codec::copy_range(key.as_slice(), 0, key.len());
                assert(copy@ =~= key@);
                Some(copy)
            },
            None => None,
        }
    }
}

/// A key cut or filled up with zeros to sixteen bytes.
pub open spec fn padded_key(key: Seq<u8>) -> Seq<u8> {
    Seq::new(
        16,
        |i: int|
            if i < key.len() {
                key[i]
            } else {
                0u8
            },
    )
}

pub fn pad_key(key: &[u8]) -> (padded: [u8; 16])
    ensures
        padded@ == padded_key(key@),
{
    let mut padded = [0u8; 16];
    let mut i: usize = 0;
    while i < 16 && i < key.len()
        invariant
            i <= 16,
            i <= key@.len(),
            padded@.len() == 16,
            forall|k: int| 0 <= k < i ==> padded@[k] == key@[k],
            forall|k: int| i <= k < 16 ==> padded@[k] == 0,
        decreases 16 - i,
    {
        padded[i] = key[i];
        i = i + 1;
    }
    assert(padded@ =~= padded_key(key@));
    padded
}

/// A message with its signature set to zeros.
pub open spec fn without_signature(message: Seq<u8>) -> Seq<u8> {
    codec::overwrite(message, SIGNATURE_OFFSET as int, codec::zeros(16))
}

/// A message marked as signed.
pub open spec fn marked_signed(message: Seq<u8>) -> Seq<u8> {
    codec::overwrite(
        message,
        FLAGS_OFFSET as int,
        codec::le32(codec::u32_at(message, FLAGS_OFFSET as int) | Smb2Flags::SIGNED),
    )
}

/// Whether a message is marked as signed.
pub open spec fn is_marked_signed(message: Seq<u8>) -> bool {
    codec::u32_at(message, FLAGS_OFFSET as int) & Smb2Flags::SIGNED != 0
}

fn clear_signature(message: &mut Vec<u8>)
    requires
        old(message)@.len() >= 64,
    ensures
        final(message)@ == without_signature(old(message)@),
{
    let zeros = [0u8; 16];
    assert(zeros@ =~= codec::zeros(16));
    codec::set_bytes(message, SIGNATURE_OFFSET, zeros.as_slice());
}

/// A message that waits for its signature.
#[derive(Debug)]
pub struct PendingSignature {
    /// The key of the message authentication code.
    pub key: [u8; 16],
    /// The message, with zeros in the place of the signature.
    pub message: Vec<u8>,
}

impl PendingSignature {
    pub open spec fn wf(self) -> bool {
        self.message@.len() >= 64
    }

    /// Puts the message authentication code in its place.
    pub fn finish(self, mac: &[u8; 16]) -> (signed: Vec<u8>)
        requires
            self.wf(),
        ensures
            signed@ == codec::overwrite(self.message@, SIGNATURE_OFFSET as int, mac@),
    {
        let mut signed = self.message;
        codec::set_bytes(&mut signed, SIGNATURE_OFFSET, mac.as_slice());
        signed
    }
}

/// A message that is ready to go, or one that has to be signed first.
#[derive(Debug)]
pub enum SignStep {
    Ready(Vec<u8>),
    Sign(PendingSignature),
}

/// Prepares a message for its signature.
pub fn sign_message(message: Vec<u8>, signing_key: &[u8]) -> (pending: Result<
    PendingSignature,
    HandlerError,
>)
    ensures
        message@.len() < 64 ==> error::malformed(pending, "Message too short to sign"@),
        message@.len() >= 64 ==> (pending matches Ok(p) && p.wf() && p.key@ == padded_key(
            signing_key@,
        ) && p.message@ == without_signature(message@)),
{
    if message.len() < SMB2_HEADER_SIZE {
        return Err(error::protocol_error("Message too short to sign"));
    }
    let mut message = message;
    clear_signature(&mut message);
    Ok(PendingSignature { key: pad_key(signing_key), message })
}

/// The key that a response has to be signed with: that of the session which its
/// header names, unless the response is too short to have a header.
pub open spec fn response_key(keys: SigningKeys, response: Seq<u8>) -> Option<Seq<u8>> {
    if response.len() < 64 {
        None
    } else {
        keys.key_of(codec::u64_at(response, SESSION_ID_OFFSET as int))
    }
}

/// What signing a changed response again comes to: a response that was not
/// signed, or whose session has no key, stays as it is.
pub open spec fn re_signs(keys: SigningKeys, response: Seq<u8>, step: SignStep) -> bool {
    match response_key(keys, response) {
        Some(key) if is_marked_signed(response) => step matches SignStep::Sign(p) && p.wf()
            && p.key@ == padded_key(key) && p.message@ == without_signature(response),
        _ => step matches SignStep::Ready(m) && m@ == response,
    }
}

/// What signing a response comes to: one that was signed before, or whose
/// session has no key, stays as it is.
pub open spec fn signs(keys: SigningKeys, response: Seq<u8>, step: SignStep) -> bool {
    match response_key(keys, response) {
        Some(key) if !is_marked_signed(response) => step matches SignStep::Sign(p) && p.wf()
            && p.key@ == padded_key(key) && p.message@ == without_signature(
            marked_signed(response),
        ),
        _ => step matches SignStep::Ready(m) && m@ == response,
    }
}

/// Signs a response again after its header was changed.
pub fn re_sign_response(keys: &SigningKeys, response: Vec<u8>) -> (step: SignStep)
    ensures
        re_signs(*keys, response@, step),
{
    if response.len() < SMB2_HEADER_SIZE {
        return SignStep::Ready(response);
    }
    let session_id: u64 = codec::get_u64(response.as_slice(), SESSION_ID_OFFSET);
    match keys.get(session_id) {
        None => SignStep::Ready(response),
        Some(key) => {
            let flags: u32 = codec::get_u32(response.as_slice(), FLAGS_OFFSET);
            if flags & Smb2Flags::SIGNED != 0 {
                let mut message = response;
                clear_signature(&mut message);
                SignStep::Sign(PendingSignature { key: pad_key(key.as_slice()), message })
            } else {
                SignStep::Ready(response)
            }
        },
    }
}

/// Signs a response if its session has a key and nothing signed it before.
pub fn maybe_sign_response(keys: &SigningKeys, response: Vec<u8>) -> (step: SignStep)
    ensures
        signs(*keys, response@, step),
{
    if response.len() < SMB2_HEADER_SIZE {
        return SignStep::Ready(response);
    }
    let session_id: u64 = codec::get_u64(response.as_slice(), SESSION_ID_OFFSET);
    match keys.get(session_id) {
        None => SignStep::Ready(response),
        Some(key) => {
            let flags: u32 = codec::get_u32(response.as_slice(), FLAGS_OFFSET);
            if flags & Smb2Flags::SIGNED != 0 {
                return SignStep::Ready(response);
            }
            let mut message = response;
            codec::set_u32(&mut message, FLAGS_OFFSET, flags | Smb2Flags::SIGNED);
            clear_signature(&mut message);
            SignStep::Sign(PendingSignature { key: pad_key(key.as_slice()), message })
        },
    }
}

/// A request whose signature waits for its check.
#[derive(Debug)]
pub struct PendingVerification {
    /// The key of the message authentication code.
    pub key: [u8; 16],
    /// The request, with zeros in the place of the signature.
    pub message: Vec<u8>,
    /// The signature that the request came with.
    pub provided: [u8; 16],
}

impl PendingVerification {
    /// Accepts the request if its signature is the message authentication code.
    /// All bytes are looked at, whether they differ or not.
    pub fn finish(self, mac: &[u8; 16]) -> (r: Result<(), HandlerError>)
        ensures
            mac@ == self.provided@ ==> r is Ok,
            mac@ != self.provided@ ==> error::refused(r, NtStatus::AccessDenied),
    {
        let mut diff: u8 = 0;
        let mut i: usize = 0;
        while i < 16
            invariant
                i <= 16,
                diff == 0 <==> (forall|k: int| 0 <= k < i ==> mac@[k] == self.provided@[k]),
            decreases 16 - i,
        {
            let a: u8 = mac[i];
            let b: u8 = self.provided[i];
            assert((diff | (a ^ b)) == 0 <==> (diff == 0 && a == b)) by (bit_vector);
            diff = diff | (a ^ b);
            i = i + 1;
        }
        if diff != 0 {
            return Err(HandlerError::Status(NtStatus::AccessDenied));
        }
        assert(mac@ =~= self.provided@);
        Ok(())
    }
}

/// Prepares the check of the signature of a request.
pub fn verify_request_signature(message: &[u8], signing_key: &[u8]) -> (pending: Result<
    PendingVerification,
    HandlerError,
>)
    ensures
        message@.len() < 64 ==> error::malformed(pending, "Message too short to verify"@),
        message@.len() >= 64 ==> (pending matches Ok(p) && p.key@ == padded_key(signing_key@)
            && p.message@ == without_signature(message@) && p.provided@ == message@.subrange(
            48,
            64,
        )),
{
    if message.len() < SMB2_HEADER_SIZE {
        return Err(error::protocol_error("Message too short to verify"));
    }
    let provided = codec::get_array16(message, SIGNATURE_OFFSET);
    let mut copy = codec::copy_range(message, 0, message.len());
    assert(copy@ =~= message@);
    clear_signature(&mut copy);
    Ok(PendingVerification { key: pad_key(signing_key), message: copy, provided })
}

/// Clearing a signature or setting one changes no byte outside its place.
pub proof fn lemma_signature_place(message: Seq<u8>, mac: Seq<u8>)
    requires
        message.len() >= 64,
        mac.len() == 16,
    ensures
        ({
            let signed = codec::overwrite(message, 48, mac);
            &&& signed.len() == message.len()
            &&& signed.subrange(48, 64) == mac
            &&& signed.subrange(0, 48) == message.subrange(0, 48)
            &&& signed.subrange(64, signed.len() as int) == message.subrange(
                64,
                message.len() as int,
            )
        }),
{
    let signed = codec::overwrite(message, 48, mac);
    assert(signed.subrange(48, 64) =~= mac);
    assert(signed.subrange(0, 48) =~= message.subrange(0, 48));
    assert(signed.subrange(64, signed.len() as int) =~= message.subrange(
        64,
        message.len() as int,
    ));
}

/// A signature that was put on a message stands the check with the same key:
/// the bytes that are authenticated are the same, and so is the signature.
pub proof fn law_signature_is_accepted(pending: PendingSignature, mac: Seq<u8>)
    requires
        pending.wf(),
        mac.len() == 16,
        pending.message@ == without_signature(pending.message@),
    ensures
        ({
            let signed = codec::overwrite(pending.message@, 48, mac);
            &&& without_signature(signed) == pending.message@
            &&& signed.subrange(48, 64) == mac
        }),
{
    let signed = codec::overwrite(pending.message@, 48, mac);
    assert(without_signature(signed) =~= without_signature(pending.message@));
    lemma_signature_place(pending.message@, mac);
}

/// Marking a message as signed sets that flag and leaves every other flag and
/// every byte outside the flags as it was.
pub proof fn law_mark_sets_only_the_flag(message: Seq<u8>)
    requires
        message.len() >= 64,
    ensures
        is_marked_signed(marked_signed(message)),
        codec::u32_at(marked_signed(message), 16) == codec::u32_at(message, 16) | Smb2Flags::SIGNED,
        marked_signed(message).len() == message.len(),
        forall|i: int|
            0 <= i < message.len() && !(16 <= i < 20) ==> #[trigger] marked_signed(message)[i]
                == message[i],
{
    let flags = codec::u32_at(message, 16);
    let marked = marked_signed(message);
    assert(marked.subrange(16, 20) =~= codec::le32(flags | Smb2Flags::SIGNED));
    codec::lemma_read_le32(marked, 16, flags | Smb2Flags::SIGNED);
    assert((flags | 0x8u32) & 0x8u32 != 0) by (bit_vector);
}

/// A key of sixteen bytes is used as it is, the first sixteen bytes of a longer
/// one, and a shorter one with zeros behind it.
pub proof fn law_key_is_padded(key: Seq<u8>)
    ensures
        padded_key(key).len() == 16,
        key.len() == 16 ==> padded_key(key) == key,
        key.len() > 16 ==> padded_key(key) == key.subrange(0, 16),
        key.len() < 16 ==> padded_key(key) == key + codec::zeros((16 - key.len()) as nat),
{
    if key.len() == 16 {
        assert(padded_key(key) =~= key);
    } else if key.len() > 16 {
        assert(padded_key(key) =~= key.subrange(0, 16));
    } else {
        assert(padded_key(key) =~= key + codec::zeros((16 - key.len()) as nat));
    }
}

/// What is authenticated of a message is all of it but the sixteen bytes of the
/// signature at 48, which count as zeros.
pub proof fn law_authenticated_bytes(message: Seq<u8>)
    requires
        message.len() >= 64,
    ensures
        without_signature(message).len() == message.len(),
        forall|i: int|
            0 <= i < message.len() ==> #[trigger] without_signature(message)[i] == if 48 <= i < 64 {
                0u8
            } else {
                message[i]
            },
{
}

/// A response is signed with the key of the session whose id stands at 40, if
/// that session has one and bit 3 of the flags at 16 is not set yet: it is set
/// then, all else but the signature stays, and what is authenticated is the
/// message so marked. Any other response goes out as it is.
pub proof fn law_which_responses_are_signed(keys: SigningKeys, response: Seq<u8>, step: SignStep)
    requires
        response.len() >= 64,
        signs(keys, response, step),
    ensures
        step is Sign <==> keys.key_of(codec::u64_at(response, 40)) is Some && codec::u32_at(
            response,
            16,
        ) & 8 == 0,
        step matches SignStep::Ready(m) ==> m@ == response,
        step matches SignStep::Sign(p) ==> {
            &&& p.key@ == padded_key(keys.key_of(codec::u64_at(response, 40))->0)
            &&& p.message@.len() == response.len()
            &&& codec::u32_at(p.message@, 16) == codec::u32_at(response, 16) | 8
            &&& forall|i: int|
                0 <= i < response.len() && !(16 <= i < 20) && !(48 <= i < 64)
                    ==> #[trigger] p.message@[i] == response[i]
            &&& forall|i: int| 48 <= i < 64 ==> #[trigger] p.message@[i] == 0
        },
{
    law_mark_sets_only_the_flag(response);
    law_authenticated_bytes(response);
    if let SignStep::Sign(p) = step {
        let marked = marked_signed(response);
        law_authenticated_bytes(marked);
        assert(p.message@ == without_signature(marked));
        assert(p.message@.subrange(16, 20) =~= marked.subrange(16, 20));
        codec::lemma_same_bytes(p.message@, 16, marked, 16, 4);
        assert forall|i: int|
            0 <= i < response.len() && !(16 <= i < 20) && !(48 <= i < 64) implies #[trigger] p.message@[i]
            == response[i] by {
            assert(p.message@[i] == marked[i]);
            assert(marked[i] == response[i]);
        }
        assert forall|i: int| 48 <= i < 64 implies #[trigger] p.message@[i] == 0 by {
            assert(without_signature(marked)[i] == 0);
        }
    }
}

/// A response whose header was changed is signed again with the key of its
/// session if it was signed before (bit 3 of the flags at 16), and only then.
pub proof fn law_which_responses_are_signed_again(
    keys: SigningKeys,
    response: Seq<u8>,
    step: SignStep,
)
    requires
        response.len() >= 64,
        re_signs(keys, response, step),
    ensures
        step is Sign <==> keys.key_of(codec::u64_at(response, 40)) is Some && codec::u32_at(
            response,
            16,
        ) & 8 != 0,
        step matches SignStep::Ready(m) ==> m@ == response,
        step matches SignStep::Sign(p) ==> p.key@ == padded_key(
            keys.key_of(codec::u64_at(response, 40))->0,
        ) && p.message@.len() == response.len() && forall|i: int|
            0 <= i < response.len() ==> #[trigger] p.message@[i] == if 48 <= i < 64 {
                0u8
            } else {
                response[i]
            },
{
    law_authenticated_bytes(response);
}

} // verus!
