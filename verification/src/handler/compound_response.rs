//! Combining the responses of a compound message into one.

use vstd::prelude::*;

use crate::codec;
use crate::error::HandlerError;
use crate::handler::compound;
use crate::handler::signing;
use crate::handler::signing::{SignStep, SigningKeys};
use crate::protocol::header::{Smb2Flags, FLAGS_OFFSET, NEXT_COMMAND_OFFSET, SMB2_HEADER_SIZE};

verus! {

/// A response as part of a combined one: marked as related, where the commands
/// were and it is not the first, and with the distance to the next response,
/// which is zero for the last.
pub open spec fn linked(response: Seq<u8>, related: bool, first: bool, last: bool) -> Seq<u8> {
    let marked = if related && !first {
        codec::overwrite(
            response,
            FLAGS_OFFSET as int,
            codec::le32(codec::u32_at(response, 16) | Smb2Flags::RELATED_OPERATIONS),
        )
    } else {
        response
    };
    codec::overwrite(marked, NEXT_COMMAND_OFFSET as int, codec::le32(link_distance(response, last)))
}

/// The distance from a response to the next one.
pub open spec fn link_distance(response: Seq<u8>, last: bool) -> u32 {
    if last {
        0
    } else {
        ((response.len() + compound::padding(response.len() as int)) % 0x1_0000_0000) as u32
    }
}

/// The zero bytes that follow a response.
pub open spec fn link_padding(response: Seq<u8>, last: bool) -> int {
    if last {
        0
    } else {
        compound::padding(response.len() as int)
    }
}

/// Whether the header of a response changes when it is linked.
pub open spec fn link_changes_header(response: Seq<u8>, related: bool, first: bool, last: bool) -> bool {
    (related && !first) || !last || codec::u32_at(response, NEXT_COMMAND_OFFSET as int) != 0
}

/// A response that is ready to be combined with others.
#[derive(Debug)]
pub struct LinkedResponse {
    pub bytes: Vec<u8>,
    /// The zero bytes that follow it.
    pub padding: usize,
    /// Whether its header was changed, so that a signature no longer fits.
    pub changed: bool,
}

/// Links a response to the ones around it.
pub fn link_response(response: Vec<u8>, related: bool, first: bool, last: bool) -> (r: LinkedResponse)
    requires
        response@.len() >= 64,
    ensures
        r.bytes@ == linked(response@, related, first, last),
        r.padding == link_padding(response@, last),
        r.changed == link_changes_header(response@, related, first, last),
{
    let ghost original = response@;
    let len: usize = response.len();
    let mut bytes = response;
    let next_before: u32 = codec::get_u32(bytes.as_slice(), NEXT_COMMAND_OFFSET);
    if related && !first {
        let flags: u32 = codec::get_u32(bytes.as_slice(), FLAGS_OFFSET);
        codec::set_u32(&mut bytes, FLAGS_OFFSET, flags | Smb2Flags::RELATED_OPERATIONS);
    }
    let padding: usize = if last {
        0
    } else {
        compound::compound_padding(len)
    };
    let distance: u32 = if last {
        0
    } else {
        ((len as u128 + padding as u128) % 0x1_0000_0000) as u32
    };
    codec::set_u32(&mut bytes, NEXT_COMMAND_OFFSET, distance);
    assert(bytes@ =~= linked(original, related, first, last));
    LinkedResponse { bytes, padding, changed: (related && !first) || !last || next_before != 0 }
}

/// The responses that can be combined, linked to each other. Those that are too
/// short to have a header are left out.
pub open spec fn links(responses: Seq<Vec<u8>>, related: bool, n: int) -> Seq<(Seq<u8>, int, bool)>
    decreases n,
{
    if n <= 0 {
        Seq::empty()
    } else {
        let before = links(responses, related, n - 1);
        let response = responses[n - 1]@;
        let first = n == 1;
        let last = n == responses.len();
        if response.len() < 64 {
            before
        } else {
            before.push(
                (
                    linked(response, related, first, last),
                    link_padding(response, last),
                    link_changes_header(response, related, first, last),
                ),
            )
        }
    }
}

pub open spec fn link_view(r: LinkedResponse) -> (Seq<u8>, int, bool) {
    (r.bytes@, r.padding as int, r.changed)
}

/// Responses that are being combined.
#[derive(Debug)]
pub struct CombineRun {
    pub linked: Vec<LinkedResponse>,
    /// How many of them are in `combined` already.
    pub done: usize,
    pub combined: Vec<u8>,
}

/// What has to happen next with the responses.
#[derive(Debug)]
pub enum CombineStep {
    /// Sign a response again if need be and hand it to `append`.
    Append(CombineRun, SignStep),
    /// The combined response.
    Done(Vec<u8>),
}

/// What the responses to a compound message come to.
#[derive(Debug)]
pub enum CombineStart {
    /// A single response, which needs no linking.
    Single(Vec<u8>),
    Run(CombineRun),
}

/// Starts to combine the responses to a compound message.
pub fn combine_compound_responses(responses: Vec<Vec<u8>>, is_related: bool) -> (start: Result<
    CombineStart,
    HandlerError,
>)
    ensures
        responses@.len() == 0 ==> (start matches Err(HandlerError::Internal(text)) && text@
            == "No responses to combine"@),
        responses@.len() == 1 ==> start == Ok::<CombineStart, HandlerError>(
            CombineStart::Single(responses@[0]),
        ),
        responses@.len() >= 2 ==> (start matches Ok(CombineStart::Run(run)) && run.linked@.map_values(
            |r: LinkedResponse| link_view(r),
        ) == links(responses@, is_related, responses@.len() as int) && run.done == 0
            && run.combined@ == Seq::<u8>::empty()),
{
    let mut responses = responses;
    let total: usize = responses.len();
    if total == 0 {
        return Err(HandlerError::Internal("No responses to combine".to_owned()));
    }
    if total == 1 {
        return Ok(CombineStart::Single(responses.remove(0)));
    }
    let ghost all = responses@;
    let mut linked: Vec<LinkedResponse> = Vec::new();
    let mut i: usize = 0;
    assert(linked@.map_values(|r: LinkedResponse| link_view(r)) =~= links(all, is_related, 0));
    while i < total
        invariant
            i <= total,
            total == all.len(),
            responses@ == all,
            linked@.map_values(|r: LinkedResponse| link_view(r)) == links(
                all,
                is_related,
                i as int,
            ),
        decreases total - i,
    {
        let response = codec::copy_range(responses[i].as_slice(), 0, responses[i].len());
        assert(response@ =~= all[i as int]@);
        let ghost before = linked@;
        if response.len() >= SMB2_HEADER_SIZE {
            linked.push(link_response(response, is_related, i == 0, i == total - 1));
        }
        i = i + 1;
        assert(linked@.map_values(|r: LinkedResponse| link_view(r)) =~= links(
            all,
            is_related,
            i as int,
        ));
    }
    let combined: Vec<u8> = Vec::new();
    assert(combined@ =~= Seq::<u8>::empty());
    Ok(CombineStart::Run(CombineRun { linked, done: 0, combined }))
}

impl CombineRun {
    /// Takes the next response. A signature that no longer fits is made anew.
    pub fn step(self, keys: &SigningKeys) -> (step: CombineStep)
        requires
            self.done <= self.linked@.len(),
        ensures
            self.done == self.linked@.len() ==> step == CombineStep::Done(self.combined),
            self.done < self.linked@.len() ==> {
                let next = self.linked@[self.done as int];
                &&& step matches CombineStep::Append(run, response)
                &&& run == self
                &&& if next.changed {
                    signing::re_signs(*keys, next.bytes@, response)
                } else {
                    response matches SignStep::Ready(m) && m@ == next.bytes@
                }
            },
    {
        if self.done == self.linked.len() {
            return CombineStep::Done(self.combined);
        }
        let next = &self.linked[self.done];
        let bytes = codec::copy_range(next.bytes.as_slice(), 0, next.bytes.len());
        assert(bytes@ =~= next.bytes@);
        let response = if next.changed {
            signing::re_sign_response(keys, bytes)
        } else {
            SignStep::Ready(bytes)
        };
        CombineStep::Append(self, response)
    }

    /// Appends a response and its padding.
    pub fn append(self, response: Vec<u8>) -> (run: CombineRun)
        requires
            self.done < self.linked.len(),
        ensures
            run.linked == self.linked,
            run.done == self.done + 1,
            run.combined@ == self.combined@ + response@ + codec::zeros(
                self.linked@[self.done as int].padding as nat,
            ),
    {
        let mut run = self;
        codec::put_bytes(&mut run.combined, response.as_slice());
        let padding: usize = run.linked[run.done].padding;
        codec::put_zeros(&mut run.combined, padding);
        run.done = run.done + 1;
        run
    }
}

/// Responses laid out one behind the other, from position `i` on, each followed
/// by zeros up to a multiple of eight, except the last.
pub open spec fn laid_out(parts: Seq<Seq<u8>>, i: int) -> Seq<u8>
    decreases parts.len() - i,
{
    if i < 0 || i >= parts.len() {
        Seq::empty()
    } else {
        parts[i] + codec::zeros(link_padding(parts[i], i == parts.len() - 1) as nat) + laid_out(
            parts,
            i + 1,
        )
    }
}

/// Where the responses start in a layout whose response `i` starts at `offset`.
pub open spec fn starts(parts: Seq<Seq<u8>>, i: int, offset: int) -> Seq<int>
    decreases parts.len() - i,
{
    if i < 0 || i >= parts.len() {
        Seq::empty()
    } else {
        seq![offset] + starts(
            parts,
            i + 1,
            offset + parts[i].len() + link_padding(parts[i], i == parts.len() - 1),
        )
    }
}

/// Whether each response tells the distance to the next one.
pub open spec fn well_linked(parts: Seq<Seq<u8>>) -> bool {
    forall|i: int|
        0 <= i < parts.len() ==> (#[trigger] parts[i]).len() >= 64 && codec::u32_at(parts[i], 20)
            == link_distance(parts[i], i == parts.len() - 1)
}

/// Linking a response makes it tell the distance to the next one, keeps its
/// length, and keeps everything but the flags and that distance. Of the flags it
/// changes none but the one that marks it as related, which all responses to
/// related commands get but the first.
pub proof fn law_linked_response(response: Seq<u8>, related: bool, first: bool, last: bool)
    requires
        response.len() >= 64,
    ensures
        linked(response, related, first, last).len() == response.len(),
        codec::u32_at(linked(response, related, first, last), 20) == link_distance(response, last),
        codec::u32_at(linked(response, related, first, last), 16) == if related && !first {
            codec::u32_at(response, 16) | Smb2Flags::RELATED_OPERATIONS
        } else {
            codec::u32_at(response, 16)
        },
        forall|i: int|
            0 <= i < response.len() && !(16 <= i < 24) ==> #[trigger] linked(
                response,
                related,
                first,
                last,
            )[i] == response[i],
{
    let r = linked(response, related, first, last);
    assert(r.subrange(20, 24) =~= codec::le32(link_distance(response, last)));
    codec::lemma_read_le32(r, 20, link_distance(response, last));
    if related && !first {
        let flags = codec::u32_at(response, 16) | Smb2Flags::RELATED_OPERATIONS;
        assert(r.subrange(16, 20) =~= codec::le32(flags));
        codec::lemma_read_le32(r, 16, flags);
    } else {
        assert(r[16] == response[16] && r[17] == response[17] && r[18] == response[18] && r[19]
            == response[19]);
    }
}

proof fn lemma_u32_in_context(pre: Seq<u8>, part: Seq<u8>, post: Seq<u8>, i: int)
    requires
        0 <= i,
        i + 4 <= part.len(),
    ensures
        codec::u32_at(pre + part + post, pre.len() + i) == codec::u32_at(part, i),
{
    let whole = pre + part + post;
    assert(forall|k: int| 0 <= k < part.len() ==> whole[pre.len() + k] == part[k]);
    assert(whole[pre.len() + i] == part[i]);
    assert(whole[pre.len() + i + 1] == part[i + 1]);
    assert(whole[pre.len() + i + 2] == part[i + 2]);
    assert(whole[pre.len() + i + 3] == part[i + 3]);
}

/// Following the distances in a combined response leads to exactly the
/// responses that were combined, in their order.
pub proof fn law_combined_response_is_walkable(parts: Seq<Seq<u8>>, i: int, pre: Seq<u8>)
    requires
        0 <= i < parts.len(),
        well_linked(parts),
        pre.len() + laid_out(parts, i).len() < 0x1_0000_0000,
    ensures
        compound::command_offsets(pre + laid_out(parts, i), pre.len() as int) == starts(
            parts,
            i,
            pre.len() as int,
        ),
    decreases parts.len() - i,
{
    let whole = pre + laid_out(parts, i);
    let part = parts[i];
    let last = i == parts.len() - 1;
    let pad = codec::zeros(link_padding(part, last) as nat);
    let rest = laid_out(parts, i + 1);
    let here = pre.len() as int;
    assert(laid_out(parts, i) == part + pad + rest);
    assert(whole =~= pre + part + (pad + rest));
    lemma_u32_in_context(pre, part, pad + rest, 20);
    assert(codec::u32_at(whole, here + 20) == link_distance(part, last));
    if last {
        assert(starts(parts, i + 1, here + part.len()) =~= Seq::<int>::empty());
        assert(starts(parts, i, here) =~= seq![here]);
    } else {
        let distance = part.len() + compound::padding(part.len() as int);
        assert(link_distance(part, last) == distance);
        let longer = pre + part + pad;
        assert(longer.len() == here + distance);
        assert(whole =~= longer + rest);
        law_combined_response_is_walkable(parts, i + 1, longer);
        let next_part = parts[i + 1];
        assert(rest.len() >= next_part.len());
        assert(whole.len() >= here + distance + 64);
        assert(compound::next_distance(whole, here) == distance);
    }
}

/// Every response of a combined one starts at a multiple of eight.
pub proof fn law_combined_responses_are_aligned(parts: Seq<Seq<u8>>, i: int, offset: int)
    requires
        0 <= i,
        offset % 8 == 0,
    ensures
        forall|k: int|
            0 <= k < starts(parts, i, offset).len() ==> #[trigger] starts(parts, i, offset)[k] % 8
                == 0,
    decreases parts.len() - i,
{
    if i < parts.len() {
        let last = i == parts.len() - 1;
        let next = offset + parts[i].len() + link_padding(parts[i], last);
        let tail = starts(parts, i + 1, next);
        if !last {
            assert(next % 8 == 0);
            law_combined_responses_are_aligned(parts, i + 1, next);
        } else {
            assert(tail =~= Seq::<int>::empty());
        }
        assert forall|k: int| 0 <= k < starts(parts, i, offset).len() implies #[trigger] starts(
            parts,
            i,
            offset,
        )[k] % 8 == 0 by {
            if k > 0 {
                assert(starts(parts, i, offset)[k] == tail[k - 1]);
            }
        }
    }
}

/// What appending the first `n` of some responses, each with its padding, comes
/// to.
pub open spec fn appended(parts: Seq<Seq<u8>>, paddings: Seq<int>, n: int) -> Seq<u8>
    decreases n,
{
    if n <= 0 {
        Seq::empty()
    } else {
        appended(parts, paddings, n - 1) + parts[n - 1] + codec::zeros(paddings[n - 1] as nat)
    }
}

/// Whether a message is another one, but for the signature.
pub open spec fn same_but_signature(a: Seq<u8>, b: Seq<u8>) -> bool {
    &&& a.len() == b.len()
    &&& forall|i: int| 0 <= i < a.len() && !(48 <= i < 64) ==> #[trigger] a[i] == b[i]
}

/// Signing a linked response again changes its signature and nothing else.
pub proof fn law_signing_again_keeps_response(
    keys: SigningKeys,
    response: Seq<u8>,
    step: SignStep,
    mac: Seq<u8>,
)
    requires
        response.len() >= 64,
        mac.len() == 16,
        signing::re_signs(keys, response, step),
    ensures
        match step {
            SignStep::Ready(m) => same_but_signature(m@, response),
            SignStep::Sign(p) => same_but_signature(
                codec::overwrite(p.message@, 48, mac),
                response,
            ),
        },
{
}

/// The responses to a compound message, linked, signed again where need be, and
/// appended one after the other, are found again by following the distances
/// between them, and each starts at a multiple of eight. Those to related commands
/// are marked as such, but for the first.
pub proof fn law_combined_responses_are_found(
    responses: Seq<Vec<u8>>,
    related: bool,
    parts: Seq<Seq<u8>>,
    paddings: Seq<int>,
)
    requires
        responses.len() >= 2,
        parts.len() == responses.len(),
        paddings.len() == responses.len(),
        forall|k: int| 0 <= k < responses.len() ==> (#[trigger] responses[k])@.len() >= 64,
        forall|k: int|
            0 <= k < parts.len() ==> same_but_signature(
                #[trigger] parts[k],
                links(responses, related, responses.len() as int)[k].0,
            ),
        forall|k: int|
            0 <= k < parts.len() ==> #[trigger] paddings[k] == links(
                responses,
                related,
                responses.len() as int,
            )[k].1,
        appended(parts, paddings, parts.len() as int).len() < 0x1_0000_0000,
    ensures
        ({
            let combined = appended(parts, paddings, parts.len() as int);
            &&& compound::command_offsets(combined, 0) == starts(parts, 0, 0)
            &&& starts(parts, 0, 0).len() == responses.len()
            &&& forall|k: int|
                0 <= k < parts.len() ==> #[trigger] starts(parts, 0, 0)[k] % 8 == 0
            &&& forall|k: int|
                0 <= k < parts.len() ==> codec::u32_at(#[trigger] parts[k], 16) == if related && k
                    > 0 {
                    codec::u32_at(responses[k]@, 16) | Smb2Flags::RELATED_OPERATIONS
                } else {
                    codec::u32_at(responses[k]@, 16)
                }
        }),
{
    let n = responses.len() as int;
    assert forall|k: int| 0 <= k < n implies (#[trigger] parts[k]).len() >= 64 && codec::u32_at(
        parts[k],
        20,
    ) == link_distance(parts[k], k == n - 1) && paddings[k] == link_padding(parts[k], k == n - 1)
        && codec::u32_at(parts[k], 16) == (if related && k > 0 {
        codec::u32_at(responses[k]@, 16) | Smb2Flags::RELATED_OPERATIONS
    } else {
        codec::u32_at(responses[k]@, 16)
    }) by {
        lemma_link_at(responses, related, n, k);
        law_linked_response(responses[k]@, related, k == 0, k == n - 1);
        let link = linked(responses[k]@, related, k == 0, k == n - 1);
        assert(parts[k][20] == link[20] && parts[k][21] == link[21] && parts[k][22] == link[22]
            && parts[k][23] == link[23]);
        assert(parts[k][16] == link[16] && parts[k][17] == link[17] && parts[k][18] == link[18]
            && parts[k][19] == link[19]);
        assert(paddings[k] == link_padding(responses[k]@, k == n - 1));
    }
    lemma_appended_is_laid_out(parts, paddings, n);
    let combined = appended(parts, paddings, n);
    assert(Seq::<u8>::empty() + laid_out(parts, 0) =~= combined);
    law_combined_response_is_walkable(parts, 0, Seq::empty());
    law_combined_responses_are_aligned(parts, 0, 0);
    lemma_starts_len(parts, 0, 0);
}

/// Where no response is left out, the links stand in the order of the responses.
proof fn lemma_link_at(responses: Seq<Vec<u8>>, related: bool, n: int, k: int)
    requires
        0 <= k < n <= responses.len(),
        forall|j: int| 0 <= j < responses.len() ==> (#[trigger] responses[j])@.len() >= 64,
    ensures
        links(responses, related, n).len() == n,
        links(responses, related, n)[k].0 == linked(
            responses[k]@,
            related,
            k == 0,
            k == responses.len() - 1,
        ),
        links(responses, related, n)[k].1 == link_padding(responses[k]@, k == responses.len() - 1),
    decreases n,
{
    assert(responses[n - 1]@.len() >= 64);
    if n == 1 {
        assert(links(responses, related, 0).len() == 0);
    } else if k < n - 1 {
        lemma_link_at(responses, related, n - 1, k);
    } else {
        lemma_link_at(responses, related, n - 1, 0);
    }
}

proof fn lemma_appended_is_laid_out(parts: Seq<Seq<u8>>, paddings: Seq<int>, n: int)
    requires
        0 <= n <= parts.len(),
        paddings.len() == parts.len(),
        forall|k: int|
            0 <= k < parts.len() ==> #[trigger] paddings[k] == link_padding(
                parts[k],
                k == parts.len() - 1,
            ),
    ensures
        appended(parts, paddings, n) + laid_out(parts, n) == laid_out(parts, 0),
    decreases n,
{
    if n == 0 {
        assert(Seq::<u8>::empty() + laid_out(parts, 0) =~= laid_out(parts, 0));
    } else {
        lemma_appended_is_laid_out(parts, paddings, n - 1);
        let pad = codec::zeros(paddings[n - 1] as nat);
        assert(laid_out(parts, n - 1) == parts[n - 1] + pad + laid_out(parts, n));
        assert(appended(parts, paddings, n) + laid_out(parts, n) =~= appended(
            parts,
            paddings,
            n - 1,
        ) + laid_out(parts, n - 1));
    }
    if n == parts.len() {
        assert(appended(parts, paddings, n) + laid_out(parts, n) =~= appended(parts, paddings, n));
    }
}

proof fn lemma_starts_len(parts: Seq<Seq<u8>>, i: int, offset: int)
    requires
        0 <= i <= parts.len(),
    ensures
        starts(parts, i, offset).len() == parts.len() - i,
    decreases parts.len() - i,
{
    if i < parts.len() {
        lemma_starts_len(
            parts,
            i + 1,
            offset + parts[i].len() + link_padding(parts[i], i == parts.len() - 1),
        );
    }
}

/// All responses of a message are combined, in order, if each has a header: the
/// first one unmarked, each further one of related commands marked (bit 2 of
/// the flags at 16), and each but the last with the distance to the next one
/// at 20, which is its length up to a multiple of eight.
pub proof fn law_all_responses_are_linked(responses: Seq<Vec<u8>>, related: bool, n: int)
    requires
        0 <= n <= responses.len(),
        forall|i: int| 0 <= i < responses.len() ==> (#[trigger] responses[i])@.len() >= 64,
    ensures
        links(responses, related, n).len() == n,
        forall|i: int|
            0 <= i < n ==> {
                let bytes = (#[trigger] links(responses, related, n)[i]).0;
                let flags = codec::u32_at(responses[i]@, 16);
                let len = responses[i]@.len();
                &&& bytes.len() == len
                &&& codec::u32_at(bytes, 16) == if related && i > 0 {
                    flags | 4
                } else {
                    flags
                }
                &&& i == responses.len() - 1 ==> codec::u32_at(bytes, 20) == 0
                    && links(responses, related, n)[i].1 == 0
                &&& i < responses.len() - 1 && len + 7 <= u32::MAX ==> len <= codec::u32_at(
                    bytes,
                    20,
                ) < len + 8 && codec::u32_at(bytes, 20) % 8 == 0 && codec::u32_at(bytes, 20) == len
                    + links(responses, related, n)[i].1
            },
    decreases n,
{
    if n > 0 {
        law_all_responses_are_linked(responses, related, n - 1);
        let before = links(responses, related, n - 1);
        let all = links(responses, related, n);
        let response = responses[n - 1]@;
        law_linked_response(response, related, n == 1, n == responses.len());
        assert(all.len() == n);
        assert forall|i: int| 0 <= i < n implies {
            let bytes = (#[trigger] all[i]).0;
            let flags = codec::u32_at(responses[i]@, 16);
            let len = responses[i]@.len();
            &&& bytes.len() == len
            &&& codec::u32_at(bytes, 16) == if related && i > 0 {
                flags | 4
            } else {
                flags
            }
            &&& i == responses.len() - 1 ==> codec::u32_at(bytes, 20) == 0 && all[i].1 == 0
            &&& i < responses.len() - 1 && len + 7 <= u32::MAX ==> len <= codec::u32_at(bytes, 20)
                < len + 8 && codec::u32_at(bytes, 20) % 8 == 0 && codec::u32_at(bytes, 20) == len
                + all[i].1
        } by {
            if i < n - 1 {
                assert(all[i] == before[i]);
            }
        }
    }
}

/// A response that is said not to change when it is linked is the same
/// afterwards; a first one that is the last too, and leads to no other, is never
/// said to change.
pub proof fn law_unchanged_responses_are_the_same(
    response: Seq<u8>,
    related: bool,
    first: bool,
    last: bool,
)
    requires
        response.len() >= 64,
    ensures
        !link_changes_header(response, related, first, last) ==> linked(
            response,
            related,
            first,
            last,
        ) == response,
        first && last && codec::u32_at(response, 20) == 0 ==> !link_changes_header(
            response,
            related,
            first,
            last,
        ),
{
    if !link_changes_header(response, related, first, last) {
        codec::lemma_write_u32_at(response, 20);
        let next = codec::le32(0);
        assert forall|k: int| 20 <= k < 24 implies #[trigger] response[k] == next[k - 20] by {
            assert(response.subrange(20, 24)[k - 20] == response[k]);
        }
        assert(linked(response, related, first, last) =~= response);
    }
}

} // verus!
