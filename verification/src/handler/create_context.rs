//! Create contexts: the named pieces of data that a CREATE request and its
//! response can carry.

use vstd::prelude::*;

use crate::codec;

verus! {

/// A create context of a request, as far as the server knows it.
#[derive(Clone, Copy, Debug)]
pub enum CreateContext {
    /// A durable handle is wanted.
    DurableHandleRequest,
    /// The client comes back to a durable handle.
    DurableHandleReconnect { persistent_id: u64 },
    /// A durable handle is wanted, with a timeout in milliseconds and a GUID to
    /// come back with.
    DurableHandleRequestV2 { timeout: u32, flags: u32, guid: [u8; 16] },
    /// The client comes back to a durable handle with its GUID.
    DurableHandleReconnectV2 { persistent: u64, create_guid: [u8; 16] },
    /// A lease is wanted.
    LeaseRequest { lease_key: [u8; 16], lease_state: u32 },
    /// A lease that has an epoch is wanted.
    LeaseRequestV2 { key: [u8; 16], state: u32 },
    /// Room is to be reserved for a new file.
    AllocationSize { allocation_size: u64 },
    /// The client wants to know what it may do with the file.
    QueryMaximalAccess,
    /// Anything else.
    Other,
}

/// The flag of a durable handle that outlives the server.
pub const DURABLE_FLAG_PERSISTENT: u32 = 0x0000_0002;

pub open spec fn name_dhnq() -> Seq<u8> {
    seq![0x44u8, 0x48u8, 0x6Eu8, 0x51u8]
}

pub open spec fn name_dhnc() -> Seq<u8> {
    seq![0x44u8, 0x48u8, 0x6Eu8, 0x43u8]
}

pub open spec fn name_dh2q() -> Seq<u8> {
    seq![0x44u8, 0x48u8, 0x32u8, 0x51u8]
}

pub open spec fn name_dh2c() -> Seq<u8> {
    seq![0x44u8, 0x48u8, 0x32u8, 0x43u8]
}

pub open spec fn name_rqls() -> Seq<u8> {
    seq![0x52u8, 0x71u8, 0x4Cu8, 0x73u8]
}

pub open spec fn name_alsi() -> Seq<u8> {
    seq![0x41u8, 0x6Cu8, 0x53u8, 0x69u8]
}

pub open spec fn name_mxac() -> Seq<u8> {
    seq![0x4Du8, 0x78u8, 0x41u8, 0x63u8]
}

/// A context as it stands in a message: a name and data.
#[verifier::ext_equal]
pub struct RawContext {
    pub name: Seq<u8>,
    pub data: Seq<u8>,
}

/// Whether a context is what a name and data stand for. A known name whose data
/// is too short has no meaning.
pub open spec fn is_context(context: CreateContext, raw: RawContext) -> bool {
    let n = raw.data.len();
    if raw.name == name_dhnq() {
        context == CreateContext::DurableHandleRequest
    } else if raw.name == name_dhnc() && n >= 16 {
        context matches CreateContext::DurableHandleReconnect { persistent_id } && persistent_id
            == codec::u64_at(raw.data, 0)
    } else if raw.name == name_dh2q() && n >= 32 {
        context matches CreateContext::DurableHandleRequestV2 { timeout, flags, guid } && timeout
            == codec::u32_at(raw.data, 0) && flags == codec::u32_at(raw.data, 4) && guid@
            == raw.data.subrange(16, 32)
    } else if raw.name == name_dh2c() && n >= 36 {
        context matches CreateContext::DurableHandleReconnectV2 { persistent, create_guid }
            && persistent == codec::u64_at(raw.data, 0) && create_guid@ == raw.data.subrange(16, 32)
    } else if raw.name == name_rqls() && n >= 52 {
        context matches CreateContext::LeaseRequestV2 { key, state } && key@ == raw.data.subrange(
            0,
            16,
        ) && state == codec::u32_at(raw.data, 16)
    } else if raw.name == name_rqls() && n >= 32 {
        context matches CreateContext::LeaseRequest { lease_key, lease_state } && lease_key@
            == raw.data.subrange(0, 16) && lease_state == codec::u32_at(raw.data, 16)
    } else if raw.name == name_alsi() && n >= 8 {
        context matches CreateContext::AllocationSize { allocation_size } && allocation_size
            == codec::u64_at(raw.data, 0)
    } else if raw.name == name_mxac() {
        context == CreateContext::QueryMaximalAccess
    } else {
        context == CreateContext::Other
    }
}

/// The context that stands at an offset, if it lies inside the data: where its
/// name and its data are is counted from its start.
pub open spec fn raw_context_at(data: Seq<u8>, at: int) -> Option<RawContext> {
    if at + 16 > data.len() {
        None
    } else {
        let name_start = at + codec::u16_at(data, at + 4);
        let name_end = name_start + codec::u16_at(data, at + 6);
        let data_start = at + codec::u16_at(data, at + 10);
        let data_end = data_start + codec::u32_at(data, at + 12);
        if name_end > data.len() || data_end > data.len() {
            None
        } else {
            Some(
                RawContext {
                    name: data.subrange(name_start, name_end),
                    data: data.subrange(data_start, data_end),
                },
            )
        }
    }
}

/// The contexts from an offset on: each one says how far the next one is, the
/// last one says zero. There are none if one of them reaches outside the data.
pub open spec fn raw_contexts(data: Seq<u8>, at: int) -> Option<Seq<RawContext>>
    decreases data.len() - at,
{
    if at < 0 {
        None
    } else {
        match raw_context_at(data, at) {
            None => None,
            Some(context) => {
                let next = codec::u32_at(data, at);
                if next == 0 {
                    Some(seq![context])
                } else if at + next > data.len() {
                    None
                } else {
                    match raw_contexts(data, at + next) {
                        None => None,
                        Some(rest) => Some(seq![context] + rest),
                    }
                }
            },
        }
    }
}

/// Whether contexts are what raw contexts stand for, one by one.
pub open spec fn are_contexts(contexts: Seq<CreateContext>, raw: Seq<RawContext>) -> bool {
    contexts.len() == raw.len() && forall|i: int|
        0 <= i < raw.len() ==> is_context(#[trigger] contexts[i], raw[i])
}

fn same_name(data: &[u8], at: usize, len: usize, a: u8, b: u8, c: u8, d: u8) -> (same: bool)
    requires
        at + len <= data.len(),
    ensures
        same == (data@.subrange(at as int, at + len) == seq![a, b, c, d]),
{
    let same = len == 4 && data[at] == a && data[at + 1] == b && data[at + 2] == c && data[at + 3]
        == d;
    proof {
        let name = data@.subrange(at as int, at + len);
        if same {
            assert(name =~= seq![a, b, c, d]);
        } else if name == seq![a, b, c, d] {
            assert(name.len() == 4);
            assert(name[0] == a && name[1] == b && name[2] == c && name[3] == d);
        }
    }
    same
}

proof fn lemma_inner_subrange(data: Seq<u8>, at: int, end: int, i: int, j: int)
    requires
        0 <= at <= end <= data.len(),
        0 <= i <= j <= end - at,
    ensures
        data.subrange(at, end).subrange(i, j) == data.subrange(at + i, at + j),
{
    assert(data.subrange(at, end).subrange(i, j) =~= data.subrange(at + i, at + j));
}

#[verifier::rlimit(40)]
fn parse_context(
    data: &[u8],
    name_start: usize,
    name_len: usize,
    data_start: usize,
    data_len: usize,
) -> (context: CreateContext)
    requires
        name_start + name_len <= data.len(),
        data_start + data_len <= data.len(),
    ensures
        is_context(
            context,
            (RawContext {
                name: data@.subrange(name_start as int, name_start + name_len),
                data: data@.subrange(data_start as int, data_start + data_len),
            }),
        ),
{
    let ghost inner = data@.subrange(data_start as int, data_start + data_len);
    let ghost at = data_start as int;
    let ghost end = data_start + data_len;
    if same_name(data, name_start, name_len, 0x44, 0x48, 0x6E, 0x51) {
        CreateContext::DurableHandleRequest
    } else if same_name(data, name_start, name_len, 0x44, 0x48, 0x6E, 0x43) && data_len >= 16 {
        CreateContext::DurableHandleReconnect { persistent_id: codec::get_u64(data, data_start) }
    } else if same_name(data, name_start, name_len, 0x44, 0x48, 0x32, 0x51) && data_len >= 32 {
        proof {
            lemma_inner_subrange(data@, at, end, 16, 32);
        }
        CreateContext::DurableHandleRequestV2 {
            timeout: codec::get_u32(data, data_start),
            flags: codec::get_u32(data, data_start + 4),
            guid: codec::get_array16(data, data_start + 16),
        }
    } else if same_name(data, name_start, name_len, 0x44, 0x48, 0x32, 0x43) && data_len >= 36 {
        proof {
            lemma_inner_subrange(data@, at, end, 16, 32);
        }
        CreateContext::DurableHandleReconnectV2 {
            persistent: codec::get_u64(data, data_start),
            create_guid: codec::get_array16(data, data_start + 16),
        }
    } else if same_name(data, name_start, name_len, 0x52, 0x71, 0x4C, 0x73) && data_len >= 52 {
        proof {
            lemma_inner_subrange(data@, at, end, 0, 16);
        }
        CreateContext::LeaseRequestV2 {
            key: codec::get_array16(data, data_start),
            state: codec::get_u32(data, data_start + 16),
        }
    } else if same_name(data, name_start, name_len, 0x52, 0x71, 0x4C, 0x73) && data_len >= 32 {
        proof {
            lemma_inner_subrange(data@, at, end, 0, 16);
        }
        CreateContext::LeaseRequest {
            lease_key: codec::get_array16(data, data_start),
            lease_state: codec::get_u32(data, data_start + 16),
        }
    } else if same_name(data, name_start, name_len, 0x41, 0x6C, 0x53, 0x69) && data_len >= 8 {
        CreateContext::AllocationSize { allocation_size: codec::get_u64(data, data_start) }
    } else if same_name(data, name_start, name_len, 0x4D, 0x78, 0x41, 0x63) {
        CreateContext::QueryMaximalAccess
    } else {
        CreateContext::Other
    }
}

/// Reads the contexts of a CREATE request.
#[verifier::loop_isolation(false)]
pub fn parse_create_contexts(data: &[u8]) -> (r: Option<Vec<CreateContext>>)
    ensures
        match raw_contexts(data@, 0) {
            None => r is None,
            Some(raw) => r matches Some(contexts) && are_contexts(contexts@, raw),
        },
{
    let mut contexts: Vec<CreateContext> = Vec::new();
    let mut at: usize = 0;
    let ghost mut before: Seq<RawContext> = Seq::empty();
    loop
        invariant
            are_contexts(contexts@, before),
            at <= usize::MAX,
            match raw_contexts(data@, at as int) {
                None => raw_contexts(data@, 0) is None,
                Some(rest) => raw_contexts(data@, 0) == Some(before + rest),
            },
        decreases data.len() - at,
    {
        if at >= data.len() || data.len() - at < 16 {
            return None;
        }
        let next: u32 = codec::get_u32(data, at);
        let room: u64 = (data.len() - at) as u64;
        let name_offset: u16 = codec::get_u16(data, at + 4);
        let name_len: u16 = codec::get_u16(data, at + 6);
        let data_offset: u16 = codec::get_u16(data, at + 10);
        let data_len: u32 = codec::get_u32(data, at + 12);
        if name_offset as u64 + name_len as u64 > room || data_offset as u64 + data_len as u64
            > room {
            return None;
        }
        let context = parse_context(
            data,
            at + name_offset as usize,
            name_len as usize,
            at + data_offset as usize,
            data_len as usize,
        );
        let ghost raw = raw_context_at(data@, at as int)->0;
        contexts.push(context);
        proof {
            assert(is_context(context, raw));
            let now = before.push(raw);
            assert forall|i: int| 0 <= i < now.len() implies is_context(
                #[trigger] contexts@[i],
                now[i],
            ) by {
                if i < before.len() {
                    assert(now[i] == before[i]);
                }
            }
        }
        if next == 0 {
            assert(before + seq![raw] =~= before.push(raw));
            return Some(contexts);
        }
        if next as u64 >= room {
            assert(raw_context_at(data@, at + next) is None);
            return None;
        }
        proof {
            match raw_contexts(data@, at + next) {
                None => {},
                Some(rest) => {
                    assert(before + (seq![raw] + rest) =~= before.push(raw) + rest);
                },
            }
            before = before.push(raw);
        }
        at = at + next as usize;
    }
}

/// The distance from one context to the next: contexts start at multiples of
/// eight.
pub open spec fn context_stride(data_len: int) -> int {
    (24 + data_len + 7) / 8 * 8
}

/// One context: the distance to the next one, where its name and its data are,
/// the name, padding, and the data.
#[verifier::opaque]
pub open spec fn context_bytes(context: RawContext, next: int) -> Seq<u8> {
    codec::le32(next as u32) + codec::le16(16) + codec::le16(4) + codec::le16(0) + codec::le16(24)
        + codec::le32(context.data.len() as u32) + context.name + codec::zeros(4) + context.data
}

/// Contexts one behind the other.
pub open spec fn built_contexts(contexts: Seq<RawContext>) -> Seq<u8>
    decreases contexts.len(),
{
    if contexts.len() == 0 {
        Seq::empty()
    } else if contexts.len() == 1 {
        context_bytes(contexts[0], 0)
    } else {
        let stride = context_stride(contexts[0].data.len() as int);
        context_bytes(contexts[0], stride) + codec::zeros(
            (stride - 24 - contexts[0].data.len()) as nat,
        ) + built_contexts(contexts.skip(1))
    }
}

/// Whether a context can be built: its name has four bytes and its data is not
/// too long.
pub open spec fn buildable(context: RawContext) -> bool {
    context.name.len() == 4 && context.data.len() <= 0xFFFF
}

/// A context of a response.
#[derive(Debug)]
pub struct ResponseContext {
    pub name: [u8; 4],
    pub data: Vec<u8>,
}

impl ResponseContext {
    pub open spec fn raw(self) -> RawContext {
        RawContext { name: self.name@, data: self.data@ }
    }
}

fn put_context(bytes: &mut Vec<u8>, context: &ResponseContext, next: u32)
    requires
        buildable(context.raw()),
    ensures
        final(bytes)@ == old(bytes)@ + context_bytes(context.raw(), next as int),
{
    codec::put_u32(bytes, next);
    codec::put_u16(bytes, 16);
    codec::put_u16(bytes, 4);
    codec::put_u16(bytes, 0);
    codec::put_u16(bytes, 24);
    codec::put_u32(bytes, context.data.len() as u32);
    codec::put_bytes(bytes, context.name.as_slice());
    codec::put_zeros(bytes, 4);
    codec::put_bytes(bytes, context.data.as_slice());
    proof {
        reveal(context_bytes);
    }
    assert(bytes@ =~= old(bytes)@ + context_bytes(context.raw(), next as int));
}

/// Collects the contexts of a CREATE response.
#[derive(Debug)]
pub struct CreateContextBuilder {
    pub contexts: Vec<ResponseContext>,
}

/// The context that grants a durable handle.
pub open spec fn durable_context() -> RawContext {
    RawContext { name: name_dhnq(), data: codec::zeros(8) }
}

/// The context that grants a durable handle with a timeout.
pub open spec fn durable_v2_context(timeout: u32, flags: u32) -> RawContext {
    RawContext { name: name_dh2q(), data: codec::le32(timeout) + codec::le32(flags) }
}

/// The context that grants a lease.
pub open spec fn lease_context(key: Seq<u8>, state: u32, flags: u32) -> RawContext {
    RawContext {
        name: name_rqls(),
        data: key + codec::le32(state) + codec::le32(flags) + codec::le64(0),
    }
}

/// The context that grants a lease with an epoch.
pub open spec fn lease_v2_context(
    key: Seq<u8>,
    state: u32,
    flags: u32,
    parent_key: Seq<u8>,
    epoch: u16,
) -> RawContext {
    RawContext {
        name: name_rqls(),
        data: key + codec::le32(state) + codec::le32(flags) + codec::le64(0) + parent_key
            + codec::le16(epoch) + codec::le16(0),
    }
}

/// The context that says what the client may do with the file.
pub open spec fn maximal_access_context(status: u32, access: u32) -> RawContext {
    RawContext { name: name_mxac(), data: codec::le32(status) + codec::le32(access) }
}

impl CreateContextBuilder {
    /// The contexts so far.
    pub open spec fn view(&self) -> Seq<RawContext> {
        Seq::new(self.contexts@.len(), |i: int| self.contexts@[i].raw())
    }

    /// Whether all contexts so far can be built.
    pub open spec fn wf(self) -> bool {
        forall|i: int| 0 <= i < self.contexts@.len() ==> buildable((#[trigger] self.contexts@[i]).raw())
    }

    pub fn new() -> (b: Self)
        ensures
            b.wf(),
            b@ == Seq::<RawContext>::empty(),
    {
        let b = CreateContextBuilder { contexts: Vec::new() };
        assert(b@ =~= Seq::<RawContext>::empty());
        b
    }

    fn add_context(&mut self, name: [u8; 4], data: Vec<u8>)
        requires
            old(self).wf(),
            data@.len() <= 0xFFFF,
        ensures
            final(self).wf(),
            final(self)@ == old(self)@.push((RawContext { name: name@, data: data@ })),
    {
        let context = ResponseContext { name, data };
        self.contexts.push(context);
        assert(self@ =~= old(self)@.push(context.raw()));
    }

    pub fn add_durable_handle_response(&mut self)
        requires
            old(self).wf(),
        ensures
            final(self).wf(),
            final(self)@ == old(self)@.push(durable_context()),
    {
        let mut data: Vec<u8> = Vec::new();
        codec::put_zeros(&mut data, 8);
        let name: [u8; 4] = [0x44, 0x48, 0x6E, 0x51];
        assert(data@ =~= codec::zeros(8));
        assert(name@ =~= name_dhnq());
        self.add_context(name, data);
    }

    pub fn add_durable_handle_response_v2(&mut self, timeout: u32, flags: u32)
        requires
            old(self).wf(),
        ensures
            final(self).wf(),
            final(self)@ == old(self)@.push(durable_v2_context(timeout, flags)),
    {
        let mut data: Vec<u8> = Vec::new();
        codec::put_u32(&mut data, timeout);
        codec::put_u32(&mut data, flags);
        let name: [u8; 4] = [0x44, 0x48, 0x32, 0x51];
        assert(data@ =~= durable_v2_context(timeout, flags).data);
        assert(name@ =~= name_dh2q());
        self.add_context(name, data);
    }

    pub fn add_lease_response(&mut self, key: &[u8; 16], state: u32, flags: u32)
        requires
            old(self).wf(),
        ensures
            final(self).wf(),
            final(self)@ == old(self)@.push(lease_context(key@, state, flags)),
    {
        let mut data: Vec<u8> = Vec::new();
        codec::put_bytes(&mut data, key.as_slice());
        codec::put_u32(&mut data, state);
        codec::put_u32(&mut data, flags);
        codec::put_u64(&mut data, 0);
        let name: [u8; 4] = [0x52, 0x71, 0x4C, 0x73];
        assert(data@ =~= lease_context(key@, state, flags).data);
        assert(name@ =~= name_rqls());
        self.add_context(name, data);
    }

    pub fn add_lease_response_v2(
        &mut self,
        key: &[u8; 16],
        state: u32,
        flags: u32,
        parent_key: &[u8; 16],
        epoch: u16,
    )
        requires
            old(self).wf(),
        ensures
            final(self).wf(),
            final(self)@ == old(self)@.push(
                lease_v2_context(key@, state, flags, parent_key@, epoch),
            ),
    {
        let mut data: Vec<u8> = Vec::new();
        codec::put_bytes(&mut data, key.as_slice());
        codec::put_u32(&mut data, state);
        codec::put_u32(&mut data, flags);
        codec::put_u64(&mut data, 0);
        codec::put_bytes(&mut data, parent_key.as_slice());
        codec::put_u16(&mut data, epoch);
        codec::put_u16(&mut data, 0);
        let name: [u8; 4] = [0x52, 0x71, 0x4C, 0x73];
        assert(data@ =~= lease_v2_context(key@, state, flags, parent_key@, epoch).data);
        assert(name@ =~= name_rqls());
        self.add_context(name, data);
    }

    pub fn add_maximal_access_response(&mut self, status: u32, access: u32)
        requires
            old(self).wf(),
        ensures
            final(self).wf(),
            final(self)@ == old(self)@.push(maximal_access_context(status, access)),
    {
        let mut data: Vec<u8> = Vec::new();
        codec::put_u32(&mut data, status);
        codec::put_u32(&mut data, access);
        let name: [u8; 4] = [0x4D, 0x78, 0x41, 0x63];
        assert(data@ =~= maximal_access_context(status, access).data);
        assert(name@ =~= name_mxac());
        self.add_context(name, data);
    }

    /// Puts the contexts one behind the other.
    pub fn build(&self) -> (bytes: Vec<u8>)
        requires
            self.wf(),
        ensures
            bytes@ == built_contexts(self@),
    {
        let mut bytes: Vec<u8> = Vec::new();
        let count: usize = self.contexts.len();
        let mut i: usize = 0;
        assert(self@.skip(0) =~= self@);
        assert(bytes@ + built_contexts(self@) =~= built_contexts(self@));
        while i < count
            invariant
                i <= count,
                count == self.contexts.len(),
                self.wf(),
                bytes@ + built_contexts(self@.skip(i as int)) == built_contexts(self@),
            decreases count - i,
        {
            let context = &self.contexts[i];
            let ghost raw = context.raw();
            let ghost rest = self@.skip(i as int);
            let ghost start = bytes@;
            assert(rest[0] == raw);
            assert(rest.skip(1) =~= self@.skip(i + 1));
            assert(buildable(raw));
            let data_len: usize = context.data.len();
            let last = i + 1 == count;
            let stride: usize = (24 + data_len + 7) / 8 * 8;
            let next: u32 = if last {
                0
            } else {
                stride as u32
            };
            put_context(&mut bytes, context, next);
            if !last {
                let ghost padded = codec::zeros((stride - 24 - data_len) as nat);
                codec::put_zeros(&mut bytes, stride - 24 - data_len);
                assert(bytes@ + built_contexts(self@.skip(i + 1)) =~= start + (context_bytes(
                    raw,
                    stride as int,
                ) + padded + built_contexts(self@.skip(i + 1))));
            } else {
                assert(rest.len() == 1);
                assert(self@.skip(i + 1).len() == 0);
                assert(bytes@ + built_contexts(self@.skip(i + 1)) =~= bytes@);
            }
            i = i + 1;
        }
        assert(self@.skip(i as int).len() == 0);
        assert(bytes@ + built_contexts(self@.skip(i as int)) =~= bytes@);
        bytes
    }
}

proof fn lemma_context_fields(context: RawContext, next: u32, before: Seq<u8>, after: Seq<u8>)
    requires
        buildable(context),
    ensures
        ({
            let all = before + context_bytes(context, next as int) + after;
            &&& context_bytes(context, next as int).len() == 24 + context.data.len()
            &&& codec::u32_at(all, before.len() as int) == next
            &&& raw_context_at(all, before.len() as int) == Some(context)
        }),
{
    reveal(context_bytes);
    let bytes = context_bytes(context, next as int);
    let all = before + bytes + after;
    let at = before.len() as int;
    assert(bytes.len() == 24 + context.data.len());
    assert(all.subrange(at, at + 4) =~= codec::le32(next));
    assert(all.subrange(at + 4, at + 6) =~= codec::le16(16));
    assert(all.subrange(at + 6, at + 8) =~= codec::le16(4));
    assert(all.subrange(at + 10, at + 12) =~= codec::le16(24));
    assert(all.subrange(at + 12, at + 16) =~= codec::le32(context.data.len() as u32));
    codec::lemma_read_le32(all, at, next);
    codec::lemma_read_le16(all, at + 4, 16);
    codec::lemma_read_le16(all, at + 6, 4);
    codec::lemma_read_le16(all, at + 10, 24);
    codec::lemma_read_le32(all, at + 12, context.data.len() as u32);
    assert(all.subrange(at + 16, at + 20) =~= context.name);
    assert(all.subrange(at + 24, at + 24 + context.data.len()) =~= context.data);
}

proof fn lemma_built_contexts_read_back(contexts: Seq<RawContext>, before: Seq<u8>)
    requires
        contexts.len() > 0,
        forall|i: int| 0 <= i < contexts.len() ==> buildable(#[trigger] contexts[i]),
    ensures
        raw_contexts(before + built_contexts(contexts), before.len() as int) == Some(contexts),
    decreases contexts.len(),
{
    let all = before + built_contexts(contexts);
    let first = contexts[0];
    assert(buildable(first));
    if contexts.len() == 1 {
        assert(all =~= before + context_bytes(first, 0) + Seq::<u8>::empty());
        lemma_context_fields(first, 0, before, Seq::empty());
        assert(seq![first] =~= contexts);
    } else {
        let stride = context_stride(first.data.len() as int);
        let padding = codec::zeros((stride - 24 - first.data.len()) as nat);
        let rest = built_contexts(contexts.skip(1));
        lemma_context_fields(first, stride as u32, before, padding + rest);
        assert(all =~= before + context_bytes(first, stride) + (padding + rest));
        let front = before + context_bytes(first, stride) + padding;
        assert(all =~= front + rest);
        assert(front.len() == before.len() + stride);
        assert forall|i: int| 0 <= i < contexts.skip(1).len() implies buildable(
            #[trigger] contexts.skip(1)[i],
        ) by {
            assert(contexts.skip(1)[i] == contexts[i + 1]);
        }
        lemma_built_contexts_read_back(contexts.skip(1), front);
        assert(seq![first] + contexts.skip(1) =~= contexts);
    }
}

/// A client that walks through the contexts of a response finds each of them,
/// in order.
pub proof fn law_contexts_round_trip(contexts: Seq<RawContext>)
    requires
        contexts.len() > 0,
        forall|i: int| 0 <= i < contexts.len() ==> buildable(#[trigger] contexts[i]),
    ensures
        raw_contexts(built_contexts(contexts), 0) == Some(contexts),
{
    let none = Seq::<u8>::empty();
    assert(none + built_contexts(contexts) =~= built_contexts(contexts));
    lemma_built_contexts_read_back(contexts, none);
}

/// A lease context that is read back grants what was asked for: its key and its
/// state.
pub proof fn law_lease_context_round_trip(key: Seq<u8>, state: u32, flags: u32, context: CreateContext)
    requires
        key.len() == 16,
        is_context(context, lease_context(key, state, flags)),
    ensures
        context matches CreateContext::LeaseRequest { lease_key, lease_state } && lease_key@ == key
            && lease_state == state,
{
    let data = lease_context(key, state, flags).data;
    assert(data.len() == 32);
    assert(data.subrange(0, 16) =~= key);
    assert(data.subrange(16, 20) =~= codec::le32(state));
    codec::lemma_read_le32(data, 16, state);
    assert(name_rqls()[0] != name_dhnq()[0]);
    assert(name_rqls()[0] != name_dhnc()[0]);
    assert(name_rqls()[0] != name_dh2q()[0]);
    assert(name_rqls()[0] != name_dh2c()[0]);
}

/// Where a client finds what a context holds: how far the next one is stands at
/// 0, where the name starts and how long it is at 4 and 6, and where the data
/// starts and how long it is at 10 and 12.
#[verifier::rlimit(50)]
pub proof fn law_context_on_wire(context: RawContext, next: u32)
    requires
        buildable(context),
    ensures
        ({
            let bytes = context_bytes(context, next as int);
            let name = codec::u16_at(bytes, 4) as int;
            let name_len = codec::u16_at(bytes, 6) as int;
            let data = codec::u16_at(bytes, 10) as int;
            let data_len = codec::u32_at(bytes, 12) as int;
            &&& codec::u32_at(bytes, 0) == next
            &&& name_len == 4
            &&& bytes.subrange(name, name + name_len) == context.name
            &&& data_len == context.data.len()
            &&& data % 8 == 0
            &&& bytes.subrange(data, data + data_len) == context.data
            &&& bytes.len() == data + data_len
        }),
{
    reveal(context_bytes);
    let bytes = context_bytes(context, next as int);
    assert(bytes.subrange(0, 4) =~= codec::le32(next));
    assert(bytes.subrange(4, 6) =~= codec::le16(16));
    assert(bytes.subrange(6, 8) =~= codec::le16(4));
    assert(bytes.subrange(10, 12) =~= codec::le16(24));
    assert(bytes.subrange(12, 16) =~= codec::le32(context.data.len() as u32));
    codec::lemma_read_le32(bytes, 0, next);
    codec::lemma_read_le16(bytes, 4, 16);
    codec::lemma_read_le16(bytes, 6, 4);
    codec::lemma_read_le16(bytes, 10, 24);
    codec::lemma_read_le32(bytes, 12, context.data.len() as u32);
    assert(bytes.subrange(16, 20) =~= context.name);
    assert(bytes.subrange(24, 24 + context.data.len() as int) =~= context.data);
}

/// Contexts start at multiples of eight: the distance to the next one holds all
/// of a context and less than eight bytes more.
pub proof fn law_contexts_are_aligned(data_len: int)
    requires
        0 <= data_len,
    ensures
        context_stride(data_len) % 8 == 0,
        24 + data_len <= context_stride(data_len) < 24 + data_len + 8,
{
}

/// The names of the contexts that the server knows, letter by letter: `DHnQ`,
/// `DHnC`, `DH2Q`, `DH2C`, `RqLs`, `AlSi` and `MxAc`. Which of them a context
/// bears, and how long its data is, decides what it asks for.
#[verifier::rlimit(50)]
pub proof fn law_context_names(context: CreateContext, raw: RawContext)
    requires
        is_context(context, raw),
    ensures
        context is DurableHandleRequest <==> raw.name == seq![
            'D' as u8,
            'H' as u8,
            'n' as u8,
            'Q' as u8,
        ],
        context is DurableHandleReconnect <==> raw.name == seq![
            'D' as u8,
            'H' as u8,
            'n' as u8,
            'C' as u8,
        ] && raw.data.len() >= 16,
        context is DurableHandleRequestV2 <==> raw.name == seq![
            'D' as u8,
            'H' as u8,
            '2' as u8,
            'Q' as u8,
        ] && raw.data.len() >= 32,
        context is DurableHandleReconnectV2 <==> raw.name == seq![
            'D' as u8,
            'H' as u8,
            '2' as u8,
            'C' as u8,
        ] && raw.data.len() >= 36,
        context is LeaseRequestV2 <==> raw.name == seq![
            'R' as u8,
            'q' as u8,
            'L' as u8,
            's' as u8,
        ] && raw.data.len() >= 52,
        context is LeaseRequest <==> raw.name == seq![
            'R' as u8,
            'q' as u8,
            'L' as u8,
            's' as u8,
        ] && 32 <= raw.data.len() < 52,
        context is AllocationSize <==> raw.name == seq![
            'A' as u8,
            'l' as u8,
            'S' as u8,
            'i' as u8,
        ] && raw.data.len() >= 8,
        context is QueryMaximalAccess <==> raw.name == seq![
            'M' as u8,
            'x' as u8,
            'A' as u8,
            'c' as u8,
        ],
{
    lemma_names_differ();
}

proof fn lemma_names_differ()
    ensures
        name_dhnq() != name_dhnc() && name_dhnq() != name_dh2q() && name_dhnq() != name_dh2c()
            && name_dhnq() != name_rqls() && name_dhnq() != name_alsi() && name_dhnq()
            != name_mxac(),
        name_dhnc() != name_dh2q() && name_dhnc() != name_dh2c() && name_dhnc() != name_rqls()
            && name_dhnc() != name_alsi() && name_dhnc() != name_mxac(),
        name_dh2q() != name_dh2c() && name_dh2q() != name_rqls() && name_dh2q() != name_alsi()
            && name_dh2q() != name_mxac(),
        name_dh2c() != name_rqls() && name_dh2c() != name_alsi() && name_dh2c() != name_mxac(),
        name_rqls() != name_alsi() && name_rqls() != name_mxac(),
        name_alsi() != name_mxac(),
{
    assert(name_dhnq()[0] == 0x44 && name_dhnq()[2] == 0x6E && name_dhnq()[3] == 0x51);
    assert(name_dhnc()[0] == 0x44 && name_dhnc()[2] == 0x6E && name_dhnc()[3] == 0x43);
    assert(name_dh2q()[0] == 0x44 && name_dh2q()[2] == 0x32 && name_dh2q()[3] == 0x51);
    assert(name_dh2c()[0] == 0x44 && name_dh2c()[2] == 0x32 && name_dh2c()[3] == 0x43);
    assert(name_rqls()[0] == 0x52 && name_alsi()[0] == 0x41 && name_mxac()[0] == 0x4D);
}

/// What a context asks for in its data: the handle to come back to stands at 0
/// and its GUID at 16; the time and the flags of a durable handle at 0 and 4 and
/// its GUID at 16; the key of a lease at 0 and its state at 16; the size to
/// reserve at 0.
pub proof fn law_context_data(context: CreateContext, raw: RawContext)
    requires
        is_context(context, raw),
    ensures
        match context {
            CreateContext::DurableHandleReconnect { persistent_id } => persistent_id
                == codec::u64_at(raw.data, 0),
            CreateContext::DurableHandleRequestV2 { timeout, flags, guid } => timeout
                == codec::u32_at(raw.data, 0) && flags == codec::u32_at(raw.data, 4) && guid@
                == raw.data.subrange(16, 32),
            CreateContext::DurableHandleReconnectV2 { persistent, create_guid } => persistent
                == codec::u64_at(raw.data, 0) && create_guid@ == raw.data.subrange(16, 32),
            CreateContext::LeaseRequest { lease_key, lease_state } => lease_key@
                == raw.data.subrange(0, 16) && lease_state == codec::u32_at(raw.data, 16),
            CreateContext::LeaseRequestV2 { key, state } => key@ == raw.data.subrange(0, 16)
                && state == codec::u32_at(raw.data, 16),
            CreateContext::AllocationSize { allocation_size } => allocation_size == codec::u64_at(
                raw.data,
                0,
            ),
            _ => true,
        },
{
}

/// What a context of a response tells: the time and the flags of a durable
/// handle at 0 and 4 of its data; the key, the state and the flags of a lease at
/// 0, 16 and 20, and its epoch at 48; how the question went and what the client
/// may do at 0 and 4.
pub proof fn law_granted_contexts_on_wire(
    timeout: u32,
    flags: u32,
    key: Seq<u8>,
    state: u32,
    parent: Seq<u8>,
    epoch: u16,
    status: u32,
    access: u32,
)
    requires
        key.len() == 16,
        parent.len() == 16,
    ensures
        durable_context().name == seq!['D' as u8, 'H' as u8, 'n' as u8, 'Q' as u8],
        ({
            let c = durable_v2_context(timeout, flags);
            &&& c.name == seq!['D' as u8, 'H' as u8, '2' as u8, 'Q' as u8]
            &&& c.data.len() == 8
            &&& codec::u32_at(c.data, 0) == timeout
            &&& codec::u32_at(c.data, 4) == flags
        }),
        ({
            let c = lease_context(key, state, flags);
            &&& c.name == seq!['R' as u8, 'q' as u8, 'L' as u8, 's' as u8]
            &&& c.data.len() == 32
            &&& c.data.subrange(0, 16) == key
            &&& codec::u32_at(c.data, 16) == state
            &&& codec::u32_at(c.data, 20) == flags
        }),
        ({
            let c = lease_v2_context(key, state, flags, parent, epoch);
            &&& c.name == seq!['R' as u8, 'q' as u8, 'L' as u8, 's' as u8]
            &&& c.data.len() == 52
            &&& c.data.subrange(0, 16) == key
            &&& codec::u32_at(c.data, 16) == state
            &&& codec::u32_at(c.data, 20) == flags
            &&& c.data.subrange(32, 48) == parent
            &&& codec::u16_at(c.data, 48) == epoch
        }),
        ({
            let c = maximal_access_context(status, access);
            &&& c.name == seq!['M' as u8, 'x' as u8, 'A' as u8, 'c' as u8]
            &&& c.data.len() == 8
            &&& codec::u32_at(c.data, 0) == status
            &&& codec::u32_at(c.data, 4) == access
        }),
{
    lemma_two_words(timeout, flags);
    lemma_two_words(status, access);
    lemma_lease_data(key, state, flags);
    lemma_lease_v2_data(key, state, flags, parent, epoch);
}

proof fn lemma_two_words(a: u32, b: u32)
    ensures
        codec::u32_at(codec::le32(a) + codec::le32(b), 0) == a,
        codec::u32_at(codec::le32(a) + codec::le32(b), 4) == b,
{
    let data = codec::le32(a) + codec::le32(b);
    assert(data.subrange(0, 4) =~= codec::le32(a));
    codec::lemma_read_le32(data, 0, a);
    assert(data.subrange(4, 8) =~= codec::le32(b));
    codec::lemma_read_le32(data, 4, b);
}

proof fn lemma_lease_data(key: Seq<u8>, state: u32, flags: u32)
    requires
        key.len() == 16,
    ensures
        ({
            let data = lease_context(key, state, flags).data;
            &&& data.len() == 32
            &&& data.subrange(0, 16) == key
            &&& codec::u32_at(data, 16) == state
            &&& codec::u32_at(data, 20) == flags
        }),
{
    let data = lease_context(key, state, flags).data;
    assert(data.subrange(0, 16) =~= key);
    assert(data.subrange(16, 20) =~= codec::le32(state));
    codec::lemma_read_le32(data, 16, state);
    assert(data.subrange(20, 24) =~= codec::le32(flags));
    codec::lemma_read_le32(data, 20, flags);
}

#[verifier::rlimit(50)]
proof fn lemma_lease_v2_data(key: Seq<u8>, state: u32, flags: u32, parent: Seq<u8>, epoch: u16)
    requires
        key.len() == 16,
        parent.len() == 16,
    ensures
        ({
            let data = lease_v2_context(key, state, flags, parent, epoch).data;
            &&& data.len() == 52
            &&& data.subrange(0, 16) == key
            &&& codec::u32_at(data, 16) == state
            &&& codec::u32_at(data, 20) == flags
            &&& data.subrange(32, 48) == parent
            &&& codec::u16_at(data, 48) == epoch
        }),
{
    let data = lease_v2_context(key, state, flags, parent, epoch).data;
    assert(data.subrange(0, 16) =~= key);
    assert(codec::u32_at(data, 16) == state) by {
        assert(data.subrange(16, 20) =~= codec::le32(state));
        codec::lemma_read_le32(data, 16, state);
    }
    assert(codec::u32_at(data, 20) == flags) by {
        assert(data.subrange(20, 24) =~= codec::le32(flags));
        codec::lemma_read_le32(data, 20, flags);
    }
    assert(data.subrange(32, 48) =~= parent);
    assert(codec::u16_at(data, 48) == epoch) by {
        assert(data.subrange(48, 50) =~= codec::le16(epoch));
        codec::lemma_read_le16(data, 48, epoch);
    }
}

} // verus!
