//! Little-endian fields of the wire format.
//!
//! The spec functions `le16` .. `le128` give the bytes of a number, and
//! `u16_at` .. `u128_at` the number that stands at an offset. Each wider form
//! is made of two halves, low half first.

use vstd::prelude::*;

verus! {

pub open spec fn le16(x: u16) -> Seq<u8> {
    seq![(x % 256) as u8, (x / 256) as u8]
}

pub open spec fn le32(x: u32) -> Seq<u8> {
    le16((x % 0x1_0000) as u16) + le16((x / 0x1_0000) as u16)
}

pub open spec fn le64(x: u64) -> Seq<u8> {
    le32((x % 0x1_0000_0000) as u32) + le32((x / 0x1_0000_0000) as u32)
}

pub open spec fn le128(x: u128) -> Seq<u8> {
    le64((x % 0x1_0000_0000_0000_0000) as u64) + le64((x / 0x1_0000_0000_0000_0000) as u64)
}

pub open spec fn u16_at(s: Seq<u8>, i: int) -> u16 {
    (s[i] + 256 * s[i + 1]) as u16
}

pub open spec fn u32_at(s: Seq<u8>, i: int) -> u32 {
    (u16_at(s, i) + 0x1_0000 * u16_at(s, i + 2)) as u32
}

pub open spec fn u64_at(s: Seq<u8>, i: int) -> u64 {
    (u32_at(s, i) + 0x1_0000_0000 * u32_at(s, i + 4)) as u64
}

pub open spec fn u128_at(s: Seq<u8>, i: int) -> u128 {
    (u64_at(s, i) + 0x1_0000_0000_0000_0000 * u64_at(s, i + 8)) as u128
}

/// `n` zero bytes.
pub open spec fn zeros(n: nat) -> Seq<u8> {
    Seq::new(n, |i: int| 0u8)
}

/// `s` with the bytes from `i` on replaced by `t`.
pub open spec fn overwrite(s: Seq<u8>, i: int, t: Seq<u8>) -> Seq<u8> {
    Seq::new(s.len(), |k: int| if i <= k < i + t.len() { t[k - i] } else { s[k] })
}

/// The number at offset `i` is the one whose bytes stand there.
pub proof fn lemma_read_le16(s: Seq<u8>, i: int, x: u16)
    requires
        0 <= i,
        i + 2 <= s.len(),
        s.subrange(i, i + 2) == le16(x),
    ensures
        u16_at(s, i) == x,
{
    assert(s.subrange(i, i + 2)[0] == s[i]);
    assert(s.subrange(i, i + 2)[1] == s[i + 1]);
}

pub proof fn lemma_read_le32(s: Seq<u8>, i: int, x: u32)
    requires
        0 <= i,
        i + 4 <= s.len(),
        s.subrange(i, i + 4) == le32(x),
    ensures
        u32_at(s, i) == x,
{
    let t = s.subrange(i, i + 4);
    assert(s.subrange(i, i + 2) =~= t.subrange(0, 2));
    assert(t.subrange(0, 2) =~= le16((x % 0x1_0000) as u16));
    assert(s.subrange(i + 2, i + 4) =~= t.subrange(2, 4));
    assert(t.subrange(2, 4) =~= le16((x / 0x1_0000) as u16));
    lemma_read_le16(s, i, (x % 0x1_0000) as u16);
    lemma_read_le16(s, i + 2, (x / 0x1_0000) as u16);
}

pub proof fn lemma_read_le64(s: Seq<u8>, i: int, x: u64)
    requires
        0 <= i,
        i + 8 <= s.len(),
        s.subrange(i, i + 8) == le64(x),
    ensures
        u64_at(s, i) == x,
{
    let t = s.subrange(i, i + 8);
    let lo = (x % 0x1_0000_0000) as u32;
    let hi = (x / 0x1_0000_0000) as u32;
    assert(s.subrange(i, i + 4) =~= t.subrange(0, 4));
    assert(t.subrange(0, 4) =~= le32(lo));
    assert(s.subrange(i + 4, i + 8) =~= t.subrange(4, 8));
    assert(t.subrange(4, 8) =~= le32(hi));
    lemma_read_le32(s, i, lo);
    lemma_read_le32(s, i + 4, hi);
}

pub proof fn lemma_read_le128(s: Seq<u8>, i: int, x: u128)
    requires
        0 <= i,
        i + 16 <= s.len(),
        s.subrange(i, i + 16) == le128(x),
    ensures
        u128_at(s, i) == x,
{
    let t = s.subrange(i, i + 16);
    let lo = (x % 0x1_0000_0000_0000_0000) as u64;
    let hi = (x / 0x1_0000_0000_0000_0000) as u64;
    assert(s.subrange(i, i + 8) =~= t.subrange(0, 8));
    assert(t.subrange(0, 8) =~= le64(lo));
    assert(s.subrange(i + 8, i + 16) =~= t.subrange(8, 16));
    assert(t.subrange(8, 16) =~= le64(hi));
    lemma_read_le64(s, i, lo);
    lemma_read_le64(s, i + 8, hi);
}

/// The bytes of the number at offset `i` are the bytes that stand there.
pub proof fn lemma_write_u16_at(s: Seq<u8>, i: int)
    requires
        0 <= i,
        i + 2 <= s.len(),
    ensures
        le16(u16_at(s, i)) == s.subrange(i, i + 2),
{
    assert(le16(u16_at(s, i)) =~= s.subrange(i, i + 2));
}

proof fn lemma_join(s: Seq<u8>, i: int, m: int, j: int)
    requires
        0 <= i <= m <= j <= s.len(),
    ensures
        s.subrange(i, m) + s.subrange(m, j) == s.subrange(i, j),
{
    assert(s.subrange(i, m) + s.subrange(m, j) =~= s.subrange(i, j));
}

proof fn lemma_halves_u32(lo: u16, hi: u16)
    ensures
        le32((lo + 0x1_0000 * hi) as u32) == le16(lo) + le16(hi),
{
    let x = (lo + 0x1_0000 * hi) as u32;
    assert(x % 0x1_0000 == lo && x / 0x1_0000 == hi);
}

pub proof fn lemma_write_u32_at(s: Seq<u8>, i: int)
    requires
        0 <= i,
        i + 4 <= s.len(),
    ensures
        le32(u32_at(s, i)) == s.subrange(i, i + 4),
{
    lemma_halves_u32(u16_at(s, i), u16_at(s, i + 2));
    lemma_write_u16_at(s, i);
    lemma_write_u16_at(s, i + 2);
    lemma_join(s, i, i + 2, i + 4);
}

proof fn lemma_halves_u64(lo: u32, hi: u32)
    ensures
        le64((lo + 0x1_0000_0000 * hi) as u64) == le32(lo) + le32(hi),
{
    let x = (lo + 0x1_0000_0000 * hi) as u64;
    assert(x % 0x1_0000_0000 == lo && x / 0x1_0000_0000 == hi);
}

pub proof fn lemma_write_u64_at(s: Seq<u8>, i: int)
    requires
        0 <= i,
        i + 8 <= s.len(),
    ensures
        le64(u64_at(s, i)) == s.subrange(i, i + 8),
{
    lemma_halves_u64(u32_at(s, i), u32_at(s, i + 4));
    lemma_write_u32_at(s, i);
    lemma_write_u32_at(s, i + 4);
    lemma_join(s, i, i + 4, i + 8);
}

pub fn get_u16(buf: &[u8], i: usize) -> (x: u16)
    requires
        i + 2 <= buf.len(),
    ensures
        x == u16_at(buf@, i as int),
{
    buf[i] as u16 + 256 * (buf[i + 1] as u16)
}

pub fn get_u32(buf: &[u8], i: usize) -> (x: u32)
    requires
        i + 4 <= buf.len(),
    ensures
        x == u32_at(buf@, i as int),
{
    get_u16(buf, i) as u32 + 0x1_0000 * (get_u16(buf, i + 2) as u32)
}

pub fn get_u64(buf: &[u8], i: usize) -> (x: u64)
    requires
        i + 8 <= buf.len(),
    ensures
        x == u64_at(buf@, i as int),
{
    get_u32(buf, i) as u64 + 0x1_0000_0000 * (get_u32(buf, i + 4) as u64)
}

pub fn get_u128(buf: &[u8], i: usize) -> (x: u128)
    requires
        i + 16 <= buf.len(),
    ensures
        x == u128_at(buf@, i as int),
{
    get_u64(buf, i) as u128 + 0x1_0000_0000_0000_0000 * (get_u64(buf, i + 8) as u128)
}

/// The sixteen bytes that stand at offset `i`.
pub fn get_array16(buf: &[u8], i: usize) -> (a: [u8; 16])
    requires
        i + 16 <= buf.len(),
    ensures
        a@ == buf@.subrange(i as int, i + 16),
{
    let mut a = [0u8; 16];
    let mut k: usize = 0;
    while k < 16
        invariant
            k <= 16,
            i + 16 <= buf.len(),
            a@.len() == 16,
            forall|j: int| 0 <= j < k ==> a@[j] == buf@[i + j],
        decreases 16 - k,
    {
        a[k] = buf[i + k];
        k = k + 1;
    }
    assert(a@ =~= buf@.subrange(i as int, i + 16));
    a
}

/// A copy of the bytes from `i` up to `j`.
pub fn copy_range(buf: &[u8], i: usize, j: usize) -> (v: Vec<u8>)
    requires
        i <= j <= buf@.len(),
    ensures
        v@ == buf@.subrange(i as int, j as int),
{
    let mut v: Vec<u8> = Vec::new();
    v.extend_from_slice(&buf[i..j]);
    assert(v@ =~= buf@.subrange(i as int, j as int));
    v
}

pub fn put_u16(buf: &mut Vec<u8>, x: u16)
    ensures
        final(buf)@ == old(buf)@ + le16(x),
{
    buf.push((x % 256) as u8);
    buf.push((x / 256) as u8);
    assert(buf@ =~= old(buf)@ + le16(x));
}

pub fn put_u32(buf: &mut Vec<u8>, x: u32)
    ensures
        final(buf)@ == old(buf)@ + le32(x),
{
    put_u16(buf, (x % 0x1_0000) as u16);
    put_u16(buf, (x / 0x1_0000) as u16);
    assert(buf@ =~= old(buf)@ + le32(x));
}

pub fn put_u64(buf: &mut Vec<u8>, x: u64)
    ensures
        final(buf)@ == old(buf)@ + le64(x),
{
    put_u32(buf, (x % 0x1_0000_0000) as u32);
    put_u32(buf, (x / 0x1_0000_0000) as u32);
    assert(buf@ =~= old(buf)@ + le64(x));
}

pub fn put_u128(buf: &mut Vec<u8>, x: u128)
    ensures
        final(buf)@ == old(buf)@ + le128(x),
{
    put_u64(buf, (x % 0x1_0000_0000_0000_0000) as u64);
    put_u64(buf, (x / 0x1_0000_0000_0000_0000) as u64);
    assert(buf@ =~= old(buf)@ + le128(x));
}

pub fn put_bytes(buf: &mut Vec<u8>, bytes: &[u8])
    ensures
        final(buf)@ == old(buf)@ + bytes@,
{
    buf.extend_from_slice(bytes);
    assert(buf@ =~= old(buf)@ + bytes@);
}

pub fn put_zeros(buf: &mut Vec<u8>, n: usize)
    ensures
        final(buf)@ == old(buf)@ + zeros(n as nat),
{
    let mut k: usize = 0;
    while k < n
        invariant
            k <= n,
            buf@ == old(buf)@ + zeros(k as nat),
        decreases n - k,
    {
        buf.push(0u8);
        k = k + 1;
        assert(buf@ =~= old(buf)@ + zeros(k as nat));
    }
}

/// Overwrites the bytes from offset `i` on.
pub fn set_bytes(buf: &mut Vec<u8>, i: usize, bytes: &[u8])
    requires
        i + bytes@.len() <= old(buf).len(),
    ensures
        final(buf)@ == overwrite(old(buf)@, i as int, bytes@),
{
    let mut k: usize = 0;
    while k < bytes.len()
        invariant
            k <= bytes@.len(),
            i + bytes@.len() <= old(buf).len(),
            buf.len() == old(buf).len(),
            buf@ == overwrite(old(buf)@, i as int, bytes@.subrange(0, k as int)),
        decreases bytes@.len() - k,
    {
        buf.set(i + k, bytes[k]);
        k = k + 1;
        assert(buf@ =~= overwrite(old(buf)@, i as int, bytes@.subrange(0, k as int)));
    }
    assert(bytes@.subrange(0, k as int) =~= bytes@);
}

pub fn set_u32(buf: &mut Vec<u8>, i: usize, x: u32)
    requires
        i + 4 <= old(buf).len(),
    ensures
        final(buf)@ == overwrite(old(buf)@, i as int, le32(x)),
{
    let mut bytes: Vec<u8> = Vec::new();
    put_u32(&mut bytes, x);
    assert(bytes@ =~= le32(x));
    set_bytes(buf, i, bytes.as_slice());
}

/// Whether two arrays of sixteen bytes are the same.
pub fn same_array16(a: &[u8; 16], b: &[u8; 16]) -> (r: bool)
    ensures
        r == (a@ == b@),
{
    let mut k: usize = 0;
    while k < 16
        invariant
            k <= 16,
            forall|j: int| 0 <= j < k ==> a@[j] == b@[j],
        decreases 16 - k,
    {
        if a[k] != b[k] {
            return false;
        }
        k = k + 1;
    }
    assert(a@ =~= b@);
    true
}

/// Numbers stand on the wire with their lowest byte first.
pub proof fn law_low_byte_comes_first(s: Seq<u8>, i: int)
    requires
        0 <= i,
        i + 16 <= s.len(),
    ensures
        u16_at(s, i) == s[i] + 0x100 * s[i + 1],
        u32_at(s, i) == s[i] + 0x100 * s[i + 1] + 0x1_0000 * s[i + 2] + 0x100_0000 * s[i + 3],
        u64_at(s, i) == s[i] + 0x100 * s[i + 1] + 0x1_0000 * s[i + 2] + 0x100_0000 * s[i + 3]
            + 0x1_0000_0000 * s[i + 4] + 0x100_0000_0000 * s[i + 5] + 0x1_0000_0000_0000 * s[i + 6]
            + 0x100_0000_0000_0000 * s[i + 7],
        u128_at(s, i) % 0x1_0000_0000_0000_0000 == u64_at(s, i),
        u128_at(s, i) / 0x1_0000_0000_0000_0000 == u64_at(s, i + 8),
{
    lemma_four_bytes(s, i);
    lemma_four_bytes(s, i + 4);
    lemma_two_halves(u64_at(s, i), u64_at(s, i + 8));
}

proof fn lemma_four_bytes(s: Seq<u8>, i: int)
    ensures
        u32_at(s, i) == s[i] + 0x100 * s[i + 1] + 0x1_0000 * s[i + 2] + 0x100_0000 * s[i + 3],
{
}

proof fn lemma_two_halves(lo: u64, hi: u64)
    ensures
        (lo + 0x1_0000_0000_0000_0000 * hi) as u128 % 0x1_0000_0000_0000_0000 == lo,
        (lo + 0x1_0000_0000_0000_0000 * hi) as u128 / 0x1_0000_0000_0000_0000 == hi,
{
}

/// A number that was written is read back.
pub proof fn law_numbers_round_trip(a: u16, b: u32, c: u64, d: u128)
    ensures
        le16(a).len() == 2 && u16_at(le16(a), 0) == a,
        le32(b).len() == 4 && u32_at(le32(b), 0) == b,
        le64(c).len() == 8 && u64_at(le64(c), 0) == c,
        le128(d).len() == 16 && u128_at(le128(d), 0) == d,
{
    assert(le16(a).subrange(0, 2) =~= le16(a));
    assert(le32(b).subrange(0, 4) =~= le32(b));
    assert(le64(c).subrange(0, 8) =~= le64(c));
    assert(le128(d).subrange(0, 16) =~= le128(d));
    lemma_read_le16(le16(a), 0, a);
    lemma_read_le32(le32(b), 0, b);
    lemma_read_le64(le64(c), 0, c);
    lemma_read_le128(le128(d), 0, d);
}

/// The same bytes hold the same numbers, wherever they stand.
pub proof fn lemma_same_bytes(s: Seq<u8>, i: int, t: Seq<u8>, j: int, n: int)
    requires
        0 <= i,
        i + n <= s.len(),
        0 <= j,
        j + n <= t.len(),
        s.subrange(i, i + n) == t.subrange(j, j + n),
    ensures
        forall|k: int| 0 <= k < n ==> s[#[trigger] (i + k)] == t[j + k],
        n >= 2 ==> u16_at(s, i) == u16_at(t, j),
        n >= 4 ==> u32_at(s, i) == u32_at(t, j),
        n >= 8 ==> u64_at(s, i) == u64_at(t, j),
        n >= 16 ==> u64_at(s, i + 8) == u64_at(t, j + 8),
{
    assert forall|k: int| 0 <= k < n implies s[#[trigger] (i + k)] == t[j + k] by {
        assert(s.subrange(i, i + n)[k] == s[i + k]);
        assert(t.subrange(j, j + n)[k] == t[j + k]);
    }
    if n >= 2 {
        assert(s[i + 0] == t[j + 0] && s[i + 1] == t[j + 1]);
    }
    if n >= 4 {
        assert(s[i + 2] == t[j + 2] && s[i + 3] == t[j + 3]);
    }
    if n >= 8 {
        assert(s[i + 4] == t[j + 4] && s[i + 5] == t[j + 5] && s[i + 6] == t[j + 6] && s[i + 7]
            == t[j + 7]);
    }
    if n >= 16 {
        assert(s[i + 8] == t[j + 8] && s[i + 9] == t[j + 9] && s[i + 10] == t[j + 10] && s[i + 11]
            == t[j + 11]);
        assert(s[i + 12] == t[j + 12] && s[i + 13] == t[j + 13] && s[i + 14] == t[j + 14] && s[i
            + 15] == t[j + 15]);
    }
}

/// What stands behind the first bytes of a message is found as many bytes
/// further on.
pub proof fn lemma_behind(head: Seq<u8>, body: Seq<u8>, i: int)
    requires
        0 <= i,
    ensures
        i + 2 <= body.len() ==> u16_at(head + body, head.len() + i) == u16_at(body, i),
        i + 4 <= body.len() ==> u32_at(head + body, head.len() + i) == u32_at(body, i),
        i + 8 <= body.len() ==> u64_at(head + body, head.len() + i) == u64_at(body, i),
        forall|j: int|
            i <= j <= body.len() ==> #[trigger] body.subrange(i, j) == (head + body).subrange(
                head.len() + i,
                head.len() + j,
            ),
{
    let s = head + body;
    let n = head.len() as int;
    assert(forall|k: int| 0 <= k < body.len() ==> s[n + k] == #[trigger] body[k]);
    if i + 2 <= body.len() {
        assert(s[n + i] == body[i] && s[n + i + 1] == body[i + 1]);
    }
    if i + 4 <= body.len() {
        assert(s[n + i + 2] == body[i + 2] && s[n + i + 3] == body[i + 3]);
    }
    if i + 8 <= body.len() {
        assert(s[n + i + 4] == body[i + 4] && s[n + i + 5] == body[i + 5] && s[n + i + 6] == body[i
            + 6] && s[n + i + 7] == body[i + 7]);
    }
    assert forall|j: int| i <= j <= body.len() implies #[trigger] body.subrange(i, j)
        == s.subrange(n + i, n + j) by {
        assert(body.subrange(i, j) =~= s.subrange(n + i, n + j));
    }
}

} // verus!
