//! UTF-16 strings and paths.

use vstd::prelude::*;
use vstd::string::StrSliceExecFns;

use crate::codec;

verus! {

/// The 16-bit units that a byte string holds, low byte first. A last odd byte
/// is dropped.
pub open spec fn utf16_units(bytes: Seq<u8>) -> Seq<u16> {
    Seq::new(bytes.len() / 2, |i: int| codec::u16_at(bytes, 2 * i))
}

/// The bytes of a sequence of 16-bit units, low byte first.
pub open spec fn utf16_bytes(units: Seq<u16>) -> Seq<u8> {
    Seq::new(
        2 * units.len(),
        |i: int|
            if i % 2 == 0 {
                (units[i / 2] % 256) as u8
            } else {
                (units[i / 2] / 256) as u8
            },
    )
}

pub open spec fn is_high_surrogate(unit: u16) -> bool {
    0xD800 <= unit < 0xDC00
}

pub open spec fn is_low_surrogate(unit: u16) -> bool {
    0xDC00 <= unit < 0xE000
}

/// The character that two surrogates stand for together.
pub open spec fn surrogate_pair(high: u16, low: u16) -> char {
    (0x1_0000 + (high - 0xD800) * 0x400 + (low - 0xDC00)) as char
}

/// The text that 16-bit units stand for in UTF-16. A surrogate without its
/// partner becomes the replacement character.
pub open spec fn utf16_decode(units: Seq<u16>) -> Seq<char>
    decreases units.len(),
{
    if units.len() == 0 {
        Seq::empty()
    } else if !is_high_surrogate(units[0]) && !is_low_surrogate(units[0]) {
        seq![units[0] as char] + utf16_decode(units.skip(1))
    } else if is_high_surrogate(units[0]) && units.len() >= 2 && is_low_surrogate(units[1]) {
        seq![surrogate_pair(units[0], units[1])] + utf16_decode(units.skip(2))
    } else {
        seq!['\u{FFFD}'] + utf16_decode(units.skip(1))
    }
}

/// The 16-bit units of one character.
pub open spec fn utf16_char(c: char) -> Seq<u16> {
    if (c as int) < 0x1_0000 {
        seq![c as u16]
    } else {
        seq![
            (0xD800 + (c as int - 0x1_0000) / 0x400) as u16,
            (0xDC00 + (c as int - 0x1_0000) % 0x400) as u16,
        ]
    }
}

/// The text in UTF-16.
pub open spec fn utf16_encode(text: Seq<char>) -> Seq<u16>
    decreases text.len(),
{
    if text.len() == 0 {
        Seq::empty()
    } else {
        utf16_char(text[0]) + utf16_encode(text.skip(1))
    }
}

/// `String::from_utf16_lossy`: decodes UTF-16 and puts the replacement
/// character in the place of each surrogate that has no partner.
#[verifier::external_body]
fn string_from_utf16_lossy(units: &Vec<u16>) -> (s: String)
    ensures
        s@ == utf16_decode(units@),
{
    String::from_utf16_lossy(units)
}

/// `str::encode_utf16`: the text as UTF-16 units.
#[verifier::external_body]
fn encode_utf16(text: &str) -> (units: Vec<u16>)
    ensures
        units@ == utf16_encode(text@),
{
    text.encode_utf16().collect()
}

/// Every occurrence of one character replaced by a text.
pub open spec fn replaced(text: Seq<char>, from: char, to: Seq<char>) -> Seq<char>
    decreases text.len(),
{
    if text.len() == 0 {
        Seq::empty()
    } else if text[0] == from {
        to + replaced(text.skip(1), from, to)
    } else {
        seq![text[0]] + replaced(text.skip(1), from, to)
    }
}

/// `str::replace` with a character as pattern: every occurrence of it gives way
/// to the text.
#[verifier::external_body]
pub(crate) fn replace_char(text: &str, from: char, to: &str) -> (s: String)
    ensures
        s@ == replaced(text@, from, to@),
{
    text.replace(from, to)
}

/// The units before the first zero.
pub open spec fn until_null(units: Seq<u16>) -> Seq<u16>
    decreases units.len(),
{
    if units.len() == 0 || units[0] == 0 {
        Seq::empty()
    } else {
        seq![units[0]] + until_null(units.skip(1))
    }
}

proof fn lemma_until_null_take(units: Seq<u16>, n: int)
    requires
        0 <= n <= units.len(),
        forall|k: int| 0 <= k < n ==> units[k] != 0,
        n == units.len() || units[n] == 0,
    ensures
        until_null(units) == units.take(n),
    decreases n,
{
    if n > 0 {
        let rest = units.skip(1);
        assert forall|k: int| 0 <= k < n - 1 implies rest[k] != 0 by {
            assert(units[k + 1] != 0);
        }
        lemma_until_null_take(rest, n - 1);
        assert(seq![units[0]] + rest.take(n - 1) =~= units.take(n));
    } else {
        assert(units.take(0) =~= Seq::<u16>::empty());
    }
}

/// Reads UTF-16 text up to the first null character or the end.
pub fn parse_utf16_string(bytes: &[u8]) -> (s: String)
    ensures
        s@ == utf16_decode(until_null(utf16_units(bytes@))),
{
    let len: usize = bytes.len() / 2;
    let mut units: Vec<u16> = Vec::new();
    let mut i: usize = 0;
    let ghost all = utf16_units(bytes@);
    while i < len && codec::get_u16(bytes, 2 * i) != 0
        invariant
            i <= len,
            len == bytes.len() / 2,
            all == utf16_units(bytes@),
            units@ == all.take(i as int),
            forall|k: int| 0 <= k < i ==> all[k] != 0,
        decreases len - i,
    {
        units.push(codec::get_u16(bytes, 2 * i));
        i = i + 1;
        assert(units@ =~= all.take(i as int));
    }
    proof {
        lemma_until_null_take(all, i as int);
    }
    string_from_utf16_lossy(&units)
}

/// Reads UTF-16 text, null characters and all.
pub fn decode_utf16le(bytes: &[u8]) -> (s: String)
    ensures
        s@ == utf16_decode(utf16_units(bytes@)),
{
    let len: usize = bytes.len() / 2;
    let mut units: Vec<u16> = Vec::new();
    let mut i: usize = 0;
    while i < len
        invariant
            i <= len,
            len == bytes.len() / 2,
            units@ == utf16_units(bytes@).take(i as int),
        decreases len - i,
    {
        units.push(codec::get_u16(bytes, 2 * i));
        i = i + 1;
        assert(units@ =~= utf16_units(bytes@).take(i as int));
    }
    assert(units@ =~= utf16_units(bytes@));
    string_from_utf16_lossy(&units)
}

/// Appends text as UTF-16 to a buffer, and tells how many bytes it took.
pub fn put_utf16(buf: &mut Vec<u8>, text: &str) -> (n: usize)
    requires
        2 * utf16_encode(text@).len() <= usize::MAX,
    ensures
        final(buf)@ == old(buf)@ + utf16_bytes(utf16_encode(text@)),
        n == 2 * utf16_encode(text@).len(),
{
    let units = encode_utf16(text);
    let mut i: usize = 0;
    while i < units.len()
        invariant
            i <= units@.len(),
            buf@ == old(buf)@ + utf16_bytes(units@.take(i as int)),
        decreases units@.len() - i,
    {
        codec::put_u16(buf, units[i]);
        i = i + 1;
        assert(buf@ =~= old(buf)@ + utf16_bytes(units@.take(i as int)));
    }
    assert(units@.take(i as int) =~= units@);
    2 * units.len()
}

/// The number of bytes that text takes in UTF-16.
pub fn utf16_len(text: &str) -> (n: usize)
    requires
        2 * utf16_encode(text@).len() <= usize::MAX,
    ensures
        n == 2 * utf16_encode(text@).len(),
{
    2 * encode_utf16(text).len()
}

/// The text without the characters `c` at its start.
pub open spec fn trim_start(text: Seq<char>, c: char) -> Seq<char>
    decreases text.len(),
{
    if text.len() > 0 && text[0] == c {
        trim_start(text.skip(1), c)
    } else {
        text
    }
}

/// The text before the first `c`, or all of it.
pub open spec fn before_first(text: Seq<char>, c: char) -> Seq<char>
    decreases text.len(),
{
    if text.len() == 0 || text[0] == c {
        Seq::empty()
    } else {
        seq![text[0]] + before_first(text.skip(1), c)
    }
}

/// The share that a path `\\server\share` or `\\server\share\path` names: what
/// stands between the server and the next backslash. A path with no backslash
/// after its start is the share's name itself.
pub open spec fn share_name_of(path: Seq<char>) -> Seq<char> {
    let trimmed = trim_start(path, '\\');
    if trimmed.contains('\\') {
        before_first(trimmed.skip(before_first(trimmed, '\\').len() as int + 1), '\\')
    } else {
        trimmed
    }
}

proof fn lemma_before_first(text: Seq<char>, c: char, n: int)
    requires
        0 <= n <= text.len(),
        forall|k: int| 0 <= k < n ==> text[k] != c,
        n == text.len() || text[n] == c,
    ensures
        before_first(text, c) == text.take(n),
        text.contains(c) <==> n < text.len(),
    decreases n,
{
    if n > 0 {
        let rest = text.skip(1);
        assert forall|k: int| 0 <= k < n - 1 implies rest[k] != c by {
            assert(text[k + 1] != c);
        }
        lemma_before_first(rest, c, n - 1);
        assert(seq![text[0]] + rest.take(n - 1) =~= text.take(n));
    } else {
        assert(text.take(0) =~= Seq::<char>::empty());
    }
    if text.contains(c) {
        let k = choose|k: int| 0 <= k < text.len() && text[k] == c;
        assert(k >= n);
    }
}

proof fn lemma_trim_start(text: Seq<char>, c: char, n: int)
    requires
        0 <= n <= text.len(),
        forall|k: int| 0 <= k < n ==> text[k] == c,
        n == text.len() || text[n] != c,
    ensures
        trim_start(text, c) == text.skip(n),
    decreases n,
{
    if n > 0 {
        let rest = text.skip(1);
        assert forall|k: int| 0 <= k < n - 1 implies rest[k] == c by {
            assert(text[k + 1] == c);
        }
        lemma_trim_start(rest, c, n - 1);
        assert(rest.skip(n - 1) =~= text.skip(n));
    } else {
        assert(text.skip(0) =~= text);
    }
}

/// The position of the first `c` at or after `from`, or the text's length.
fn find_char(text: &str, c: char, from: usize) -> (n: usize)
    requires
        from <= text@.len() <= usize::MAX,
    ensures
        from <= n <= text@.len(),
        forall|k: int| from <= k < n ==> text@[k] != c,
        n == text@.len() || text@[n as int] == c,
{
    let len: usize = text.unicode_len();
    let mut i: usize = from;
    while i < len
        invariant
            from <= i <= len,
            len == text@.len(),
            forall|k: int| from <= k < i ==> text@[k] != c,
        decreases len - i,
    {
        if text.get_char(i) == c {
            return i;
        }
        i = i + 1;
    }
    i
}

/// Extracts the share's name from a path such as `\\server\share`.
pub fn extract_share_name(path: &str) -> (name: String)
    ensures
        name@ == share_name_of(path@),
{
    let len: usize = path.unicode_len();
    let mut start: usize = 0;
    while start < len && path.get_char(start) == '\\'
        invariant
            start <= len,
            len == path@.len(),
            forall|k: int| 0 <= k < start ==> path@[k] == '\\',
        decreases len - start,
    {
        start = start + 1;
    }
    let ghost trimmed = path@.skip(start as int);
    proof {
        lemma_trim_start(path@, '\\', start as int);
    }
    let server_end: usize = find_char(path, '\\', start);
    proof {
        assert forall|k: int| 0 <= k < server_end - start implies trimmed[k] != '\\' by {
            assert(path@[k + start] != '\\');
        }
        lemma_before_first(trimmed, '\\', server_end - start);
    }
    if server_end == len {
        assert(path@.subrange(start as int, len as int) =~= trimmed);
        return path.substring_char(start, len).to_owned();
    }
    let share_start: usize = server_end + 1;
    let share_end: usize = find_char(path, '\\', share_start);
    proof {
        let share = trimmed.skip(server_end - start + 1);
        assert(share =~= path@.skip(share_start as int));
        assert forall|k: int| 0 <= k < share_end - share_start implies share[k] != '\\' by {
            assert(path@[k + share_start] != '\\');
        }
        lemma_before_first(share, '\\', share_end - share_start);
        assert(path@.subrange(share_start as int, share_end as int) =~= share.take(
            share_end - share_start,
        ));
        assert(before_first(trimmed, '\\').len() == server_end - start);
    }
    path.substring_char(share_start, share_end).to_owned()
}

/// Whether text starts with another text.
pub fn has_prefix(text: &str, prefix: &str) -> (b: bool)
    ensures
        b == prefix@.is_prefix_of(text@),
{
    let n: usize = prefix.unicode_len();
    if text.unicode_len() < n {
        return false;
    }
    let mut i: usize = 0;
    while i < n
        invariant
            i <= n,
            n == prefix@.len(),
            n <= text@.len(),
            forall|k: int| 0 <= k < i ==> prefix@[k] == text@[k],
        decreases n - i,
    {
        if prefix.get_char(i) != text.get_char(i) {
            assert(prefix@[i as int] != text@.subrange(0, n as int)[i as int]);
            return false;
        }
        i = i + 1;
    }
    assert(prefix@ =~= text@.subrange(0, n as int));
    true
}

/// Two texts with a slash between them.
pub fn join_path(left: &str, right: &str) -> (s: String)
    ensures
        s@ == left@ + seq!['/'] + right@,
{
    let mut s = left.to_owned();
    s.append("/");
    s.append(right);
    proof {
        reveal_strlit("/");
        assert("/"@ =~= seq!['/']);
    }
    s
}

/// A character's units stand for that character.
proof fn lemma_utf16_char(c: char)
    ensures
        ({
            let units = utf16_char(c);
            if units.len() == 1 {
                !is_high_surrogate(units[0]) && !is_low_surrogate(units[0]) && units[0] as char == c
            } else {
                &&& units.len() == 2
                &&& is_high_surrogate(units[0])
                &&& is_low_surrogate(units[1])
                &&& surrogate_pair(units[0], units[1]) == c
            }
        }),
{
    let n = c as int;
    assert(0 <= n < 0xD800 || 0xE000 <= n <= 0x10_FFFF);
}

/// Text that is written as UTF-16 and read back is the same text.
pub proof fn law_utf16_round_trip(text: Seq<char>)
    ensures
        utf16_decode(utf16_encode(text)) == text,
    decreases text.len(),
{
    if text.len() > 0 {
        let c = text[0];
        let rest = utf16_encode(text.skip(1));
        let units = utf16_encode(text);
        law_utf16_round_trip(text.skip(1));
        lemma_utf16_char(c);
        let n = utf16_char(c).len() as int;
        assert(units[0] == utf16_char(c)[0]);
        assert(n == 2 ==> units[1] == utf16_char(c)[1]);
        assert(units.skip(n) =~= rest);
        assert(seq![c] + text.skip(1) =~= text);
    } else {
        assert(text =~= Seq::<char>::empty());
    }
}

/// Units that are written as bytes and read back are the same units.
pub proof fn law_utf16_bytes_round_trip(units: Seq<u16>)
    ensures
        utf16_units(utf16_bytes(units)) == units,
{
    let bytes = utf16_bytes(units);
    assert forall|i: int| 0 <= i < units.len() implies utf16_units(bytes)[i] == units[i] by {
        assert((2 * i) / 2 == i && (2 * i + 1) / 2 == i && (2 * i + 1) % 2 == 1);
        assert(bytes[2 * i] == (units[i] % 256) as u8);
        assert(bytes[2 * i + 1] == (units[i] / 256) as u8);
    }
    assert(utf16_units(bytes) =~= units);
}

/// Replacing one character by another leaves all others where they are.
pub proof fn law_replaced_char_by_char(text: Seq<char>, from: char, to: Seq<char>)
    requires
        to.len() == 1,
    ensures
        replaced(text, from, to).len() == text.len(),
        forall|i: int|
            0 <= i < text.len() ==> #[trigger] replaced(text, from, to)[i] == if text[i] == from {
                to[0]
            } else {
                text[i]
            },
    decreases text.len(),
{
    if text.len() > 0 {
        let rest = text.skip(1);
        law_replaced_char_by_char(rest, from, to);
        assert forall|i: int| 0 <= i < text.len() implies #[trigger] replaced(text, from, to)[i]
            == if text[i] == from {
            to[0]
        } else {
            text[i]
        } by {
            if i > 0 {
                assert(replaced(text, from, to)[i] == replaced(rest, from, to)[i - 1]);
            }
        }
    }
}

/// The share that a client names behind a server is the one that it connects
/// to, whatever path follows.
pub proof fn law_share_of_unc_path(server: Seq<char>, share: Seq<char>, rest: Seq<char>)
    requires
        server.len() > 0,
        !server.contains('\\'),
        !share.contains('\\'),
    ensures
        share_name_of(seq!['\\', '\\'] + server + seq!['\\'] + share) == share,
        share_name_of(seq!['\\', '\\'] + server + seq!['\\'] + share + seq!['\\'] + rest) == share,
        share_name_of(share) == share,
{
    let slashes = seq!['\\', '\\'];
    let short = slashes + server + seq!['\\'] + share;
    let long = slashes + server + seq!['\\'] + share + seq!['\\'] + rest;
    let n = server.len() as int;
    let m = share.len() as int;
    assert(forall|k: int| 0 <= k < n ==> server[k] != '\\');
    assert(forall|k: int| 0 <= k < m ==> share[k] != '\\');
    lemma_trim_start(short, '\\', 2);
    lemma_trim_start(long, '\\', 2);
    lemma_trim_start(share, '\\', 0);
    lemma_before_first(share, '\\', m);
    assert(share.skip(0) =~= share);
    let a = short.skip(2);
    let b = long.skip(2);
    assert forall|k: int| 0 <= k < n implies a[k] != '\\' && b[k] != '\\' by {
        assert(a[k] == server[k] && b[k] == server[k]);
    }
    lemma_before_first(a, '\\', n);
    lemma_before_first(b, '\\', n);
    let c = a.skip(n + 1);
    let d = b.skip(n + 1);
    assert(c =~= share);
    assert forall|k: int| 0 <= k < m implies d[k] != '\\' by {
        assert(d[k] == share[k]);
    }
    assert(d[m] == '\\');
    lemma_before_first(c, '\\', m);
    lemma_before_first(d, '\\', m);
    assert(c.take(m) =~= share);
    assert(d.take(m) =~= share);
}

/// Text ends at its first null character.
pub proof fn law_text_ends_at_null(text: Seq<u16>, rest: Seq<u16>)
    requires
        !text.contains(0),
    ensures
        until_null(text) == text,
        until_null(text + seq![0u16] + rest) == text,
{
    let whole = text + seq![0u16] + rest;
    let n = text.len() as int;
    assert forall|k: int| 0 <= k < n implies text[k] != 0 && whole[k] != 0 by {
        assert(text.contains(text[k]));
    }
    lemma_until_null_take(text, n);
    lemma_until_null_take(whole, n);
    assert(text.take(n) =~= text);
    assert(whole.take(n) =~= text);
}

} // verus!
