//! Alignment and byte-string helpers shared by the codec.

use vstd::prelude::*;
use vstd::slice::*;
use vstd::string::*;
use crate::error::NetlinkError;

verus! {

/// The least multiple of four that is not below `n`.
pub open spec fn align4(n: int) -> int {
    ((n + 3) / 4) * 4
}

/// `n` zero bytes.
pub open spec fn zeros(n: int) -> Seq<u8> {
    Seq::new(n as nat, |i: int| 0u8)
}

/// `s` followed by the zero bytes that bring its length to a multiple of four.
pub open spec fn pad4(s: Seq<u8>) -> Seq<u8> {
    s + zeros(align4(s.len() as int) - s.len())
}

/// Four divides `align4(n)`, which is the first such number from `n` on.
pub proof fn lemma_align4(n: int)
    requires
        n >= 0,
    ensures
        align4(n) % 4 == 0,
        n <= align4(n) < n + 4,
        n % 4 == 0 ==> align4(n) == n,
{
}

/// Padding keeps the bytes, adds zeros only, and ends on a multiple of four.
pub proof fn lemma_pad4(s: Seq<u8>)
    ensures
        pad4(s).len() == align4(s.len() as int),
        pad4(s).len() % 4 == 0,
        pad4(s).subrange(0, s.len() as int) == s,
        forall|i: int| s.len() <= i < pad4(s).len() ==> pad4(s)[i] == 0u8,
        s.len() % 4 == 0 ==> pad4(s) == s,
{
    lemma_align4(s.len() as int);
    assert(pad4(s).subrange(0, s.len() as int) =~= s);
    if s.len() % 4 == 0 {
        assert(pad4(s) =~= s);
    }
}

/// How far a reader moves over a frame of stated length `len` when `total`
/// bytes are left: the padded length, or what is left where the padding of
/// the last frame is missing.
pub open spec fn frame_step(len: int, total: int) -> int {
    if align4(len) <= total {
        align4(len)
    } else {
        total
    }
}

/// Whether `a` is a power of two.
pub open spec fn is_alignment(a: usize) -> bool {
    a > 0 && a & ((a - 1) as usize) == 0
}

/// Four is a power of two.
pub proof fn lemma_alignment_four()
    ensures
        is_alignment(4),
{
    assert(4usize & 3usize == 0) by (bit_vector);
}

/// Rounds `len` up to the next multiple of `align_to`, a power of two: the
/// one value in `len .. len + align_to` whose bits below `align_to` are zero.
pub fn align_of(len: usize, align_to: usize) -> (r: usize)
    requires
        is_alignment(align_to),
        len + align_to - 1 <= usize::MAX,
    ensures
        r & ((align_to - 1) as usize) == 0,
        len <= r < len + align_to,
        align_to == 4 ==> r == align4(len as int),
{
    let low: usize = align_to - 1;
    let r: usize = (len + low) & !low;
    assert(r & low == 0 && len <= r && r - len <= low) by (bit_vector)
        requires
            align_to & low == 0,
            low == align_to - 1,
            len + low == ((len + low) as usize),
            r == ((len + low) as usize) & !low,
    ;
    assert(align_to == 4 ==> r == ((len + 3) / 4) * 4) by (bit_vector)
        requires
            low == align_to - 1,
            len + low == ((len + low) as usize),
            r == ((len + low) as usize) & !low,
    ;
    r
}

/// The UTF-8 bytes of `s` followed by one zero byte.
pub fn zero_terminated(s: &str) -> (v: Vec<u8>)
    ensures
        v@ == s.spec_bytes().push(0u8),
{
    let mut v = slice_to_vec(s.as_bytes());
    v.push(0);
    v
}

/// The bytes that an optional byte string holds, if it holds any.
pub open spec fn opt_bytes(o: Option<Vec<u8>>) -> Option<Seq<u8>> {
    match o {
        Some(v) => Some(v@),
        None => None,
    }
}

/// The bytes of `s` without the zero byte at their end, if there is one.
pub open spec fn strip_nul(s: Seq<u8>) -> Seq<u8> {
    if s.len() > 0 && s.last() == 0u8 {
        s.drop_last()
    } else {
        s
    }
}

/// The text that `s` spells in UTF-8 once the zero byte at its end, if
/// there is one, is taken off; none where the rest is not valid UTF-8.
pub open spec fn text_of(s: Seq<u8>) -> Option<Seq<char>> {
    if vstd::utf8::valid_utf8(strip_nul(s)) {
        Some(vstd::utf8::decode_utf8(strip_nul(s)))
    } else {
        None
    }
}

/// `String::from_utf8`: the text that the bytes spell in UTF-8, and none
/// where they are not valid UTF-8.
#[verifier::external_body]
pub(crate) fn string_from_utf8(bytes: Vec<u8>) -> (r: Option<String>)
    ensures
        r is Some <==> vstd::utf8::valid_utf8(bytes@),
        r is Some ==> r->Some_0@ == vstd::utf8::decode_utf8(bytes@),
{
    String::from_utf8(bytes).ok()
}

/// Reads a text from the payload of an attribute, with or without a zero
/// byte at its end.
pub fn read_text(value: &[u8]) -> (r: Result<String, NetlinkError>)
    ensures
        match text_of(value@) {
            Some(t) => r is Ok && r->Ok_0@ == t,
            None => r == Err::<String, NetlinkError>(NetlinkError::MalformedMessage),
        },
{
    let n: usize = value.len();
    let end: usize = if n > 0 && value[n - 1] == 0 {
        n - 1
    } else {
        n
    };
    let bytes = slice_to_vec(slice_subrange(value, 0, end));
    assert(bytes@ =~= strip_nul(value@));
    match string_from_utf8(bytes) {
        Some(s) => Ok(s),
        None => Err(NetlinkError::MalformedMessage),
    }
}

/// Appends the bytes of `src` to `buf`.
pub fn append_bytes(buf: &mut Vec<u8>, src: &[u8])
    ensures
        final(buf)@ == old(buf)@ + src@,
{
    buf.extend_from_slice(src);
    assert(buf@ =~= old(buf)@ + src@);
}

/// Appends zero bytes to `buf` until its length is a multiple of four.
pub fn pad_to4(buf: &mut Vec<u8>)
    ensures
        final(buf)@ == pad4(old(buf)@),
{
    while buf.len() % 4 != 0
        invariant
            buf@.len() >= old(buf)@.len(),
            buf@.len() <= align4(old(buf)@.len() as int),
            buf@ == old(buf)@ + zeros(buf@.len() - old(buf)@.len()),
        decreases align4(old(buf)@.len() as int) - buf@.len(),
    {
        buf.push(0);
        assert(buf@ =~= old(buf)@ + zeros(buf@.len() - old(buf)@.len()));
    }
    assert(buf@ =~= pad4(old(buf)@));
}

/// A text comes back from its UTF-8 bytes, with a zero byte behind them or,
/// unless its last byte is zero, without one.
pub proof fn lemma_text_roundtrip(s: Seq<char>)
    ensures
        text_of(vstd::utf8::encode_utf8(s).push(0u8)) == Some(s),
        (vstd::utf8::encode_utf8(s).len() == 0 || vstd::utf8::encode_utf8(s).last() != 0u8)
            ==> text_of(vstd::utf8::encode_utf8(s)) == Some(s),
{
    let bytes = vstd::utf8::encode_utf8(s);
    vstd::utf8::encode_utf8_valid_utf8(s);
    vstd::utf8::encode_utf8_decode_utf8(s);
    assert(bytes.push(0u8).drop_last() =~= bytes);
}

} // verus!
