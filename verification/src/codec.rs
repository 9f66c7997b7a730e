//! Bytes: integers in little-endian and big-endian order, and UTF-8.
use vstd::prelude::*;
use vstd::utf8::{decode_utf8, valid_utf8};

verus! {

/// The four bytes of `n`, least significant first.
pub open spec fn le32(n: u32) -> Seq<u8> {
    seq![
        (n % 256) as u8,
        (n / 256 % 256) as u8,
        (n / 65536 % 256) as u8,
        (n / 16777216) as u8,
    ]
}

/// The number whose four bytes stand in `b` from `at` on, least significant first.
pub open spec fn le32_at(b: Seq<u8>, at: int) -> u32 {
    (b[at] + 256 * b[at + 1] + 65536 * b[at + 2] + 16777216 * b[at + 3]) as u32
}

/// The two bytes of `n`, most significant first.
pub open spec fn be16(n: u16) -> Seq<u8> {
    seq![(n / 256) as u8, (n % 256) as u8]
}

/// The number whose two bytes stand in `b` from `at` on, most significant first.
pub open spec fn be16_at(b: Seq<u8>, at: int) -> u16 {
    (256 * b[at] + b[at + 1]) as u16
}

/// Reading back the bytes of a number gives the number.
pub proof fn lemma_le32(n: u32, b: Seq<u8>, at: int)
    requires
        0 <= at,
        at + 4 <= b.len(),
        b.subrange(at, at + 4) == le32(n),
    ensures
        le32_at(b, at) == n,
{
    let s = b.subrange(at, at + 4);
    assert(s[0] == b[at] && s[1] == b[at + 1] && s[2] == b[at + 2] && s[3] == b[at + 3]);
    let a0 = n % 256;
    let a1 = n / 256 % 256;
    let a2 = n / 65536 % 256;
    let a3 = n / 16777216;
    assert(a0 + 256 * a1 + 65536 * a2 + 16777216 * a3 == n);
}

/// Reading back the bytes of a sixteen-bit number gives the number.
pub proof fn lemma_be16(n: u16, b: Seq<u8>, at: int)
    requires
        0 <= at,
        at + 2 <= b.len(),
        b.subrange(at, at + 2) == be16(n),
    ensures
        be16_at(b, at) == n,
{
    let s = b.subrange(at, at + 2);
    assert(s[0] == b[at] && s[1] == b[at + 1]);
}

/// The bytes of `n`, least significant first.
pub fn to_le32(n: u32) -> (v: Vec<u8>)
    ensures
        v@ == le32(n),
{
    let mut v: Vec<u8> = Vec::new();
    v.push((n % 256) as u8);
    v.push((n / 256 % 256) as u8);
    v.push((n / 65536 % 256) as u8);
    v.push((n / 16777216) as u8);
    assert(v@ =~= le32(n));
    v
}

/// The number whose bytes stand in `b` from `at` on, least significant first.
pub fn from_le32(b: &[u8], at: usize) -> (n: u32)
    requires
        at + 4 <= b@.len(),
    ensures
        n == le32_at(b@, at as int),
{
    b[at] as u32 + 256 * (b[at + 1] as u32) + 65536 * (b[at + 2] as u32) + 16777216 * (b[at
        + 3] as u32)
}

/// The bytes of `n`, most significant first.
pub fn to_be16(n: u16) -> (v: Vec<u8>)
    ensures
        v@ == be16(n),
{
    let mut v: Vec<u8> = Vec::new();
    v.push((n / 256) as u8);
    v.push((n % 256) as u8);
    assert(v@ =~= be16(n));
    v
}

/// The number whose bytes stand in `b` from `at` on, most significant first.
pub fn from_be16(b: &[u8], at: usize) -> (n: u16)
    requires
        at + 2 <= b@.len(),
    ensures
        n == be16_at(b@, at as int),
{
    256 * (b[at] as u16) + b[at + 1] as u16
}

/// Appends `more`.
pub fn push_bytes(buf: &mut Vec<u8>, more: &[u8])
    ensures
        final(buf)@ == old(buf)@ + more@,
{
    let ghost start = buf@;
    let mut i: usize = 0;
    while i < more.len()
        invariant
            i <= more.len(),
            buf@ == start + more@.take(i as int),
        decreases more.len() - i,
    {
        buf.push(more[i]);
        i = i + 1;
        assert(buf@ =~= start + more@.take(i as int));
    }
    assert(more@.take(more.len() as int) =~= more@);
}

/// `n` bytes of zero.
pub open spec fn zeros(n: nat) -> Seq<u8> {
    Seq::new(n, |i: int| 0u8)
}

/// Appends `n` bytes of zero.
pub fn push_zeros(buf: &mut Vec<u8>, n: usize)
    ensures
        final(buf)@ == old(buf)@ + zeros(n as nat),
{
    let ghost start = buf@;
    let mut i: usize = 0;
    while i < n
        invariant
            i <= n,
            buf@ == start + zeros(i as nat),
        decreases n - i,
    {
        buf.push(0u8);
        i = i + 1;
        assert(buf@ =~= start + zeros(i as nat));
    }
}

/// A copy of `bytes`.
pub fn copy_bytes(bytes: &[u8]) -> (v: Vec<u8>)
    ensures
        v@ == bytes@,
{
    let mut v: Vec<u8> = Vec::new();
    push_bytes(&mut v, bytes);
    assert(v@ =~= bytes@);
    v
}

/// `std::str::from_utf8` of the standard library, with a copy of the text it gives: the bytes
/// are accepted exactly when they are valid UTF-8, and the text is what they encode.
#[verifier::external_body]
pub(crate) fn utf8_text(bytes: &[u8]) -> (r: Option<String>)
    ensures
        match r {
            Some(s) => valid_utf8(bytes@) && s@ == decode_utf8(bytes@),
            None => !valid_utf8(bytes@),
        },
{
    match std::str::from_utf8(bytes) {
        Ok(s) => Some(s.to_string()),
        Err(_) => None,
    }
}

/// What `String::from_utf8_lossy` makes of `bytes`: bytes that are not UTF-8 become
/// replacement characters.
pub uninterp spec fn lossy_text(bytes: Seq<u8>) -> Seq<char>;

/// `String::from_utf8_lossy` of the standard library, as an owned string. The result is named;
/// of valid UTF-8 it is the text that the bytes encode.
#[verifier::external_body]
pub(crate) fn utf8_lossy(bytes: &[u8]) -> (s: String)
    ensures
        s@ == lossy_text(bytes@),
        valid_utf8(bytes@) ==> s@ == decode_utf8(bytes@),
{
    String::from_utf8_lossy(bytes).to_string()
}

/// A number in four bytes is worth what its bytes are, each two hundred and fifty-six times the
/// one before it; in two bytes, the first is worth more.
pub proof fn bytes_have_their_weight(n: u32, m: u16, b: Seq<u8>, at: int)
    ensures
        ({
            let w = le32(n);
            w.len() == 4 && w[0] + 256 * (w[1] + 256 * (w[2] + 256 * w[3])) == n
        }),
        ({
            let w = be16(m);
            w.len() == 2 && 256 * w[0] + w[1] == m
        }),
        b[at] + 256 * (b[at + 1] + 256 * (b[at + 2] + 256 * b[at + 3])) == le32_at(b, at),
        256 * b[at] + b[at + 1] == be16_at(b, at),
{
    assert(le32(n).subrange(0, 4) =~= le32(n));
    lemma_le32(n, le32(n), 0);
}

} // verus!
