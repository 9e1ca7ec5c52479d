//! Byte-level building blocks of the wire format: big-endian integers,
//! length-prefixed UTF-8 strings, and the `bytes::Bytes` buffers that carry
//! frames and payloads.

use vstd::prelude::*;
use vstd::utf8::*;
use bytes::Bytes;

verus! {

// -----------------------------------------------------------------------------
// The outside byte buffer
// -----------------------------------------------------------------------------

#[verifier::external_type_specification]
#[verifier::external_body]
pub struct ExBytes(bytes::Bytes);

/// The bytes held by a `bytes::Bytes` buffer, front to back.
pub uninterp spec fn bytes_contents(b: Bytes) -> Seq<u8>;

/// `Bytes::from(Vec<u8>)`: the buffer takes over the vector and holds
/// exactly its bytes.
#[verifier::external_body]
pub(crate) fn bytes_from_vec(v: Vec<u8>) -> (r: Bytes)
    ensures
        bytes_contents(r) == v@,
{
    Bytes::from(v)
}

/// `<Bytes as AsRef<[u8]>>::as_ref`: a view of the buffer's bytes.
#[verifier::external_body]
pub(crate) fn bytes_as_slice(b: &Bytes) -> (r: &[u8])
    ensures
        r@ == bytes_contents(*b),
{
    b.as_ref()
}

/// `Bytes::slice(start..end)`: a buffer holding bytes `start..end` of `b`.
/// The crate panics when the range is out of bounds, which `requires` rules out.
#[verifier::external_body]
pub(crate) fn bytes_slice(b: &Bytes, start: usize, end: usize) -> (r: Bytes)
    requires
        start <= end <= bytes_contents(*b).len(),
    ensures
        bytes_contents(r) == bytes_contents(*b).subrange(start as int, end as int),
{
    b.slice(start..end)
}

/// `String::from_utf8`: succeeds exactly on valid UTF-8, and the string then
/// consists of those bytes.
#[verifier::external_body]
fn string_from_utf8(v: Vec<u8>) -> (r: Option<String>)
    ensures
        r is Some <==> valid_utf8(v@),
        r matches Some(s) ==> encode_utf8(s@) == v@,
{
    String::from_utf8(v).ok()
}

// -----------------------------------------------------------------------------
// Big-endian integers
// -----------------------------------------------------------------------------

pub open spec fn be16(v: u16) -> Seq<u8> {
    seq![(v >> 8u16) as u8, v as u8]
}

pub open spec fn be32(v: u32) -> Seq<u8> {
    seq![(v >> 24u32) as u8, (v >> 16u32) as u8, (v >> 8u32) as u8, v as u8]
}

pub open spec fn be64(v: u64) -> Seq<u8> {
    seq![
        (v >> 56u64) as u8,
        (v >> 48u64) as u8,
        (v >> 40u64) as u8,
        (v >> 32u64) as u8,
        (v >> 24u64) as u8,
        (v >> 16u64) as u8,
        (v >> 8u64) as u8,
        v as u8,
    ]
}

/// The big-endian `u16` stored at `s[i..i + 2]`.
pub open spec fn u16_at(s: Seq<u8>, i: int) -> u16 {
    (((s[i] as u16) << 8u16) | (s[i + 1] as u16)) as u16
}

/// The big-endian `u32` stored at `s[i..i + 4]`.
pub open spec fn u32_at(s: Seq<u8>, i: int) -> u32 {
    ((((s[i] as u32) << 24u32) | ((s[i + 1] as u32) << 16u32)) | (((s[i + 2] as u32) << 8u32) | (
    s[i + 3] as u32))) as u32
}

/// The big-endian `u64` stored at `s[i..i + 8]`.
pub open spec fn u64_at(s: Seq<u8>, i: int) -> u64 {
    ((((((s[i] as u64) << 56u64) | ((s[i + 1] as u64) << 48u64)) | (((s[i + 2] as u64) << 40u64) | (
    (s[i + 3] as u64) << 32u64))) | ((((s[i + 4] as u64) << 24u64) | ((s[i + 5] as u64) << 16u64))
        | (((s[i + 6] as u64) << 8u64) | (s[i + 7] as u64))))) as u64
}

/// A UTF-8 string behind its `u16` byte length, as the wire carries names and paths.
/// The length is cut to 16 bits, as the encoder does.
pub open spec fn str16(s: Seq<char>) -> Seq<u8> {
    be16(encode_utf8(s).len() as u16) + encode_utf8(s)
}

/// Raw bytes behind their `u32` length.
pub open spec fn blob32(b: Seq<u8>) -> Seq<u8> {
    be32(b.len() as u32) + b
}

pub proof fn lemma_u16_roundtrip(s: Seq<u8>, i: int, v: u16)
    requires
        0 <= i,
        i + 2 <= s.len(),
        s.subrange(i, i + 2) == be16(v),
    ensures
        u16_at(s, i) == v,
{
    assert(s[i] == s.subrange(i, i + 2)[0]);
    assert(s[i + 1] == s.subrange(i, i + 2)[1]);
    let b0 = s[i];
    let b1 = s[i + 1];
    assert(b0 == (v >> 8u16) as u8 && b1 == v as u8 ==> (((b0 as u16) << 8u16) | (b1 as u16)) == v)
        by (bit_vector);
}

pub proof fn lemma_u32_roundtrip(s: Seq<u8>, i: int, v: u32)
    requires
        0 <= i,
        i + 4 <= s.len(),
        s.subrange(i, i + 4) == be32(v),
    ensures
        u32_at(s, i) == v,
{
    let t = s.subrange(i, i + 4);
    assert(s[i] == t[0] && s[i + 1] == t[1] && s[i + 2] == t[2] && s[i + 3] == t[3]);
    let b0 = s[i];
    let b1 = s[i + 1];
    let b2 = s[i + 2];
    let b3 = s[i + 3];
    assert(b0 == (v >> 24u32) as u8 && b1 == (v >> 16u32) as u8 && b2 == (v >> 8u32) as u8 && b3
        == v as u8 ==> ((((b0 as u32) << 24u32) | ((b1 as u32) << 16u32)) | (((b2 as u32) << 8u32)
        | (b3 as u32))) == v) by (bit_vector);
}

pub proof fn lemma_u64_roundtrip(s: Seq<u8>, i: int, v: u64)
    requires
        0 <= i,
        i + 8 <= s.len(),
        s.subrange(i, i + 8) == be64(v),
    ensures
        u64_at(s, i) == v,
{
    let t = s.subrange(i, i + 8);
    assert(s[i] == t[0] && s[i + 1] == t[1] && s[i + 2] == t[2] && s[i + 3] == t[3]);
    assert(s[i + 4] == t[4] && s[i + 5] == t[5] && s[i + 6] == t[6] && s[i + 7] == t[7]);
    let b0 = s[i];
    let b1 = s[i + 1];
    let b2 = s[i + 2];
    let b3 = s[i + 3];
    let b4 = s[i + 4];
    let b5 = s[i + 5];
    let b6 = s[i + 6];
    let b7 = s[i + 7];
    assert(b0 == (v >> 56u64) as u8 && b1 == (v >> 48u64) as u8 && b2 == (v >> 40u64) as u8 && b3
        == (v >> 32u64) as u8 && b4 == (v >> 24u64) as u8 && b5 == (v >> 16u64) as u8 && b6 == (v
        >> 8u64) as u8 && b7 == v as u8 ==> ((((((b0 as u64) << 56u64) | ((b1 as u64) << 48u64)) | (
    ((b2 as u64) << 40u64) | ((b3 as u64) << 32u64))) | ((((b4 as u64) << 24u64) | ((b5 as u64)
        << 16u64)) | (((b6 as u64) << 8u64) | (b7 as u64))))) == v) by (bit_vector);
}

// -----------------------------------------------------------------------------
// Writing
// -----------------------------------------------------------------------------

pub fn put_u8(buf: &mut Vec<u8>, v: u8)
    ensures
        final(buf)@ == old(buf)@.push(v),
{
    buf.push(v);
}

pub fn put_u16(buf: &mut Vec<u8>, v: u16)
    ensures
        final(buf)@ == old(buf)@ + be16(v),
{
    buf.push((v >> 8u16) as u8);
    buf.push(v as u8);
}

pub fn put_u32(buf: &mut Vec<u8>, v: u32)
    ensures
        final(buf)@ == old(buf)@ + be32(v),
{
    buf.push((v >> 24u32) as u8);
    buf.push((v >> 16u32) as u8);
    buf.push((v >> 8u32) as u8);
    buf.push(v as u8);
}

pub fn put_u64(buf: &mut Vec<u8>, v: u64)
    ensures
        final(buf)@ == old(buf)@ + be64(v),
{
    buf.push((v >> 56u64) as u8);
    buf.push((v >> 48u64) as u8);
    buf.push((v >> 40u64) as u8);
    buf.push((v >> 32u64) as u8);
    buf.push((v >> 24u64) as u8);
    buf.push((v >> 16u64) as u8);
    buf.push((v >> 8u64) as u8);
    buf.push(v as u8);
}

pub fn put_slice(buf: &mut Vec<u8>, s: &[u8])
    ensures
        final(buf)@ == old(buf)@ + s@,
{
    let ghost start = buf@;
    let mut i: usize = 0;
    while i < s.len()
        invariant
            i <= s@.len(),
            buf@ == start + s@.subrange(0, i as int),
        decreases s@.len() - i,
    {
        buf.push(s[i]);
        i = i + 1;
        assert(s@.subrange(0, i as int) == s@.subrange(0, i - 1) .push(s@[i - 1]));
    }
    assert(s@.subrange(0, s@.len() as int) == s@);
}

pub fn put_str16(buf: &mut Vec<u8>, s: &String)
    ensures
        final(buf)@ == old(buf)@ + str16(s@),
{
    let b = s.as_str().as_bytes();
    put_u16(buf, b.len() as u16);
    put_slice(buf, b);
}

pub fn put_blob32(buf: &mut Vec<u8>, b: &[u8])
    ensures
        final(buf)@ == old(buf)@ + blob32(b@),
{
    put_u32(buf, b.len() as u32);
    put_slice(buf, b);
}

// -----------------------------------------------------------------------------
// Reading
// -----------------------------------------------------------------------------

pub fn get_u16(s: &[u8], pos: usize) -> (r: u16)
    requires
        pos + 2 <= s@.len(),
    ensures
        r == u16_at(s@, pos as int),
{
    (((s[pos] as u16) << 8u16) | (s[pos + 1] as u16)) as u16
}

pub fn get_u32(s: &[u8], pos: usize) -> (r: u32)
    requires
        pos + 4 <= s@.len(),
    ensures
        r == u32_at(s@, pos as int),
{
    ((((s[pos] as u32) << 24u32) | ((s[pos + 1] as u32) << 16u32)) | (((s[pos + 2] as u32) << 8u32)
        | (s[pos + 3] as u32))) as u32
}

pub fn get_u64(s: &[u8], pos: usize) -> (r: u64)
    requires
        pos + 8 <= s@.len(),
    ensures
        r == u64_at(s@, pos as int),
{
    ((((((s[pos] as u64) << 56u64) | ((s[pos + 1] as u64) << 48u64)) | (((s[pos + 2] as u64)
        << 40u64) | ((s[pos + 3] as u64) << 32u64))) | ((((s[pos + 4] as u64) << 24u64) | ((s[pos
        + 5] as u64) << 16u64)) | (((s[pos + 6] as u64) << 8u64) | (s[pos + 7] as u64))))) as u64
}

/// Decodes `s[pos..pos + len]` as UTF-8; `None` when those bytes are not valid UTF-8.
pub fn get_str(s: &[u8], pos: usize, len: usize) -> (r: Option<String>)
    requires
        pos + len <= s@.len(),
    ensures
        r is Some <==> valid_utf8(s@.subrange(pos as int, pos + len)),
        r matches Some(t) ==> t@ == decode_utf8(s@.subrange(pos as int, pos + len)),
{
    let mut v: Vec<u8> = Vec::with_capacity(len);
    let n = s.len();
    let mut i: usize = 0;
    while i < len
        invariant
            i <= len,
            n == s@.len(),
            pos + len <= s@.len(),
            v@ == s@.subrange(pos as int, pos + i),
        decreases len - i,
    {
        v.push(s[pos + i]);
        i = i + 1;
        assert(s@.subrange(pos as int, pos + i) == s@.subrange(pos as int, pos + i - 1).push(
            s@[pos + i - 1],
        ));
    }
    let r = string_from_utf8(v);
    proof {
        if r is Some {
            encode_utf8_decode_utf8(r->0@);
        }
    }
    r
}

} // verus!
