//! XATTR (0x0F): the extended attributes of one path.

use vstd::prelude::*;
use vstd::utf8::*;
use bytes::Bytes;
use crate::streaming::messages::{
    finish_frame, frame, lemma_read_blob32, lemma_read_str16, lemma_read_u16, result_view,
    DecodeError, Field,
};
use crate::streaming::protocol::MessageType;
use crate::streaming::wire::{
    be16, blob32, bytes_as_slice, bytes_contents, bytes_slice, get_str, get_u16, get_u32,
    put_blob32, put_str16, put_u16, str16, u16_at, u32_at,
};

verus! {

broadcast use encode_utf8_valid_utf8, encode_utf8_decode_utf8;

#[derive(Debug)]
pub struct XattrEntry {
    pub name: String,
    pub value: Bytes,
}

pub struct XattrEntryView {
    pub name: Seq<char>,
    pub value: Seq<u8>,
}

impl View for XattrEntry {
    type V = XattrEntryView;

    open spec fn view(&self) -> XattrEntryView {
        XattrEntryView { name: self.name@, value: bytes_contents(self.value) }
    }
}

#[derive(Debug)]
pub struct Xattr {
    pub path: String,
    pub entries: Vec<XattrEntry>,
}

pub struct XattrView {
    pub path: Seq<char>,
    pub entries: Seq<XattrEntryView>,
}

impl View for Xattr {
    type V = XattrView;

    open spec fn view(&self) -> XattrView {
        XattrView { path: self.path@, entries: self.entries@.map_values(|e: XattrEntry| e@) }
    }
}

pub open spec fn entry_bytes(e: XattrEntryView) -> Seq<u8> {
    str16(e.name) + blob32(e.value)
}

/// The entries one after another, as XATTR carries them.
pub open spec fn entries_bytes(es: Seq<XattrEntryView>) -> Seq<u8>
    decreases es.len(),
{
    if es.len() == 0 {
        Seq::empty()
    } else {
        entry_bytes(es[0]) + entries_bytes(es.drop_first())
    }
}

pub open spec fn xattr_payload(v: XattrView) -> Seq<u8> {
    str16(v.path) + be16(v.entries.len() as u16) + entries_bytes(v.entries)
}

/// Decodes entries `i..count`, the first of them starting at `pos`.
pub open spec fn spec_decode_xattr_entries(p: Seq<u8>, pos: int, i: int, count: int) -> Result<
    Seq<XattrEntryView>,
    DecodeError,
>
    decreases count - i,
{
    if i >= count {
        Ok(Seq::empty())
    } else if p.len() - pos < 2 {
        Err(DecodeError::Truncated(MessageType::Xattr, Field::XattrNameLength(i as u16)))
    } else {
        let nl = u16_at(p, pos) as int;
        if p.len() - pos - 2 < nl + 4 {
            Err(DecodeError::Truncated(MessageType::Xattr, Field::XattrEntry(i as u16)))
        } else if !valid_utf8(p.subrange(pos + 2, pos + 2 + nl)) {
            Err(DecodeError::InvalidUtf8(MessageType::Xattr, Field::XattrName))
        } else {
            let vl = u32_at(p, pos + 2 + nl) as int;
            if p.len() - (pos + 6 + nl) < vl {
                Err(DecodeError::Truncated(MessageType::Xattr, Field::XattrValue(i as u16)))
            } else {
                let e = XattrEntryView {
                    name: decode_utf8(p.subrange(pos + 2, pos + 2 + nl)),
                    value: p.subrange(pos + 6 + nl, pos + 6 + nl + vl),
                };
                match spec_decode_xattr_entries(p, pos + 6 + nl + vl, i + 1, count) {
                    Ok(rest) => Ok(seq![e] + rest),
                    Err(err) => Err(err),
                }
            }
        }
    }
}

pub open spec fn spec_decode_xattr(p: Seq<u8>) -> Result<XattrView, DecodeError> {
    if p.len() < 2 {
        Err(DecodeError::TooShort(MessageType::Xattr))
    } else {
        let n = u16_at(p, 0) as int;
        if p.len() - 2 < n + 2 {
            Err(DecodeError::Truncated(MessageType::Xattr, Field::Payload))
        } else if !valid_utf8(p.subrange(2, 2 + n)) {
            Err(DecodeError::InvalidUtf8(MessageType::Xattr, Field::Path))
        } else {
            match spec_decode_xattr_entries(p, 4 + n, 0, u16_at(p, 2 + n) as int) {
                Ok(entries) => Ok(XattrView { path: decode_utf8(p.subrange(2, 2 + n)), entries }),
                Err(e) => Err(e),
            }
        }
    }
}

proof fn lemma_entries_bytes_push(es: Seq<XattrEntryView>, e: XattrEntryView)
    ensures
        entries_bytes(es.push(e)) == entries_bytes(es) + entry_bytes(e),
    decreases es.len(),
{
    if es.len() == 0 {
        assert(es.push(e).drop_first() =~= Seq::<XattrEntryView>::empty());
        assert(es.push(e)[0] == e);
        assert(entries_bytes(Seq::<XattrEntryView>::empty()) == Seq::<u8>::empty());
        assert(entries_bytes(es.push(e)) =~= entry_bytes(e));
    } else {
        assert(es.push(e).drop_first() =~= es.drop_first().push(e));
        lemma_entries_bytes_push(es.drop_first(), e);
        assert(entries_bytes(es.push(e)) =~= entries_bytes(es) + entry_bytes(e));
    }
}

impl Xattr {
    pub fn encode(&self) -> (r: Bytes)
        ensures
            bytes_contents(r) == frame(MessageType::Xattr, xattr_payload(self@)),
    {
        let mut p: Vec<u8> = Vec::new();
        put_str16(&mut p, &self.path);
        put_u16(&mut p, self.entries.len() as u16);
        let ghost start = p@;
        let ghost es = self@.entries;
        let mut i: usize = 0;
        while i < self.entries.len()
            invariant
                i <= self.entries@.len(),
                es == self.entries@.map_values(|e: XattrEntry| e@),
                p@ == start + entries_bytes(es.take(i as int)),
            decreases self.entries@.len() - i,
        {
            let entry = &self.entries[i];
            put_str16(&mut p, &entry.name);
            put_blob32(&mut p, bytes_as_slice(&entry.value));
            proof {
                assert(es.take(i + 1) =~= es.take(i as int).push(es[i as int]));
                lemma_entries_bytes_push(es.take(i as int), es[i as int]);
            }
            i = i + 1;
        }
        assert(es.take(es.len() as int) =~= es);
        finish_frame(MessageType::Xattr, &p)
    }

    pub fn decode(payload: Bytes) -> (r: Result<Self, DecodeError>)
        ensures
            result_view(r) == spec_decode_xattr(bytes_contents(payload)),
    {
        let s = bytes_as_slice(&payload);
        let n = s.len();
        if n < 2 {
            return Err(DecodeError::TooShort(MessageType::Xattr));
        }
        let pl = get_u16(s, 0) as usize;
        if n - 2 < pl + 2 {
            return Err(DecodeError::Truncated(MessageType::Xattr, Field::Payload));
        }
        let path = match get_str(s, 2, pl) {
            Some(t) => t,
            None => {
                return Err(DecodeError::InvalidUtf8(MessageType::Xattr, Field::Path));
            },
        };
        let count = get_u16(s, 2 + pl);
        let ghost sp = s@;
        let ghost whole = spec_decode_xattr_entries(sp, 4 + pl, 0, count as int);
        assert(spec_decode_xattr(sp) == match whole {
            Ok(entries) => Ok(XattrView { path: path@, entries }),
            Err(e) => Err::<XattrView, DecodeError>(e),
        });
        let mut entries: Vec<XattrEntry> = Vec::with_capacity(count as usize);
        let mut pos: usize = 4 + pl;
        let mut i: u16 = 0;
        while i < count
            invariant
                i <= count,
                pos <= n,
                n == sp.len(),
                sp == s@,
                sp == bytes_contents(payload),
                spec_decode_xattr(sp) == match whole {
                    Ok(entries) => Ok(XattrView { path: path@, entries }),
                    Err(e) => Err::<XattrView, DecodeError>(e),
                },
                whole == match spec_decode_xattr_entries(sp, pos as int, i as int, count as int) {
                    Ok(rest) => Ok(entries@.map_values(|e: XattrEntry| e@) + rest),
                    Err(err) => Err(err),
                },
            decreases count - i,
        {
            if n - pos < 2 {
                assert(spec_decode_xattr_entries(sp, pos as int, i as int, count as int) == Err::<
                    Seq<XattrEntryView>,
                    DecodeError,
                >(DecodeError::Truncated(MessageType::Xattr, Field::XattrNameLength(i))));
                return Err(DecodeError::Truncated(MessageType::Xattr, Field::XattrNameLength(i)));
            }
            let nl = get_u16(s, pos) as usize;
            if n - pos - 2 < nl + 4 {
                return Err(DecodeError::Truncated(MessageType::Xattr, Field::XattrEntry(i)));
            }
            let name = match get_str(s, pos + 2, nl) {
                Some(t) => t,
                None => {
                    return Err(DecodeError::InvalidUtf8(MessageType::Xattr, Field::XattrName));
                },
            };
            let vl = get_u32(s, pos + 2 + nl) as usize;
            if n - (pos + 6 + nl) < vl {
                return Err(DecodeError::Truncated(MessageType::Xattr, Field::XattrValue(i)));
            }
            let value = bytes_slice(&payload, pos + 6 + nl, pos + 6 + nl + vl);
            let ghost before = entries@.map_values(|e: XattrEntry| e@);
            let entry = XattrEntry { name, value };
            let ghost ev = entry@;
            entries.push(entry);
            proof {
                assert(entries@.map_values(|e: XattrEntry| e@) =~= before.push(ev));
                match spec_decode_xattr_entries(sp, (pos + 6 + nl + vl) as int, i + 1, count as int) {
                    Ok(rest) => {
                        assert(before + (seq![ev] + rest) =~= before.push(ev) + rest);
                    },
                    Err(_) => {},
                }
            }
            pos = pos + 6 + nl + vl;
            i = i + 1;
        }
        proof {
            assert(entries@.map_values(|e: XattrEntry| e@) + Seq::<XattrEntryView>::empty()
                =~= entries@.map_values(|e: XattrEntry| e@));
        }
        Ok(Xattr { path, entries })
    }
}

/// Decoding the encoded entries `es`, as entries `i..count` of a message, gives
/// them back.
proof fn lemma_entries_roundtrip(a: Seq<u8>, es: Seq<XattrEntryView>, b: Seq<u8>, i: int, count: int)
    requires
        0 <= i,
        es.len() == count - i,
        forall|k: int|
            0 <= k < es.len() ==> encode_utf8(#[trigger] es[k].name).len() <= 0xFFFF
                && es[k].value.len() <= 0xFFFF_FFFF,
    ensures
        spec_decode_xattr_entries(a + entries_bytes(es) + b, a.len() as int, i, count) == Ok::<
            Seq<XattrEntryView>,
            DecodeError,
        >(es),
    decreases es.len(),
{
    if es.len() > 0 {
        let e = es[0];
        let rest = es.drop_first();
        let s = a + entries_bytes(es) + b;
        let pos = a.len() as int;
        let nl = encode_utf8(e.name).len() as int;
        let vl = e.value.len() as int;
        assert(encode_utf8(es[0].name).len() <= 0xFFFF && es[0].value.len() <= 0xFFFF_FFFF);
        let tail = entries_bytes(rest) + b;
        assert(s =~= a + str16(e.name) + (blob32(e.value) + tail));
        lemma_read_str16(a, e.name, blob32(e.value) + tail);
        let a1 = a + str16(e.name);
        assert(s =~= a1 + blob32(e.value) + tail);
        lemma_read_blob32(a1, e.value, tail);
        let a2 = a1 + blob32(e.value);
        assert(a2.len() == pos + 6 + nl + vl);
        assert(s =~= a2 + entries_bytes(rest) + b);
        assert forall|k: int| 0 <= k < rest.len() implies encode_utf8(#[trigger] rest[k].name).len()
            <= 0xFFFF && rest[k].value.len() <= 0xFFFF_FFFF by {
            assert(rest[k] == es[k + 1]);
        }
        lemma_entries_roundtrip(a2, rest, b, i + 1, count);
        let ev = XattrEntryView {
            name: decode_utf8(s.subrange(pos + 2, pos + 2 + nl)),
            value: s.subrange(pos + 6 + nl, pos + 6 + nl + vl),
        };
        assert(ev == e);
        assert(seq![e] + rest =~= es);
    } else {
        assert(es =~= Seq::<XattrEntryView>::empty());
    }
}

/// Decoding the payload of an encoded XATTR gives back the message, provided
/// it has at most 65535 entries, and its path and every name fit their 16-bit
/// length fields and every value its 32-bit one.
pub proof fn lemma_xattr_roundtrip(v: XattrView)
    requires
        encode_utf8(v.path).len() <= 0xFFFF,
        v.entries.len() <= 0xFFFF,
        forall|k: int|
            0 <= k < v.entries.len() ==> encode_utf8(#[trigger] v.entries[k].name).len() <= 0xFFFF
                && v.entries[k].value.len() <= 0xFFFF_FFFF,
    ensures
        spec_decode_xattr(xattr_payload(v)) == Ok::<XattrView, DecodeError>(v),
{
    let e = Seq::<u8>::empty();
    let p = xattr_payload(v);
    let eb = entries_bytes(v.entries);
    let cnt = v.entries.len() as u16;
    assert(p =~= e + str16(v.path) + (be16(cnt) + eb));
    lemma_read_str16(e, v.path, be16(cnt) + eb);
    assert(p =~= str16(v.path) + be16(cnt) + eb);
    lemma_read_u16(str16(v.path), cnt, eb);
    assert(p =~= (str16(v.path) + be16(cnt)) + eb + e);
    lemma_entries_roundtrip(str16(v.path) + be16(cnt), v.entries, e, 0, v.entries.len() as int);
}

} // verus!
