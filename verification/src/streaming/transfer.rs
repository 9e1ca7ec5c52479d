//! Messages of the streaming phase: file data and the operations that
//! create, link and delete entries, and the error reports.

use vstd::prelude::*;
use vstd::utf8::*;
use bytes::Bytes;
use crate::streaming::messages::{
    finish_frame, frame, lemma_read_blob32, lemma_read_str16, lemma_read_u16, lemma_read_u32,
    lemma_read_u64, lemma_read_u8, result_view, DecodeError, Field,
};
use crate::streaming::compress::{zstd_decoded, zstd_decompress};
use crate::streaming::protocol::{DataFlags, MessageType};
use crate::streaming::wire::{
    be16, be32, be64, blob32, bytes_as_slice, bytes_contents, bytes_slice, get_str, get_u16,
    get_u32, get_u64, put_blob32, put_slice, put_str16, put_u16, put_u32, put_u64, put_u8, str16, u16_at,
    u32_at, u64_at,
};

verus! {

broadcast use encode_utf8_valid_utf8, encode_utf8_decode_utf8;

// =============================================================================
// DATA (0x06)
// =============================================================================

#[derive(Debug)]
pub struct Data {
    pub path: String,
    pub offset: u64,
    pub flags: DataFlags,
    pub data: Bytes,
}

pub struct DataView {
    pub path: Seq<char>,
    pub offset: u64,
    pub flags: u8,
    pub data: Seq<u8>,
}

impl View for Data {
    type V = DataView;

    open spec fn view(&self) -> DataView {
        DataView {
            path: self.path@,
            offset: self.offset,
            flags: self.flags@,
            data: bytes_contents(self.data),
        }
    }
}

pub open spec fn data_payload(v: DataView) -> Seq<u8> {
    str16(v.path) + be64(v.offset) + seq![v.flags] + blob32(v.data)
}

pub open spec fn spec_decode_data(p: Seq<u8>) -> Result<DataView, DecodeError> {
    if p.len() < 2 {
        Err(DecodeError::TooShort(MessageType::Data))
    } else {
        let n = u16_at(p, 0) as int;
        if p.len() - 2 < n + 13 {
            Err(DecodeError::Truncated(MessageType::Data, Field::Payload))
        } else if !valid_utf8(p.subrange(2, 2 + n)) {
            Err(DecodeError::InvalidUtf8(MessageType::Data, Field::Path))
        } else {
            let dl = u32_at(p, 11 + n) as int;
            if p.len() - (15 + n) < dl {
                Err(DecodeError::Truncated(MessageType::Data, Field::Content))
            } else {
                Ok(
                    DataView {
                        path: decode_utf8(p.subrange(2, 2 + n)),
                        offset: u64_at(p, 2 + n),
                        flags: p[10 + n] & DataFlags::spec_all_bits(),
                        data: p.subrange(15 + n, 15 + n + dl),
                    },
                )
            }
        }
    }
}

/// What DATA bytes stand for: the bytes as they are, or, with COMPRESSED
/// (bit 0), what their zstd frame decodes to (none when it is not zstd).
pub open spec fn spec_data_content(flags: u8, data: Seq<u8>) -> Option<Seq<u8>> {
    if flags & 1u8 == 1u8 {
        zstd_decoded(data)
    } else {
        Some(data)
    }
}

impl Data {
    /// The bytes this DATA stands for, decompressed when it carries
    /// COMPRESSED; `None` when compressed data does not decode.
    pub fn content(&self) -> (r: Option<Vec<u8>>)
        ensures
            r is Some <==> spec_data_content(self.flags@, bytes_contents(self.data)) is Some,
            r matches Some(d) ==> spec_data_content(self.flags@, bytes_contents(self.data)) == Some(
                d@,
            ),
    {
        let raw = bytes_as_slice(&self.data);
        if self.flags.contains(DataFlags::compressed()) {
            zstd_decompress(raw)
        } else {
            let mut v: Vec<u8> = Vec::new();
            put_slice(&mut v, raw);
            Some(v)
        }
    }

    /// Whether the data is delta operations rather than raw bytes.
    pub fn is_delta(&self) -> (r: bool)
        ensures
            r == (self.flags@ & 2u8 == 2u8),
    {
        self.flags.contains(DataFlags::delta())
    }

    pub fn encode(&self) -> (r: Bytes)
        ensures
            bytes_contents(r) == frame(MessageType::Data, data_payload(self@)),
    {
        let mut p: Vec<u8> = Vec::new();
        put_str16(&mut p, &self.path);
        put_u64(&mut p, self.offset);
        put_u8(&mut p, self.flags.bits());
        put_blob32(&mut p, bytes_as_slice(&self.data));
        finish_frame(MessageType::Data, &p)
    }

    pub fn decode(payload: Bytes) -> (r: Result<Self, DecodeError>)
        ensures
            result_view(r) == spec_decode_data(bytes_contents(payload)),
    {
        let s = bytes_as_slice(&payload);
        let n = s.len();
        if n < 2 {
            return Err(DecodeError::TooShort(MessageType::Data));
        }
        let pl = get_u16(s, 0) as usize;
        if n - 2 < pl + 13 {
            return Err(DecodeError::Truncated(MessageType::Data, Field::Payload));
        }
        let path = match get_str(s, 2, pl) {
            Some(t) => t,
            None => {
                return Err(DecodeError::InvalidUtf8(MessageType::Data, Field::Path));
            },
        };
        let offset = get_u64(s, 2 + pl);
        let flags = DataFlags::from_bits_truncate(s[10 + pl]);
        let dl = get_u32(s, 11 + pl) as usize;
        if n - (15 + pl) < dl {
            return Err(DecodeError::Truncated(MessageType::Data, Field::Content));
        }
        let data = bytes_slice(&payload, 15 + pl, 15 + pl + dl);
        Ok(Data { path, offset, flags, data })
    }
}

/// Decoding the payload of an encoded DATA gives back the message, provided
/// its flags name only known flags, its path fits the 16-bit length field and
/// its data the 32-bit one.
pub proof fn lemma_data_roundtrip(v: DataView)
    requires
        v.flags & !DataFlags::spec_all_bits() == 0,
        encode_utf8(v.path).len() <= 0xFFFF,
        v.data.len() <= 0xFFFF_FFFF,
    ensures
        spec_decode_data(data_payload(v)) == Ok::<DataView, DecodeError>(v),
{
    let e = Seq::<u8>::empty();
    let p = data_payload(v);
    let sp = str16(v.path);
    let n = encode_utf8(v.path).len() as int;
    let tail = be64(v.offset) + seq![v.flags] + blob32(v.data);
    assert(p =~= e + sp + tail);
    lemma_read_str16(e, v.path, tail);
    assert(u64_at(p, 2 + n) == v.offset) by {
        assert(p =~= sp + be64(v.offset) + (seq![v.flags] + blob32(v.data)));
        lemma_read_u64(sp, v.offset, seq![v.flags] + blob32(v.data));
    }
    assert(p[10 + n] == v.flags) by {
        assert(p =~= (sp + be64(v.offset)) + seq![v.flags] + blob32(v.data));
        lemma_read_u8(sp + be64(v.offset), v.flags, blob32(v.data));
    }
    assert(u32_at(p, 11 + n) == v.data.len() && p.subrange(15 + n, 15 + n + v.data.len())
        == v.data) by {
        assert(p =~= (sp + be64(v.offset) + seq![v.flags]) + blob32(v.data) + e);
        lemma_read_blob32(sp + be64(v.offset) + seq![v.flags], v.data, e);
    }
    DataFlags::lemma_truncate_valid(v.flags);
}

// =============================================================================
// DATA_END (0x07)
// =============================================================================

#[derive(Debug, Clone)]
pub struct DataEnd {
    pub path: String,
    pub status: u8,
}

pub struct DataEndView {
    pub path: Seq<char>,
    pub status: u8,
}

impl View for DataEnd {
    type V = DataEndView;

    open spec fn view(&self) -> DataEndView {
        DataEndView { path: self.path@, status: self.status }
    }
}

pub open spec fn data_end_payload(v: DataEndView) -> Seq<u8> {
    str16(v.path) + seq![v.status]
}

pub open spec fn spec_decode_data_end(p: Seq<u8>) -> Result<DataEndView, DecodeError> {
    if p.len() < 2 {
        Err(DecodeError::TooShort(MessageType::DataEnd))
    } else {
        let n = u16_at(p, 0) as int;
        if p.len() - 2 < n + 1 {
            Err(DecodeError::Truncated(MessageType::DataEnd, Field::Payload))
        } else if !valid_utf8(p.subrange(2, 2 + n)) {
            Err(DecodeError::InvalidUtf8(MessageType::DataEnd, Field::Path))
        } else {
            Ok(DataEndView { path: decode_utf8(p.subrange(2, 2 + n)), status: p[2 + n] })
        }
    }
}

impl DataEnd {
    /// Whether the file's transfer ended well.
    pub fn is_ok(&self) -> (r: bool)
        ensures
            r == (self.status == Self::STATUS_OK),
    {
        self.status == Self::STATUS_OK
    }

    pub const STATUS_OK: u8 = 0;

    pub const STATUS_ERROR: u8 = 1;

    pub fn encode(&self) -> (r: Bytes)
        ensures
            bytes_contents(r) == frame(MessageType::DataEnd, data_end_payload(self@)),
    {
        let mut p: Vec<u8> = Vec::new();
        put_str16(&mut p, &self.path);
        put_u8(&mut p, self.status);
        finish_frame(MessageType::DataEnd, &p)
    }

    pub fn decode(payload: Bytes) -> (r: Result<Self, DecodeError>)
        ensures
            result_view(r) == spec_decode_data_end(bytes_contents(payload)),
    {
        let s = bytes_as_slice(&payload);
        let n = s.len();
        if n < 2 {
            return Err(DecodeError::TooShort(MessageType::DataEnd));
        }
        let pl = get_u16(s, 0) as usize;
        if n - 2 < pl + 1 {
            return Err(DecodeError::Truncated(MessageType::DataEnd, Field::Payload));
        }
        match get_str(s, 2, pl) {
            Some(path) => Ok(DataEnd { path, status: s[2 + pl] }),
            None => Err(DecodeError::InvalidUtf8(MessageType::DataEnd, Field::Path)),
        }
    }
}

/// Decoding the payload of an encoded DATA_END gives back the message, provided
/// its path fits the 16-bit length field.
pub proof fn lemma_data_end_roundtrip(v: DataEndView)
    requires
        encode_utf8(v.path).len() <= 0xFFFF,
    ensures
        spec_decode_data_end(data_end_payload(v)) == Ok::<DataEndView, DecodeError>(v),
{
    let e = Seq::<u8>::empty();
    let p = data_end_payload(v);
    assert(p =~= e + str16(v.path) + seq![v.status]);
    lemma_read_str16(e, v.path, seq![v.status]);
    lemma_read_u8(str16(v.path), v.status, e);
    assert(p =~= str16(v.path) + seq![v.status] + e);
}

// =============================================================================
// DELETE (0x08)
// =============================================================================

#[derive(Debug, Clone)]
pub struct Delete {
    pub path: String,
    pub is_dir: bool,
}

pub struct DeleteView {
    pub path: Seq<char>,
    pub is_dir: bool,
}

impl View for Delete {
    type V = DeleteView;

    open spec fn view(&self) -> DeleteView {
        DeleteView { path: self.path@, is_dir: self.is_dir }
    }
}

pub open spec fn bool_byte(b: bool) -> u8 {
    if b {
        1
    } else {
        0
    }
}

pub open spec fn delete_payload(v: DeleteView) -> Seq<u8> {
    str16(v.path) + seq![bool_byte(v.is_dir)]
}

pub open spec fn spec_decode_delete(p: Seq<u8>) -> Result<DeleteView, DecodeError> {
    if p.len() < 2 {
        Err(DecodeError::TooShort(MessageType::Delete))
    } else {
        let n = u16_at(p, 0) as int;
        if p.len() - 2 < n + 1 {
            Err(DecodeError::Truncated(MessageType::Delete, Field::Payload))
        } else if !valid_utf8(p.subrange(2, 2 + n)) {
            Err(DecodeError::InvalidUtf8(MessageType::Delete, Field::Path))
        } else {
            Ok(DeleteView { path: decode_utf8(p.subrange(2, 2 + n)), is_dir: p[2 + n] != 0 })
        }
    }
}

impl Delete {
    pub fn encode(&self) -> (r: Bytes)
        ensures
            bytes_contents(r) == frame(MessageType::Delete, delete_payload(self@)),
    {
        let mut p: Vec<u8> = Vec::new();
        put_str16(&mut p, &self.path);
        put_u8(
            &mut p,
            if self.is_dir {
                1
            } else {
                0
            },
        );
        finish_frame(MessageType::Delete, &p)
    }

    pub fn decode(payload: Bytes) -> (r: Result<Self, DecodeError>)
        ensures
            result_view(r) == spec_decode_delete(bytes_contents(payload)),
    {
        let s = bytes_as_slice(&payload);
        let n = s.len();
        if n < 2 {
            return Err(DecodeError::TooShort(MessageType::Delete));
        }
        let pl = get_u16(s, 0) as usize;
        if n - 2 < pl + 1 {
            return Err(DecodeError::Truncated(MessageType::Delete, Field::Payload));
        }
        match get_str(s, 2, pl) {
            Some(path) => Ok(Delete { path, is_dir: s[2 + pl] != 0 }),
            None => Err(DecodeError::InvalidUtf8(MessageType::Delete, Field::Path)),
        }
    }
}

/// Decoding the payload of an encoded DELETE gives back the message, provided
/// its path fits the 16-bit length field.
pub proof fn lemma_delete_roundtrip(v: DeleteView)
    requires
        encode_utf8(v.path).len() <= 0xFFFF,
    ensures
        spec_decode_delete(delete_payload(v)) == Ok::<DeleteView, DecodeError>(v),
{
    let e = Seq::<u8>::empty();
    let p = delete_payload(v);
    assert(p =~= e + str16(v.path) + seq![bool_byte(v.is_dir)]);
    lemma_read_str16(e, v.path, seq![bool_byte(v.is_dir)]);
    lemma_read_u8(str16(v.path), bool_byte(v.is_dir), e);
    assert(p =~= str16(v.path) + seq![bool_byte(v.is_dir)] + e);
}

// =============================================================================
// MKDIR (0x0A)
// =============================================================================

#[derive(Debug, Clone)]
pub struct Mkdir {
    pub path: String,
    pub mode: u32,
}

pub struct MkdirView {
    pub path: Seq<char>,
    pub mode: u32,
}

impl View for Mkdir {
    type V = MkdirView;

    open spec fn view(&self) -> MkdirView {
        MkdirView { path: self.path@, mode: self.mode }
    }
}

pub open spec fn mkdir_payload(v: MkdirView) -> Seq<u8> {
    str16(v.path) + be32(v.mode)
}

pub open spec fn spec_decode_mkdir(p: Seq<u8>) -> Result<MkdirView, DecodeError> {
    if p.len() < 2 {
        Err(DecodeError::TooShort(MessageType::Mkdir))
    } else {
        let n = u16_at(p, 0) as int;
        if p.len() - 2 < n + 4 {
            Err(DecodeError::Truncated(MessageType::Mkdir, Field::Payload))
        } else if !valid_utf8(p.subrange(2, 2 + n)) {
            Err(DecodeError::InvalidUtf8(MessageType::Mkdir, Field::Path))
        } else {
            Ok(MkdirView { path: decode_utf8(p.subrange(2, 2 + n)), mode: u32_at(p, 2 + n) })
        }
    }
}

impl Mkdir {
    pub fn encode(&self) -> (r: Bytes)
        ensures
            bytes_contents(r) == frame(MessageType::Mkdir, mkdir_payload(self@)),
    {
        let mut p: Vec<u8> = Vec::new();
        put_str16(&mut p, &self.path);
        put_u32(&mut p, self.mode);
        finish_frame(MessageType::Mkdir, &p)
    }

    pub fn decode(payload: Bytes) -> (r: Result<Self, DecodeError>)
        ensures
            result_view(r) == spec_decode_mkdir(bytes_contents(payload)),
    {
        let s = bytes_as_slice(&payload);
        let n = s.len();
        if n < 2 {
            return Err(DecodeError::TooShort(MessageType::Mkdir));
        }
        let pl = get_u16(s, 0) as usize;
        if n - 2 < pl + 4 {
            return Err(DecodeError::Truncated(MessageType::Mkdir, Field::Payload));
        }
        match get_str(s, 2, pl) {
            Some(path) => Ok(Mkdir { path, mode: get_u32(s, 2 + pl) }),
            None => Err(DecodeError::InvalidUtf8(MessageType::Mkdir, Field::Path)),
        }
    }
}

/// Decoding the payload of an encoded MKDIR gives back the message, provided
/// its path fits the 16-bit length field.
pub proof fn lemma_mkdir_roundtrip(v: MkdirView)
    requires
        encode_utf8(v.path).len() <= 0xFFFF,
    ensures
        spec_decode_mkdir(mkdir_payload(v)) == Ok::<MkdirView, DecodeError>(v),
{
    let e = Seq::<u8>::empty();
    let p = mkdir_payload(v);
    assert(p =~= e + str16(v.path) + be32(v.mode));
    lemma_read_str16(e, v.path, be32(v.mode));
    assert(p =~= str16(v.path) + be32(v.mode) + e);
    lemma_read_u32(str16(v.path), v.mode, e);
}

// =============================================================================
// SYMLINK (0x0B)
// =============================================================================

#[derive(Debug, Clone)]
pub struct Symlink {
    pub path: String,
    pub target: String,
}

pub struct SymlinkView {
    pub path: Seq<char>,
    pub target: Seq<char>,
}

impl View for Symlink {
    type V = SymlinkView;

    open spec fn view(&self) -> SymlinkView {
        SymlinkView { path: self.path@, target: self.target@ }
    }
}

pub open spec fn symlink_payload(v: SymlinkView) -> Seq<u8> {
    str16(v.path) + str16(v.target)
}

pub open spec fn spec_decode_symlink(p: Seq<u8>) -> Result<SymlinkView, DecodeError> {
    if p.len() < 2 {
        Err(DecodeError::TooShort(MessageType::Symlink))
    } else {
        let n = u16_at(p, 0) as int;
        if p.len() - 2 < n + 2 {
            Err(DecodeError::Truncated(MessageType::Symlink, Field::Payload))
        } else if !valid_utf8(p.subrange(2, 2 + n)) {
            Err(DecodeError::InvalidUtf8(MessageType::Symlink, Field::Path))
        } else {
            let t = u16_at(p, 2 + n) as int;
            if p.len() - (4 + n) < t {
                Err(DecodeError::Truncated(MessageType::Symlink, Field::Target))
            } else if !valid_utf8(p.subrange(4 + n, 4 + n + t)) {
                Err(DecodeError::InvalidUtf8(MessageType::Symlink, Field::Target))
            } else {
                Ok(
                    SymlinkView {
                        path: decode_utf8(p.subrange(2, 2 + n)),
                        target: decode_utf8(p.subrange(4 + n, 4 + n + t)),
                    },
                )
            }
        }
    }
}

impl Symlink {
    pub fn encode(&self) -> (r: Bytes)
        ensures
            bytes_contents(r) == frame(MessageType::Symlink, symlink_payload(self@)),
    {
        let mut p: Vec<u8> = Vec::new();
        put_str16(&mut p, &self.path);
        put_str16(&mut p, &self.target);
        finish_frame(MessageType::Symlink, &p)
    }

    pub fn decode(payload: Bytes) -> (r: Result<Self, DecodeError>)
        ensures
            result_view(r) == spec_decode_symlink(bytes_contents(payload)),
    {
        let s = bytes_as_slice(&payload);
        let n = s.len();
        if n < 2 {
            return Err(DecodeError::TooShort(MessageType::Symlink));
        }
        let pl = get_u16(s, 0) as usize;
        if n - 2 < pl + 2 {
            return Err(DecodeError::Truncated(MessageType::Symlink, Field::Payload));
        }
        let path = match get_str(s, 2, pl) {
            Some(t) => t,
            None => {
                return Err(DecodeError::InvalidUtf8(MessageType::Symlink, Field::Path));
            },
        };
        let tl = get_u16(s, 2 + pl) as usize;
        if n - (4 + pl) < tl {
            return Err(DecodeError::Truncated(MessageType::Symlink, Field::Target));
        }
        match get_str(s, 4 + pl, tl) {
            Some(target) => Ok(Symlink { path, target }),
            None => Err(DecodeError::InvalidUtf8(MessageType::Symlink, Field::Target)),
        }
    }
}

/// Decoding the payload of an encoded SYMLINK gives back the message, provided
/// its path and target fit the 16-bit length fields.
pub proof fn lemma_symlink_roundtrip(v: SymlinkView)
    requires
        encode_utf8(v.path).len() <= 0xFFFF,
        encode_utf8(v.target).len() <= 0xFFFF,
    ensures
        spec_decode_symlink(symlink_payload(v)) == Ok::<SymlinkView, DecodeError>(v),
{
    let e = Seq::<u8>::empty();
    let p = symlink_payload(v);
    assert(p =~= e + str16(v.path) + str16(v.target));
    lemma_read_str16(e, v.path, str16(v.target));
    assert(p =~= str16(v.path) + str16(v.target) + e);
    lemma_read_str16(str16(v.path), v.target, e);
}

// =============================================================================
// ERROR (0x0D)
// =============================================================================

#[derive(Debug, Clone)]
pub struct Error {
    pub path: String,
    pub code: u16,
    pub message: String,
}

pub struct ErrorView {
    pub path: Seq<char>,
    pub code: u16,
    pub message: Seq<char>,
}

impl View for Error {
    type V = ErrorView;

    open spec fn view(&self) -> ErrorView {
        ErrorView { path: self.path@, code: self.code, message: self.message@ }
    }
}

pub open spec fn error_payload(v: ErrorView) -> Seq<u8> {
    str16(v.path) + be16(v.code) + str16(v.message)
}

pub open spec fn spec_decode_error(p: Seq<u8>) -> Result<ErrorView, DecodeError> {
    if p.len() < 2 {
        Err(DecodeError::TooShort(MessageType::Error))
    } else {
        let n = u16_at(p, 0) as int;
        if p.len() - 2 < n + 4 {
            Err(DecodeError::Truncated(MessageType::Error, Field::Payload))
        } else if !valid_utf8(p.subrange(2, 2 + n)) {
            Err(DecodeError::InvalidUtf8(MessageType::Error, Field::Path))
        } else {
            let m = u16_at(p, 4 + n) as int;
            if p.len() - (6 + n) < m {
                Err(DecodeError::Truncated(MessageType::Error, Field::Message))
            } else if !valid_utf8(p.subrange(6 + n, 6 + n + m)) {
                Err(DecodeError::InvalidUtf8(MessageType::Error, Field::Message))
            } else {
                Ok(
                    ErrorView {
                        path: decode_utf8(p.subrange(2, 2 + n)),
                        code: u16_at(p, 2 + n),
                        message: decode_utf8(p.subrange(6 + n, 6 + n + m)),
                    },
                )
            }
        }
    }
}

impl Error {
    pub fn encode(&self) -> (r: Bytes)
        ensures
            bytes_contents(r) == frame(MessageType::Error, error_payload(self@)),
    {
        let mut p: Vec<u8> = Vec::new();
        put_str16(&mut p, &self.path);
        put_u16(&mut p, self.code);
        put_str16(&mut p, &self.message);
        finish_frame(MessageType::Error, &p)
    }

    pub fn decode(payload: Bytes) -> (r: Result<Self, DecodeError>)
        ensures
            result_view(r) == spec_decode_error(bytes_contents(payload)),
    {
        let s = bytes_as_slice(&payload);
        let n = s.len();
        if n < 2 {
            return Err(DecodeError::TooShort(MessageType::Error));
        }
        let pl = get_u16(s, 0) as usize;
        if n - 2 < pl + 4 {
            return Err(DecodeError::Truncated(MessageType::Error, Field::Payload));
        }
        let path = match get_str(s, 2, pl) {
            Some(t) => t,
            None => {
                return Err(DecodeError::InvalidUtf8(MessageType::Error, Field::Path));
            },
        };
        let code = get_u16(s, 2 + pl);
        let ml = get_u16(s, 4 + pl) as usize;
        if n - (6 + pl) < ml {
            return Err(DecodeError::Truncated(MessageType::Error, Field::Message));
        }
        match get_str(s, 6 + pl, ml) {
            Some(message) => Ok(Error { path, code, message }),
            None => Err(DecodeError::InvalidUtf8(MessageType::Error, Field::Message)),
        }
    }
}

/// Decoding the payload of an encoded ERROR gives back the message, provided
/// its path and message fit the 16-bit length fields.
pub proof fn lemma_error_roundtrip(v: ErrorView)
    requires
        encode_utf8(v.path).len() <= 0xFFFF,
        encode_utf8(v.message).len() <= 0xFFFF,
    ensures
        spec_decode_error(error_payload(v)) == Ok::<ErrorView, DecodeError>(v),
{
    let e = Seq::<u8>::empty();
    let p = error_payload(v);
    assert(p =~= e + str16(v.path) + (be16(v.code) + str16(v.message)));
    lemma_read_str16(e, v.path, be16(v.code) + str16(v.message));
    assert(p =~= str16(v.path) + be16(v.code) + str16(v.message));
    lemma_read_u16(str16(v.path), v.code, str16(v.message));
    assert(p =~= (str16(v.path) + be16(v.code)) + str16(v.message) + e);
    lemma_read_str16(str16(v.path) + be16(v.code), v.message, e);
}

// =============================================================================
// FATAL (0x0E)
// =============================================================================

#[derive(Debug, Clone)]
pub struct Fatal {
    pub code: u16,
    pub message: String,
}

pub struct FatalView {
    pub code: u16,
    pub message: Seq<char>,
}

impl View for Fatal {
    type V = FatalView;

    open spec fn view(&self) -> FatalView {
        FatalView { code: self.code, message: self.message@ }
    }
}

pub open spec fn fatal_payload(v: FatalView) -> Seq<u8> {
    be16(v.code) + str16(v.message)
}

pub open spec fn spec_decode_fatal(p: Seq<u8>) -> Result<FatalView, DecodeError> {
    if p.len() < 4 {
        Err(DecodeError::TooShort(MessageType::Fatal))
    } else {
        let m = u16_at(p, 2) as int;
        if p.len() - 4 < m {
            Err(DecodeError::Truncated(MessageType::Fatal, Field::Message))
        } else if !valid_utf8(p.subrange(4, 4 + m)) {
            Err(DecodeError::InvalidUtf8(MessageType::Fatal, Field::Message))
        } else {
            Ok(FatalView { code: u16_at(p, 0), message: decode_utf8(p.subrange(4, 4 + m)) })
        }
    }
}

impl Fatal {
    pub fn encode(&self) -> (r: Bytes)
        ensures
            bytes_contents(r) == frame(MessageType::Fatal, fatal_payload(self@)),
    {
        let mut p: Vec<u8> = Vec::new();
        put_u16(&mut p, self.code);
        put_str16(&mut p, &self.message);
        finish_frame(MessageType::Fatal, &p)
    }

    pub fn decode(payload: Bytes) -> (r: Result<Self, DecodeError>)
        ensures
            result_view(r) == spec_decode_fatal(bytes_contents(payload)),
    {
        let s = bytes_as_slice(&payload);
        let n = s.len();
        if n < 4 {
            return Err(DecodeError::TooShort(MessageType::Fatal));
        }
        let code = get_u16(s, 0);
        let ml = get_u16(s, 2) as usize;
        if n - 4 < ml {
            return Err(DecodeError::Truncated(MessageType::Fatal, Field::Message));
        }
        match get_str(s, 4, ml) {
            Some(message) => Ok(Fatal { code, message }),
            None => Err(DecodeError::InvalidUtf8(MessageType::Fatal, Field::Message)),
        }
    }
}

/// Decoding the payload of an encoded FATAL gives back the message, provided
/// its text fits the 16-bit length field.
pub proof fn lemma_fatal_roundtrip(v: FatalView)
    requires
        encode_utf8(v.message).len() <= 0xFFFF,
    ensures
        spec_decode_fatal(fatal_payload(v)) == Ok::<FatalView, DecodeError>(v),
{
    let e = Seq::<u8>::empty();
    let p = fatal_payload(v);
    assert(p =~= e + be16(v.code) + str16(v.message));
    lemma_read_u16(e, v.code, str16(v.message));
    assert(p =~= be16(v.code) + str16(v.message) + e);
    lemma_read_str16(be16(v.code), v.message, e);
}

} // verus!
