//! The protocol v2 messages, each with its frame encoder and payload decoder.
//!
//! `encode` returns a whole frame (`len:u32 | type:u8 | payload`); `decode`
//! takes the payload alone. Decoders ignore bytes after the last field.

use vstd::prelude::*;
use vstd::utf8::*;
use bytes::Bytes;
use crate::streaming::protocol::{
    check_frame_len, check_frame_type, lemma_message_code_injective, DataFlags, DestFileFlags,
    FileFlags, FrameError, HelloFlags, MessageType, MAX_FRAME_SIZE, PROTOCOL_VERSION,
};
use crate::streaming::wire::{
    be16, be32, be64, blob32, bytes_as_slice, bytes_contents, bytes_from_vec, bytes_slice, get_str,
    get_u16, get_u32, get_u64, lemma_u16_roundtrip, lemma_u32_roundtrip, lemma_u64_roundtrip,
    put_blob32, put_slice, put_str16, put_u16, put_u32, put_u64, put_u8, str16, u16_at, u32_at,
    u64_at,
};

verus! {

broadcast use encode_utf8_valid_utf8, encode_utf8_decode_utf8;

// =============================================================================
// Frames and decode errors
// =============================================================================

/// A whole frame: the payload length, the type byte, then the payload.
pub open spec fn frame(t: MessageType, payload: Seq<u8>) -> Seq<u8> {
    be32(payload.len() as u32) + seq![t.code()] + payload
}

/// The part of a message that a decode error points at.
#[derive(Debug, Clone, Copy, PartialEq, Eq, Structural)]
pub enum Field {
    /// The fixed-size part that follows the path.
    Payload,
    Path,
    SymlinkTargetLength,
    SymlinkTarget,
    LinkTargetLength,
    LinkTarget,
    ChecksumHeader,
    Checksums,
    Content,
    Target,
    Message,
    /// The name length of the xattr entry with this index.
    XattrNameLength(u16),
    /// The name and value length of the xattr entry with this index.
    XattrEntry(u16),
    XattrName,
    /// The value of the xattr entry with this index.
    XattrValue(u16),
}

/// Why a payload could not be decoded.
#[derive(Debug, Clone, Copy, PartialEq, Eq, Structural)]
pub enum DecodeError {
    /// The payload is shorter than the message's first fixed part.
    TooShort(MessageType),
    /// A field runs past the end of the payload.
    Truncated(MessageType, Field),
    /// A string field is not valid UTF-8.
    InvalidUtf8(MessageType, Field),
}

/// A decode result taken by its view.
pub open spec fn result_view<T: View>(r: Result<T, DecodeError>) -> Result<T::V, DecodeError> {
    match r {
        Ok(v) => Ok(v@),
        Err(e) => Err(e),
    }
}

/// Builds a frame around `payload`.
pub(crate) fn finish_frame(t: MessageType, payload: &Vec<u8>) -> (r: Bytes)
    ensures
        bytes_contents(r) == frame(t, payload@),
{
    let mut buf: Vec<u8> = Vec::with_capacity(5);
    put_u32(&mut buf, payload.len() as u32);
    put_u8(&mut buf, t.to_u8());
    put_slice(&mut buf, payload.as_slice());
    proof {
        assert(be32(payload@.len() as u32) + seq![t.code()] == Seq::<u8>::empty() + be32(
            payload@.len() as u32,
        ).push(t.code()));
    }
    bytes_from_vec(buf)
}

// =============================================================================
// Reading lemmas: what a decoder finds inside an encoded payload
// =============================================================================

pub proof fn lemma_read_u16(a: Seq<u8>, v: u16, b: Seq<u8>)
    ensures
        u16_at(a + be16(v) + b, a.len() as int) == v,
{
    let s = a + be16(v) + b;
    assert(s.subrange(a.len() as int, a.len() as int + 2) =~= be16(v));
    lemma_u16_roundtrip(s, a.len() as int, v);
}

pub proof fn lemma_read_u32(a: Seq<u8>, v: u32, b: Seq<u8>)
    ensures
        u32_at(a + be32(v) + b, a.len() as int) == v,
{
    let s = a + be32(v) + b;
    assert(s.subrange(a.len() as int, a.len() as int + 4) =~= be32(v));
    lemma_u32_roundtrip(s, a.len() as int, v);
}

pub proof fn lemma_read_u64(a: Seq<u8>, v: u64, b: Seq<u8>)
    ensures
        u64_at(a + be64(v) + b, a.len() as int) == v,
{
    let s = a + be64(v) + b;
    assert(s.subrange(a.len() as int, a.len() as int + 8) =~= be64(v));
    lemma_u64_roundtrip(s, a.len() as int, v);
}

pub proof fn lemma_read_u8(a: Seq<u8>, v: u8, b: Seq<u8>)
    ensures
        (a + seq![v] + b)[a.len() as int] == v,
{
}

/// Reading a `str16` field back: its length, its bytes, and the string they decode to.
pub proof fn lemma_read_str16(a: Seq<u8>, t: Seq<char>, b: Seq<u8>)
    requires
        encode_utf8(t).len() <= 0xFFFF,
    ensures
        ({
            let s = a + str16(t) + b;
            let n = encode_utf8(t).len() as int;
            &&& u16_at(s, a.len() as int) == n
            &&& s.len() == a.len() + 2 + n + b.len()
            &&& s.subrange(a.len() as int + 2, a.len() as int + 2 + n) == encode_utf8(t)
            &&& valid_utf8(s.subrange(a.len() as int + 2, a.len() as int + 2 + n))
            &&& decode_utf8(s.subrange(a.len() as int + 2, a.len() as int + 2 + n)) == t
        }),
{
    let e = encode_utf8(t);
    let n = e.len();
    let s = a + str16(t) + b;
    assert(s =~= a + be16(n as u16) + (e + b));
    lemma_read_u16(a, n as u16, e + b);
    assert(s.subrange(a.len() as int + 2, a.len() as int + 2 + n) =~= e);
}

/// Reading a `blob32` field back: its length and its bytes.
pub proof fn lemma_read_blob32(a: Seq<u8>, d: Seq<u8>, b: Seq<u8>)
    requires
        d.len() <= 0xFFFF_FFFF,
    ensures
        ({
            let s = a + blob32(d) + b;
            &&& u32_at(s, a.len() as int) == d.len()
            &&& s.len() == a.len() + 4 + d.len() + b.len()
            &&& s.subrange(a.len() as int + 4, a.len() as int + 4 + d.len()) == d
        }),
{
    let s = a + blob32(d) + b;
    assert(s =~= a + be32(d.len() as u32) + (d + b));
    lemma_read_u32(a, d.len() as u32, d + b);
    assert(s.subrange(a.len() as int + 4, a.len() as int + 4 + d.len()) =~= d);
}

/// A frame splits into its length field, its type byte and its payload.
pub proof fn lemma_frame_parts(t: MessageType, payload: Seq<u8>)
    requires
        payload.len() <= 0xFFFF_FFFF,
    ensures
        ({
            let f = frame(t, payload);
            &&& f.len() == payload.len() + 5
            &&& u32_at(f, 0) == payload.len()
            &&& f[4] == t.code()
            &&& f.subrange(5, f.len() as int) == payload
        }),
{
    let f = frame(t, payload);
    assert(f =~= Seq::<u8>::empty() + be32(payload.len() as u32) + (seq![t.code()] + payload));
    lemma_read_u32(Seq::<u8>::empty(), payload.len() as u32, seq![t.code()] + payload);
    assert(f.subrange(5, f.len() as int) =~= payload);
}

/// What a frame's five header bytes announce: the payload length, refused
/// when over `MAX_FRAME_SIZE`, then the message type, refused when the type
/// byte names none.
pub open spec fn spec_frame_header(h: Seq<u8>) -> Result<(MessageType, usize), FrameError> {
    let len = u32_at(h, 0);
    if len > MAX_FRAME_SIZE {
        Err(FrameError::TooLarge { size: len, max: MAX_FRAME_SIZE })
    } else if 0x01 <= h[4] <= 0x10 {
        Ok((choose|t: MessageType| t.code() == h[4], len as usize))
    } else {
        Err(FrameError::UnknownMessageType(h[4]))
    }
}

/// Reads a frame header: the length is checked before the type, and both
/// before any payload is read.
pub fn read_frame_header(header: &[u8]) -> (r: Result<(MessageType, usize), FrameError>)
    requires
        header@.len() == 5,
    ensures
        r == spec_frame_header(header@),
{
    let len = get_u32(header, 0);
    let n = match check_frame_len(len) {
        Ok(n) => n,
        Err(e) => return Err(e),
    };
    match check_frame_type(header[4]) {
        Ok(t) => {
            proof {
                let c = choose|u: MessageType| u.code() == header@[4];
                lemma_message_code_injective(t, c);
            }
            Ok((t, n))
        },
        Err(e) => Err(e),
    }
}

/// Reading back a written frame: its header announces the message type and
/// the payload's length, and the payload follows it, so the next frame starts
/// right after. Holds for any payload within `MAX_FRAME_SIZE`.
pub proof fn lemma_frame_reads_back(t: MessageType, payload: Seq<u8>)
    requires
        payload.len() <= MAX_FRAME_SIZE,
    ensures
        ({
            let f = frame(t, payload);
            &&& f.len() == 5 + payload.len()
            &&& spec_frame_header(f.subrange(0, 5)) == Ok::<(MessageType, usize), FrameError>(
                (t, payload.len() as usize),
            )
            &&& f.subrange(5, f.len() as int) == payload
        }),
{
    lemma_frame_parts(t, payload);
    let f = frame(t, payload);
    let h = f.subrange(0, 5);
    assert(u32_at(h, 0) == u32_at(f, 0));
    assert(h[4] == t.code());
    let c = choose|u: MessageType| u.code() == h[4];
    assert(t.code() == h[4]);
    lemma_message_code_injective(t, c);
}

// =============================================================================
// HELLO (0x01)
// =============================================================================

#[derive(Debug, Clone)]
pub struct Hello {
    pub version: u16,
    pub flags: HelloFlags,
    pub root_path: String,
}

pub struct HelloView {
    pub version: u16,
    pub flags: u32,
    pub root_path: Seq<char>,
}

impl View for Hello {
    type V = HelloView;

    open spec fn view(&self) -> HelloView {
        HelloView { version: self.version, flags: self.flags@, root_path: self.root_path@ }
    }
}

pub open spec fn hello_payload(v: HelloView) -> Seq<u8> {
    be16(v.version) + be32(v.flags) + str16(v.root_path)
}

pub open spec fn spec_decode_hello(p: Seq<u8>) -> Result<HelloView, DecodeError> {
    if p.len() < 8 {
        Err(DecodeError::TooShort(MessageType::Hello))
    } else {
        let n = u16_at(p, 6) as int;
        if p.len() - 8 < n {
            Err(DecodeError::Truncated(MessageType::Hello, Field::Path))
        } else if !valid_utf8(p.subrange(8, 8 + n)) {
            Err(DecodeError::InvalidUtf8(MessageType::Hello, Field::Path))
        } else {
            Ok(
                HelloView {
                    version: u16_at(p, 0),
                    flags: u32_at(p, 2) & HelloFlags::spec_all_bits(),
                    root_path: decode_utf8(p.subrange(8, 8 + n)),
                },
            )
        }
    }
}

impl Hello {
    pub fn new(flags: HelloFlags, root_path: String) -> (r: Self)
        ensures
            r.version == PROTOCOL_VERSION,
            r.flags == flags,
            r.root_path@ == root_path@,
    {
        Hello { version: PROTOCOL_VERSION, flags, root_path }
    }

    pub fn is_pull(&self) -> (r: bool)
        ensures
            r == (self.flags@ & 1u32 == 1u32),
    {
        self.flags.contains(HelloFlags::pull())
    }

    pub fn encode(&self) -> (r: Bytes)
        ensures
            bytes_contents(r) == frame(MessageType::Hello, hello_payload(self@)),
    {
        let mut p: Vec<u8> = Vec::new();
        put_u16(&mut p, self.version);
        put_u32(&mut p, self.flags.bits());
        put_str16(&mut p, &self.root_path);
        finish_frame(MessageType::Hello, &p)
    }

    pub fn decode(payload: Bytes) -> (r: Result<Self, DecodeError>)
        ensures
            result_view(r) == spec_decode_hello(bytes_contents(payload)),
    {
        let s = bytes_as_slice(&payload);
        let n = s.len();
        if n < 8 {
            return Err(DecodeError::TooShort(MessageType::Hello));
        }
        let version = get_u16(s, 0);
        let flags = HelloFlags::from_bits_truncate(get_u32(s, 2));
        let path_len = get_u16(s, 6) as usize;
        if n - 8 < path_len {
            return Err(DecodeError::Truncated(MessageType::Hello, Field::Path));
        }
        match get_str(s, 8, path_len) {
            None => Err(DecodeError::InvalidUtf8(MessageType::Hello, Field::Path)),
            Some(root_path) => Ok(Hello { version, flags, root_path }),
        }
    }
}

/// Decoding the payload of an encoded HELLO gives back the message, provided
/// its flags name only known flags and its path fits the 16-bit length field.
pub proof fn lemma_hello_roundtrip(v: HelloView)
    requires
        v.flags & !HelloFlags::spec_all_bits() == 0,
        encode_utf8(v.root_path).len() <= 0xFFFF,
    ensures
        spec_decode_hello(hello_payload(v)) == Ok::<HelloView, DecodeError>(v),
{
    let p = hello_payload(v);
    let e = Seq::<u8>::empty();
    assert(p =~= e + be16(v.version) + (be32(v.flags) + str16(v.root_path)));
    lemma_read_u16(e, v.version, be32(v.flags) + str16(v.root_path));
    assert(p =~= be16(v.version) + be32(v.flags) + str16(v.root_path));
    lemma_read_u32(be16(v.version), v.flags, str16(v.root_path));
    assert(p =~= (be16(v.version) + be32(v.flags)) + str16(v.root_path) + e);
    lemma_read_str16(be16(v.version) + be32(v.flags), v.root_path, e);
    let f = v.flags;
    assert(f & !0x3Fu32 == 0 ==> f & 0x3Fu32 == f) by (bit_vector);
}

// =============================================================================
// FILEEND
// =============================================================================

/// End of the source file list, with its totals.
#[derive(Debug, Clone, Copy)]
pub struct FileEnd {
    pub total_files: u64,
    pub total_bytes: u64,
}

impl View for FileEnd {
    type V = FileEnd;

    open spec fn view(&self) -> FileEnd {
        *self
    }
}

pub open spec fn file_end_payload(v: FileEnd) -> Seq<u8> {
    be64(v.total_files) + be64(v.total_bytes)
}

pub open spec fn spec_decode_file_end(p: Seq<u8>) -> Result<FileEnd, DecodeError> {
    if p.len() < 16 {
        Err(DecodeError::TooShort(MessageType::FileEnd))
    } else {
        Ok(FileEnd { total_files: u64_at(p, 0), total_bytes: u64_at(p, 8) })
    }
}

impl FileEnd {
    pub fn encode(&self) -> (r: Bytes)
        ensures
            bytes_contents(r) == frame(MessageType::FileEnd, file_end_payload(*self)),
    {
        let mut p: Vec<u8> = Vec::new();
        put_u64(&mut p, self.total_files);
        put_u64(&mut p, self.total_bytes);
        finish_frame(MessageType::FileEnd, &p)
    }

    pub fn decode(payload: Bytes) -> (r: Result<Self, DecodeError>)
        ensures
            result_view(r) == spec_decode_file_end(bytes_contents(payload)),
    {
        let s = bytes_as_slice(&payload);
        if s.len() < 16 {
            return Err(DecodeError::TooShort(MessageType::FileEnd));
        }
        Ok(FileEnd { total_files: get_u64(s, 0), total_bytes: get_u64(s, 8) })
    }
}

/// Decoding the payload of an encoded FILEEND gives back the message.
pub proof fn lemma_file_end_roundtrip(v: FileEnd)
    ensures
        spec_decode_file_end(file_end_payload(v)) == Ok::<FileEnd, DecodeError>(v),
{
    let p = file_end_payload(v);
    assert(p =~= (Seq::<u8>::empty()) + be64(v.total_files) + (be64(v.total_bytes)));
    lemma_read_u64(Seq::<u8>::empty(), v.total_files, be64(v.total_bytes));
    assert(p =~= (Seq::<u8>::empty() + be64(v.total_files)) + be64(v.total_bytes) + (Seq::<u8>::empty()));
    lemma_read_u64(Seq::<u8>::empty() + be64(v.total_files), v.total_bytes, Seq::<u8>::empty());
}

// =============================================================================
// DESTFILEEND
// =============================================================================

/// End of the destination entries of the initial exchange, with their totals.
#[derive(Debug, Clone, Copy)]
pub struct DestFileEnd {
    pub total_files: u64,
    pub total_bytes: u64,
}

impl View for DestFileEnd {
    type V = DestFileEnd;

    open spec fn view(&self) -> DestFileEnd {
        *self
    }
}

pub open spec fn dest_file_end_payload(v: DestFileEnd) -> Seq<u8> {
    be64(v.total_files) + be64(v.total_bytes)
}

pub open spec fn spec_decode_dest_file_end(p: Seq<u8>) -> Result<DestFileEnd, DecodeError> {
    if p.len() < 16 {
        Err(DecodeError::TooShort(MessageType::DestFileEnd))
    } else {
        Ok(DestFileEnd { total_files: u64_at(p, 0), total_bytes: u64_at(p, 8) })
    }
}

impl DestFileEnd {
    pub fn encode(&self) -> (r: Bytes)
        ensures
            bytes_contents(r) == frame(MessageType::DestFileEnd, dest_file_end_payload(*self)),
    {
        let mut p: Vec<u8> = Vec::new();
        put_u64(&mut p, self.total_files);
        put_u64(&mut p, self.total_bytes);
        finish_frame(MessageType::DestFileEnd, &p)
    }

    pub fn decode(payload: Bytes) -> (r: Result<Self, DecodeError>)
        ensures
            result_view(r) == spec_decode_dest_file_end(bytes_contents(payload)),
    {
        let s = bytes_as_slice(&payload);
        if s.len() < 16 {
            return Err(DecodeError::TooShort(MessageType::DestFileEnd));
        }
        Ok(DestFileEnd { total_files: get_u64(s, 0), total_bytes: get_u64(s, 8) })
    }
}

/// Decoding the payload of an encoded DESTFILEEND gives back the message.
pub proof fn lemma_dest_file_end_roundtrip(v: DestFileEnd)
    ensures
        spec_decode_dest_file_end(dest_file_end_payload(v)) == Ok::<DestFileEnd, DecodeError>(v),
{
    let p = dest_file_end_payload(v);
    assert(p =~= (Seq::<u8>::empty()) + be64(v.total_files) + (be64(v.total_bytes)));
    lemma_read_u64(Seq::<u8>::empty(), v.total_files, be64(v.total_bytes));
    assert(p =~= (Seq::<u8>::empty() + be64(v.total_files)) + be64(v.total_bytes) + (Seq::<u8>::empty()));
    lemma_read_u64(Seq::<u8>::empty() + be64(v.total_files), v.total_bytes, Seq::<u8>::empty());
}

// =============================================================================
// DELETEEND
// =============================================================================

/// End of the delete list.
#[derive(Debug, Clone, Copy)]
pub struct DeleteEnd {
    pub count: u64,
}

impl View for DeleteEnd {
    type V = DeleteEnd;

    open spec fn view(&self) -> DeleteEnd {
        *self
    }
}

pub open spec fn delete_end_payload(v: DeleteEnd) -> Seq<u8> {
    be64(v.count)
}

pub open spec fn spec_decode_delete_end(p: Seq<u8>) -> Result<DeleteEnd, DecodeError> {
    if p.len() < 8 {
        Err(DecodeError::TooShort(MessageType::DeleteEnd))
    } else {
        Ok(DeleteEnd { count: u64_at(p, 0) })
    }
}

impl DeleteEnd {
    pub fn encode(&self) -> (r: Bytes)
        ensures
            bytes_contents(r) == frame(MessageType::DeleteEnd, delete_end_payload(*self)),
    {
        let mut p: Vec<u8> = Vec::new();
        put_u64(&mut p, self.count);
        finish_frame(MessageType::DeleteEnd, &p)
    }

    pub fn decode(payload: Bytes) -> (r: Result<Self, DecodeError>)
        ensures
            result_view(r) == spec_decode_delete_end(bytes_contents(payload)),
    {
        let s = bytes_as_slice(&payload);
        if s.len() < 8 {
            return Err(DecodeError::TooShort(MessageType::DeleteEnd));
        }
        Ok(DeleteEnd { count: get_u64(s, 0) })
    }
}

/// Decoding the payload of an encoded DELETEEND gives back the message.
pub proof fn lemma_delete_end_roundtrip(v: DeleteEnd)
    ensures
        spec_decode_delete_end(delete_end_payload(v)) == Ok::<DeleteEnd, DecodeError>(v),
{
    let p = delete_end_payload(v);
    assert(p =~= (Seq::<u8>::empty()) + be64(v.count) + (Seq::<u8>::empty()));
    lemma_read_u64(Seq::<u8>::empty(), v.count, Seq::<u8>::empty());
}

// =============================================================================
// PROGRESS
// =============================================================================

/// Transfer progress.
#[derive(Debug, Clone, Copy)]
pub struct Progress {
    pub files: u64,
    pub bytes: u64,
    pub files_total: u64,
    pub bytes_total: u64,
}

impl View for Progress {
    type V = Progress;

    open spec fn view(&self) -> Progress {
        *self
    }
}

pub open spec fn progress_payload(v: Progress) -> Seq<u8> {
    be64(v.files) + be64(v.bytes) + be64(v.files_total) + be64(v.bytes_total)
}

pub open spec fn spec_decode_progress(p: Seq<u8>) -> Result<Progress, DecodeError> {
    if p.len() < 32 {
        Err(DecodeError::TooShort(MessageType::Progress))
    } else {
        Ok(Progress { files: u64_at(p, 0), bytes: u64_at(p, 8), files_total: u64_at(p, 16), bytes_total: u64_at(p, 24) })
    }
}

impl Progress {
    pub fn encode(&self) -> (r: Bytes)
        ensures
            bytes_contents(r) == frame(MessageType::Progress, progress_payload(*self)),
    {
        let mut p: Vec<u8> = Vec::new();
        put_u64(&mut p, self.files);
        put_u64(&mut p, self.bytes);
        put_u64(&mut p, self.files_total);
        put_u64(&mut p, self.bytes_total);
        finish_frame(MessageType::Progress, &p)
    }

    pub fn decode(payload: Bytes) -> (r: Result<Self, DecodeError>)
        ensures
            result_view(r) == spec_decode_progress(bytes_contents(payload)),
    {
        let s = bytes_as_slice(&payload);
        if s.len() < 32 {
            return Err(DecodeError::TooShort(MessageType::Progress));
        }
        Ok(Progress { files: get_u64(s, 0), bytes: get_u64(s, 8), files_total: get_u64(s, 16), bytes_total: get_u64(s, 24) })
    }
}

/// Decoding the payload of an encoded PROGRESS gives back the message.
pub proof fn lemma_progress_roundtrip(v: Progress)
    ensures
        spec_decode_progress(progress_payload(v)) == Ok::<Progress, DecodeError>(v),
{
    let p = progress_payload(v);
    assert(p =~= (Seq::<u8>::empty()) + be64(v.files) + (be64(v.bytes) + be64(v.files_total) + be64(v.bytes_total)));
    lemma_read_u64(Seq::<u8>::empty(), v.files, be64(v.bytes) + be64(v.files_total) + be64(v.bytes_total));
    assert(p =~= (Seq::<u8>::empty() + be64(v.files)) + be64(v.bytes) + (be64(v.files_total) + be64(v.bytes_total)));
    lemma_read_u64(Seq::<u8>::empty() + be64(v.files), v.bytes, be64(v.files_total) + be64(v.bytes_total));
    assert(p =~= (Seq::<u8>::empty() + be64(v.files) + be64(v.bytes)) + be64(v.files_total) + (be64(v.bytes_total)));
    lemma_read_u64(Seq::<u8>::empty() + be64(v.files) + be64(v.bytes), v.files_total, be64(v.bytes_total));
    assert(p =~= (Seq::<u8>::empty() + be64(v.files) + be64(v.bytes) + be64(v.files_total)) + be64(v.bytes_total) + (Seq::<u8>::empty()));
    lemma_read_u64(Seq::<u8>::empty() + be64(v.files) + be64(v.bytes) + be64(v.files_total), v.bytes_total, Seq::<u8>::empty());
}

// =============================================================================
// DONE
// =============================================================================

/// Final statistics of a transfer.
#[derive(Debug, Clone, Copy)]
pub struct Done {
    pub files_ok: u64,
    pub files_err: u64,
    pub bytes: u64,
    pub duration_ms: u64,
}

impl View for Done {
    type V = Done;

    open spec fn view(&self) -> Done {
        *self
    }
}

pub open spec fn done_payload(v: Done) -> Seq<u8> {
    be64(v.files_ok) + be64(v.files_err) + be64(v.bytes) + be64(v.duration_ms)
}

pub open spec fn spec_decode_done(p: Seq<u8>) -> Result<Done, DecodeError> {
    if p.len() < 32 {
        Err(DecodeError::TooShort(MessageType::Done))
    } else {
        Ok(Done { files_ok: u64_at(p, 0), files_err: u64_at(p, 8), bytes: u64_at(p, 16), duration_ms: u64_at(p, 24) })
    }
}

impl Done {
    pub fn encode(&self) -> (r: Bytes)
        ensures
            bytes_contents(r) == frame(MessageType::Done, done_payload(*self)),
    {
        let mut p: Vec<u8> = Vec::new();
        put_u64(&mut p, self.files_ok);
        put_u64(&mut p, self.files_err);
        put_u64(&mut p, self.bytes);
        put_u64(&mut p, self.duration_ms);
        finish_frame(MessageType::Done, &p)
    }

    pub fn decode(payload: Bytes) -> (r: Result<Self, DecodeError>)
        ensures
            result_view(r) == spec_decode_done(bytes_contents(payload)),
    {
        let s = bytes_as_slice(&payload);
        if s.len() < 32 {
            return Err(DecodeError::TooShort(MessageType::Done));
        }
        Ok(Done { files_ok: get_u64(s, 0), files_err: get_u64(s, 8), bytes: get_u64(s, 16), duration_ms: get_u64(s, 24) })
    }
}

/// Decoding the payload of an encoded DONE gives back the message.
pub proof fn lemma_done_roundtrip(v: Done)
    ensures
        spec_decode_done(done_payload(v)) == Ok::<Done, DecodeError>(v),
{
    let p = done_payload(v);
    assert(p =~= (Seq::<u8>::empty()) + be64(v.files_ok) + (be64(v.files_err) + be64(v.bytes) + be64(v.duration_ms)));
    lemma_read_u64(Seq::<u8>::empty(), v.files_ok, be64(v.files_err) + be64(v.bytes) + be64(v.duration_ms));
    assert(p =~= (Seq::<u8>::empty() + be64(v.files_ok)) + be64(v.files_err) + (be64(v.bytes) + be64(v.duration_ms)));
    lemma_read_u64(Seq::<u8>::empty() + be64(v.files_ok), v.files_err, be64(v.bytes) + be64(v.duration_ms));
    assert(p =~= (Seq::<u8>::empty() + be64(v.files_ok) + be64(v.files_err)) + be64(v.bytes) + (be64(v.duration_ms)));
    lemma_read_u64(Seq::<u8>::empty() + be64(v.files_ok) + be64(v.files_err), v.bytes, be64(v.duration_ms));
    assert(p =~= (Seq::<u8>::empty() + be64(v.files_ok) + be64(v.files_err) + be64(v.bytes)) + be64(v.duration_ms) + (Seq::<u8>::empty()));
    lemma_read_u64(Seq::<u8>::empty() + be64(v.files_ok) + be64(v.files_err) + be64(v.bytes), v.duration_ms, Seq::<u8>::empty());
}

} // verus!
