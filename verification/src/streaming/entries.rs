//! File list messages: FILE_ENTRY (source side) and DEST_FILE_ENTRY with its
//! block checksums (destination side of the initial exchange).

use vstd::prelude::*;
use vstd::utf8::*;
use bytes::Bytes;
use crate::streaming::messages::{
    finish_frame, frame, lemma_read_str16, lemma_read_u32, lemma_read_u64, lemma_read_u8,
    result_view, DecodeError, Field,
};
use crate::streaming::protocol::{DestFileFlags, FileFlags, MessageType};
use crate::streaming::wire::{
    be32, be64, bytes_as_slice, bytes_contents, get_str, get_u16, get_u32, get_u64, put_str16,
    put_u32, put_u64, put_u8, str16, u16_at, u32_at, u64_at,
};

verus! {

broadcast use encode_utf8_valid_utf8, encode_utf8_decode_utf8;

pub open spec fn opt_str_view(o: Option<String>) -> Option<Seq<char>> {
    match o {
        Some(s) => Some(s@),
        None => None,
    }
}

/// An optional string as FILE_ENTRY carries it: nothing, or a `str16` field.
pub open spec fn opt_str16(o: Option<Seq<char>>) -> Seq<u8> {
    match o {
        Some(t) => str16(t),
        None => Seq::empty(),
    }
}

/// Reads an optional `str16` field at `pos` when `present`; gives the string
/// and the position after it.
pub open spec fn spec_decode_opt_str16(
    p: Seq<u8>,
    pos: int,
    present: bool,
    t: MessageType,
    len_field: Field,
    field: Field,
) -> Result<(Option<Seq<char>>, int), DecodeError> {
    if !present {
        Ok((None, pos))
    } else if p.len() - pos < 2 {
        Err(DecodeError::Truncated(t, len_field))
    } else {
        let l = u16_at(p, pos) as int;
        if p.len() - pos - 2 < l {
            Err(DecodeError::Truncated(t, field))
        } else if !valid_utf8(p.subrange(pos + 2, pos + 2 + l)) {
            Err(DecodeError::InvalidUtf8(t, field))
        } else {
            Ok((Some(decode_utf8(p.subrange(pos + 2, pos + 2 + l))), pos + 2 + l))
        }
    }
}

fn get_opt_str16(
    s: &[u8],
    pos: usize,
    present: bool,
    t: MessageType,
    len_field: Field,
    field: Field,
) -> (r: Result<(Option<String>, usize), DecodeError>)
    requires
        pos <= s@.len(),
    ensures
        match r {
            Ok((o, q)) => spec_decode_opt_str16(s@, pos as int, present, t, len_field, field)
                == Ok::<(Option<Seq<char>>, int), DecodeError>((opt_str_view(o), q as int)),
            Err(e) => spec_decode_opt_str16(s@, pos as int, present, t, len_field, field) == Err::<
                (Option<Seq<char>>, int),
                DecodeError,
            >(e),
        },
{
    if !present {
        return Ok((None, pos));
    }
    let n = s.len();
    if n - pos < 2 {
        return Err(DecodeError::Truncated(t, len_field));
    }
    let l = get_u16(s, pos) as usize;
    if n - pos - 2 < l {
        return Err(DecodeError::Truncated(t, field));
    }
    match get_str(s, pos + 2, l) {
        Some(v) => Ok((Some(v), pos + 2 + l)),
        None => Err(DecodeError::InvalidUtf8(t, field)),
    }
}

fn put_opt_str16(buf: &mut Vec<u8>, o: &Option<String>)
    ensures
        final(buf)@ == old(buf)@ + opt_str16(opt_str_view(*o)),
{
    match o {
        Some(s) => put_str16(buf, s),
        None => {
            assert(old(buf)@ + Seq::<u8>::empty() =~= old(buf)@);
        },
    }
}

// =============================================================================
// FILE_ENTRY (0x02)
// =============================================================================

#[derive(Debug, Clone)]
pub struct FileEntry {
    pub path: String,
    pub size: u64,
    pub mtime: i64,
    pub mode: u32,
    pub inode: u64,
    pub flags: FileFlags,
    pub symlink_target: Option<String>,
    pub link_target: Option<String>,
}

pub struct FileEntryView {
    pub path: Seq<char>,
    pub size: u64,
    pub mtime: i64,
    pub mode: u32,
    pub inode: u64,
    pub flags: u8,
    pub symlink_target: Option<Seq<char>>,
    pub link_target: Option<Seq<char>>,
}

impl View for FileEntry {
    type V = FileEntryView;

    open spec fn view(&self) -> FileEntryView {
        FileEntryView {
            path: self.path@,
            size: self.size,
            mtime: self.mtime,
            mode: self.mode,
            inode: self.inode,
            flags: self.flags@,
            symlink_target: opt_str_view(self.symlink_target),
            link_target: opt_str_view(self.link_target),
        }
    }
}

pub open spec fn file_entry_head(v: FileEntryView) -> Seq<u8> {
    str16(v.path) + be64(v.size) + be64(v.mtime as u64) + be32(v.mode) + be64(v.inode) + seq![
        v.flags,
    ]
}

pub open spec fn file_entry_payload(v: FileEntryView) -> Seq<u8> {
    file_entry_head(v) + opt_str16(v.symlink_target) + opt_str16(v.link_target)
}

pub open spec fn spec_decode_file_entry(p: Seq<u8>) -> Result<FileEntryView, DecodeError> {
    if p.len() < 2 {
        Err(DecodeError::TooShort(MessageType::FileEntry))
    } else {
        let n = u16_at(p, 0) as int;
        if p.len() - 2 < n + 29 {
            Err(DecodeError::Truncated(MessageType::FileEntry, Field::Payload))
        } else if !valid_utf8(p.subrange(2, 2 + n)) {
            Err(DecodeError::InvalidUtf8(MessageType::FileEntry, Field::Path))
        } else {
            let flags = p[30 + n] & FileFlags::spec_all_bits();
            match spec_decode_opt_str16(
                p,
                31 + n,
                flags & 2u8 == 2u8,
                MessageType::FileEntry,
                Field::SymlinkTargetLength,
                Field::SymlinkTarget,
            ) {
                Err(e) => Err(e),
                Ok((symlink_target, pos)) => match spec_decode_opt_str16(
                    p,
                    pos,
                    flags & 4u8 == 4u8,
                    MessageType::FileEntry,
                    Field::LinkTargetLength,
                    Field::LinkTarget,
                ) {
                    Err(e) => Err(e),
                    Ok((link_target, _)) => Ok(
                        FileEntryView {
                            path: decode_utf8(p.subrange(2, 2 + n)),
                            size: u64_at(p, 2 + n),
                            mtime: u64_at(p, 10 + n) as i64,
                            mode: u32_at(p, 18 + n),
                            inode: u64_at(p, 22 + n),
                            flags,
                            symlink_target,
                            link_target,
                        },
                    ),
                },
            }
        }
    }
}

impl FileEntry {
    pub fn is_dir(&self) -> (r: bool)
        ensures
            r == (self.flags@ & 1u8 == 1u8),
    {
        self.flags.contains(FileFlags::dir())
    }

    pub fn is_symlink(&self) -> (r: bool)
        ensures
            r == (self.flags@ & 2u8 == 2u8),
    {
        self.flags.contains(FileFlags::symlink())
    }

    pub fn is_hardlink(&self) -> (r: bool)
        ensures
            r == (self.flags@ & 4u8 == 4u8),
    {
        self.flags.contains(FileFlags::hardlink())
    }

    pub fn encode(&self) -> (r: Bytes)
        ensures
            bytes_contents(r) == frame(MessageType::FileEntry, file_entry_payload(self@)),
    {
        let mut p: Vec<u8> = Vec::new();
        put_str16(&mut p, &self.path);
        put_u64(&mut p, self.size);
        put_u64(&mut p, self.mtime as u64);
        put_u32(&mut p, self.mode);
        put_u64(&mut p, self.inode);
        put_u8(&mut p, self.flags.bits());
        put_opt_str16(&mut p, &self.symlink_target);
        put_opt_str16(&mut p, &self.link_target);
        finish_frame(MessageType::FileEntry, &p)
    }

    pub fn decode(payload: Bytes) -> (r: Result<Self, DecodeError>)
        ensures
            result_view(r) == spec_decode_file_entry(bytes_contents(payload)),
    {
        let s = bytes_as_slice(&payload);
        let n = s.len();
        if n < 2 {
            return Err(DecodeError::TooShort(MessageType::FileEntry));
        }
        let pl = get_u16(s, 0) as usize;
        if n - 2 < pl + 29 {
            return Err(DecodeError::Truncated(MessageType::FileEntry, Field::Payload));
        }
        let path = match get_str(s, 2, pl) {
            Some(t) => t,
            None => {
                return Err(DecodeError::InvalidUtf8(MessageType::FileEntry, Field::Path));
            },
        };
        let size = get_u64(s, 2 + pl);
        let mtime = get_u64(s, 10 + pl) as i64;
        let mode = get_u32(s, 18 + pl);
        let inode = get_u64(s, 22 + pl);
        let flags = FileFlags::from_bits_truncate(s[30 + pl]);
        let (symlink_target, pos) = match get_opt_str16(
            s,
            31 + pl,
            flags.contains(FileFlags::symlink()),
            MessageType::FileEntry,
            Field::SymlinkTargetLength,
            Field::SymlinkTarget,
        ) {
            Ok(x) => x,
            Err(e) => {
                return Err(e);
            },
        };
        let (link_target, _) = match get_opt_str16(
            s,
            pos,
            flags.contains(FileFlags::hardlink()),
            MessageType::FileEntry,
            Field::LinkTargetLength,
            Field::LinkTarget,
        ) {
            Ok(x) => x,
            Err(e) => {
                return Err(e);
            },
        };
        Ok(FileEntry { path, size, mtime, mode, inode, flags, symlink_target, link_target })
    }
}

proof fn lemma_opt_str16_roundtrip(
    a: Seq<u8>,
    o: Option<Seq<char>>,
    b: Seq<u8>,
    t: MessageType,
    lf: Field,
    f: Field,
)
    requires
        o matches Some(x) ==> encode_utf8(x).len() <= 0xFFFF,
    ensures
        spec_decode_opt_str16(a + opt_str16(o) + b, a.len() as int, o is Some, t, lf, f) == Ok::<
            (Option<Seq<char>>, int),
            DecodeError,
        >((o, a.len() as int + opt_str16(o).len())),
{
    match o {
        Some(x) => {
            lemma_read_str16(a, x, b);
        },
        None => {},
    }
}

/// The fixed fields of a FILE_ENTRY payload sit at their offsets after the path.
proof fn lemma_file_entry_head(v: FileEntryView, rest: Seq<u8>)
    requires
        encode_utf8(v.path).len() <= 0xFFFF,
    ensures
        ({
            let p = file_entry_head(v) + rest;
            let n = encode_utf8(v.path).len() as int;
            &&& file_entry_head(v).len() == 31 + n
            &&& u16_at(p, 0) == n
            &&& p.subrange(2, 2 + n) == encode_utf8(v.path)
            &&& u64_at(p, 2 + n) == v.size
            &&& u64_at(p, 10 + n) == v.mtime as u64
            &&& u32_at(p, 18 + n) == v.mode
            &&& u64_at(p, 22 + n) == v.inode
            &&& p[30 + n] == v.flags
        }),
{
    let e = Seq::<u8>::empty();
    let p = file_entry_head(v) + rest;
    let sp = str16(v.path);
    let a1 = sp + be64(v.size);
    let a2 = a1 + be64(v.mtime as u64);
    let a3 = a2 + be32(v.mode);
    let a4 = a3 + be64(v.inode);
    assert(p =~= e + sp + (be64(v.size) + be64(v.mtime as u64) + be32(v.mode) + be64(v.inode)
        + seq![v.flags] + rest));
    lemma_read_str16(e, v.path, be64(v.size) + be64(v.mtime as u64) + be32(v.mode) + be64(
        v.inode,
    ) + seq![v.flags] + rest);
    assert(p =~= sp + be64(v.size) + (be64(v.mtime as u64) + be32(v.mode) + be64(v.inode)
        + seq![v.flags] + rest));
    lemma_read_u64(sp, v.size, be64(v.mtime as u64) + be32(v.mode) + be64(v.inode) + seq![v.flags]
        + rest);
    assert(p =~= a1 + be64(v.mtime as u64) + (be32(v.mode) + be64(v.inode) + seq![v.flags]
        + rest));
    lemma_read_u64(a1, v.mtime as u64, be32(v.mode) + be64(v.inode) + seq![v.flags] + rest);
    assert(p =~= a2 + be32(v.mode) + (be64(v.inode) + seq![v.flags] + rest));
    lemma_read_u32(a2, v.mode, be64(v.inode) + seq![v.flags] + rest);
    assert(p =~= a3 + be64(v.inode) + (seq![v.flags] + rest));
    lemma_read_u64(a3, v.inode, seq![v.flags] + rest);
    assert(p =~= a4 + seq![v.flags] + rest);
    lemma_read_u8(a4, v.flags, rest);
}

/// Decoding the payload of an encoded FILE_ENTRY gives back the entry, provided
/// its flags name only known flags, the symlink flag is set exactly when a
/// symlink target is present and the hardlink flag exactly when a link target
/// is, and every string fits its 16-bit length field.
pub proof fn lemma_file_entry_roundtrip(v: FileEntryView)
    requires
        v.flags & !FileFlags::spec_all_bits() == 0,
        (v.flags & 2u8 == 2u8) == (v.symlink_target is Some),
        (v.flags & 4u8 == 4u8) == (v.link_target is Some),
        encode_utf8(v.path).len() <= 0xFFFF,
        v.symlink_target matches Some(x) ==> encode_utf8(x).len() <= 0xFFFF,
        v.link_target matches Some(x) ==> encode_utf8(x).len() <= 0xFFFF,
    ensures
        spec_decode_file_entry(file_entry_payload(v)) == Ok::<FileEntryView, DecodeError>(v),
{
    let e = Seq::<u8>::empty();
    let p = file_entry_payload(v);
    let head = file_entry_head(v);
    let so = opt_str16(v.symlink_target);
    let lo = opt_str16(v.link_target);
    assert(p =~= head + (so + lo));
    lemma_file_entry_head(v, so + lo);
    FileFlags::lemma_truncate_valid(v.flags);
    assert(p =~= head + so + lo);
    lemma_opt_str16_roundtrip(
        head,
        v.symlink_target,
        lo,
        MessageType::FileEntry,
        Field::SymlinkTargetLength,
        Field::SymlinkTarget,
    );
    assert(p =~= (head + so) + lo + e);
    lemma_opt_str16_roundtrip(
        head + so,
        v.link_target,
        e,
        MessageType::FileEntry,
        Field::LinkTargetLength,
        Field::LinkTarget,
    );
    let m = v.mtime;
    assert((m as u64) as i64 == m) by (bit_vector);
}

// =============================================================================
// DEST_FILE_ENTRY (0x04)
// =============================================================================

#[derive(Debug, Clone, Copy)]
pub struct BlockChecksum {
    pub offset: u64,
    pub weak: u32,
    pub strong: u64,
}

impl View for BlockChecksum {
    type V = BlockChecksum;

    open spec fn view(&self) -> BlockChecksum {
        *self
    }
}

impl BlockChecksum {
    /// Encoded size of one checksum: offset, weak and strong.
    pub const SIZE: usize = 20;
}

pub open spec fn checksum_bytes(c: BlockChecksum) -> Seq<u8> {
    be64(c.offset) + be32(c.weak) + be64(c.strong)
}

/// The checksums one after another, as DEST_FILE_ENTRY carries them.
pub open spec fn checksums_bytes(cs: Seq<BlockChecksum>) -> Seq<u8>
    decreases cs.len(),
{
    if cs.len() == 0 {
        Seq::empty()
    } else {
        checksums_bytes(cs.drop_last()) + checksum_bytes(cs.last())
    }
}

/// The checksum stored at `p[q..q + 20]`.
pub open spec fn checksum_at(p: Seq<u8>, q: int) -> BlockChecksum {
    BlockChecksum { offset: u64_at(p, q), weak: u32_at(p, q + 8), strong: u64_at(p, q + 12) }
}

#[derive(Debug, Clone)]
pub struct DestFileEntry {
    pub path: String,
    pub size: u64,
    pub mtime: i64,
    pub mode: u32,
    pub flags: DestFileFlags,
    pub block_size: u32,
    pub checksums: Vec<BlockChecksum>,
}

pub struct DestFileEntryView {
    pub path: Seq<char>,
    pub size: u64,
    pub mtime: i64,
    pub mode: u32,
    pub flags: u8,
    pub block_size: u32,
    pub checksums: Seq<BlockChecksum>,
}

impl View for DestFileEntry {
    type V = DestFileEntryView;

    open spec fn view(&self) -> DestFileEntryView {
        DestFileEntryView {
            path: self.path@,
            size: self.size,
            mtime: self.mtime,
            mode: self.mode,
            flags: self.flags@,
            block_size: self.block_size,
            checksums: self.checksums@,
        }
    }
}

pub open spec fn dest_file_entry_head(v: DestFileEntryView) -> Seq<u8> {
    str16(v.path) + be64(v.size) + be64(v.mtime as u64) + be32(v.mode) + seq![v.flags]
}

/// The checksum section: present exactly when the HAS_CHECKSUMS flag is set.
pub open spec fn dest_file_entry_checksums(v: DestFileEntryView) -> Seq<u8> {
    if v.flags & 2u8 == 2u8 {
        be32(v.block_size) + be32(v.checksums.len() as u32) + checksums_bytes(v.checksums)
    } else {
        Seq::empty()
    }
}

pub open spec fn dest_file_entry_payload(v: DestFileEntryView) -> Seq<u8> {
    dest_file_entry_head(v) + dest_file_entry_checksums(v)
}

pub open spec fn spec_decode_dest_file_entry(p: Seq<u8>) -> Result<DestFileEntryView, DecodeError> {
    if p.len() < 2 {
        Err(DecodeError::TooShort(MessageType::DestFileEntry))
    } else {
        let n = u16_at(p, 0) as int;
        if p.len() - 2 < n + 21 {
            Err(DecodeError::Truncated(MessageType::DestFileEntry, Field::Payload))
        } else if !valid_utf8(p.subrange(2, 2 + n)) {
            Err(DecodeError::InvalidUtf8(MessageType::DestFileEntry, Field::Path))
        } else {
            let flags = p[22 + n] & DestFileFlags::spec_all_bits();
            let pos = 23 + n;
            let head = DestFileEntryView {
                path: decode_utf8(p.subrange(2, 2 + n)),
                size: u64_at(p, 2 + n),
                mtime: u64_at(p, 10 + n) as i64,
                mode: u32_at(p, 18 + n),
                flags,
                block_size: 0,
                checksums: Seq::empty(),
            };
            if flags & 2u8 == 2u8 {
                if p.len() - pos < 8 {
                    Err(DecodeError::Truncated(MessageType::DestFileEntry, Field::ChecksumHeader))
                } else {
                    let count = u32_at(p, pos + 4) as int;
                    if p.len() - (pos + 8) < count * 20 {
                        Err(DecodeError::Truncated(MessageType::DestFileEntry, Field::Checksums))
                    } else {
                        Ok(
                            DestFileEntryView {
                                block_size: u32_at(p, pos),
                                checksums: Seq::new(
                                    count as nat,
                                    |i: int| checksum_at(p, pos + 8 + 20 * i),
                                ),
                                ..head
                            },
                        )
                    }
                }
            } else {
                Ok(head)
            }
        }
    }
}

impl DestFileEntry {
    pub fn encode(&self) -> (r: Bytes)
        ensures
            bytes_contents(r) == frame(MessageType::DestFileEntry, dest_file_entry_payload(self@)),
    {
        let mut p: Vec<u8> = Vec::new();
        put_str16(&mut p, &self.path);
        put_u64(&mut p, self.size);
        put_u64(&mut p, self.mtime as u64);
        put_u32(&mut p, self.mode);
        put_u8(&mut p, self.flags.bits());
        let ghost head = p@;
        if self.flags.contains(DestFileFlags::has_checksums()) {
            put_u32(&mut p, self.block_size);
            put_u32(&mut p, self.checksums.len() as u32);
            let ghost sec = p@;
            let mut i: usize = 0;
            while i < self.checksums.len()
                invariant
                    i <= self.checksums@.len(),
                    p@ == sec + checksums_bytes(self.checksums@.take(i as int)),
                decreases self.checksums@.len() - i,
            {
                let c = self.checksums[i];
                put_u64(&mut p, c.offset);
                put_u32(&mut p, c.weak);
                put_u64(&mut p, c.strong);
                proof {
                    let t = self.checksums@.take(i + 1);
                    assert(t.drop_last() =~= self.checksums@.take(i as int));
                    assert(t.last() == c);
                }
                i = i + 1;
            }
            assert(self.checksums@.take(self.checksums@.len() as int) =~= self.checksums@);
        } else {
            assert(head + Seq::<u8>::empty() =~= head);
        }
        finish_frame(MessageType::DestFileEntry, &p)
    }

    pub fn decode(payload: Bytes) -> (r: Result<Self, DecodeError>)
        ensures
            result_view(r) == spec_decode_dest_file_entry(bytes_contents(payload)),
    {
        let s = bytes_as_slice(&payload);
        let n = s.len();
        if n < 2 {
            return Err(DecodeError::TooShort(MessageType::DestFileEntry));
        }
        let pl = get_u16(s, 0) as usize;
        if n - 2 < pl + 21 {
            return Err(DecodeError::Truncated(MessageType::DestFileEntry, Field::Payload));
        }
        let path = match get_str(s, 2, pl) {
            Some(t) => t,
            None => {
                return Err(DecodeError::InvalidUtf8(MessageType::DestFileEntry, Field::Path));
            },
        };
        let size = get_u64(s, 2 + pl);
        let mtime = get_u64(s, 10 + pl) as i64;
        let mode = get_u32(s, 18 + pl);
        let flags = DestFileFlags::from_bits_truncate(s[22 + pl]);
        let pos = 23 + pl;
        if flags.contains(DestFileFlags::has_checksums()) {
            if n - pos < 8 {
                return Err(DecodeError::Truncated(MessageType::DestFileEntry, Field::ChecksumHeader));
            }
            let block_size = get_u32(s, pos);
            let count = get_u32(s, pos + 4) as usize;
            let required = (count as u64) * 20;
            if ((n - (pos + 8)) as u64) < required {
                return Err(DecodeError::Truncated(MessageType::DestFileEntry, Field::Checksums));
            }
            let ghost sp = s@;
            let ghost base = pos + 8;
            let mut checksums: Vec<BlockChecksum> = Vec::with_capacity(count);
            let mut i: usize = 0;
            let mut q: usize = pos + 8;
            while i < count
                invariant
                    i <= count,
                    n == sp.len(),
                    sp == s@,
                    q == base + 20 * i,
                    base + 20 * count <= n,
                    checksums@ =~= Seq::new(i as nat, |j: int| checksum_at(sp, base + 20 * j)),
                decreases count - i,
            {
                let c = BlockChecksum {
                    offset: get_u64(s, q),
                    weak: get_u32(s, q + 8),
                    strong: get_u64(s, q + 12),
                };
                checksums.push(c);
                i = i + 1;
                q = q + 20;
            }
            Ok(DestFileEntry { path, size, mtime, mode, flags, block_size, checksums })
        } else {
            Ok(DestFileEntry { path, size, mtime, mode, flags, block_size: 0, checksums: Vec::new() })
        }
    }
}

/// The encoded checksums take 20 bytes each, and checksum `i` sits at byte
/// `20 * i` of them.
proof fn lemma_checksums_layout(a: Seq<u8>, cs: Seq<BlockChecksum>, b: Seq<u8>)
    ensures
        checksums_bytes(cs).len() == 20 * cs.len(),
        forall|i: int|
            0 <= i < cs.len() ==> #[trigger] checksum_at(
                a + checksums_bytes(cs) + b,
                a.len() + 20 * i,
            ) == cs[i],
    decreases cs.len(),
{
    if cs.len() > 0 {
        let init = cs.drop_last();
        let c = cs.last();
        let cb = checksum_bytes(c);
        lemma_checksums_layout(a, init, cb + b);
        assert(a + checksums_bytes(cs) + b =~= a + checksums_bytes(init) + (cb + b));
        let a2 = a + checksums_bytes(init);
        let s = a + checksums_bytes(cs) + b;
        assert(s =~= a2 + be64(c.offset) + (be32(c.weak) + be64(c.strong) + b));
        lemma_read_u64(a2, c.offset, be32(c.weak) + be64(c.strong) + b);
        assert(s =~= (a2 + be64(c.offset)) + be32(c.weak) + (be64(c.strong) + b));
        lemma_read_u32(a2 + be64(c.offset), c.weak, be64(c.strong) + b);
        assert(s =~= (a2 + be64(c.offset) + be32(c.weak)) + be64(c.strong) + b);
        lemma_read_u64(a2 + be64(c.offset) + be32(c.weak), c.strong, b);
        assert forall|i: int| 0 <= i < cs.len() implies #[trigger] checksum_at(
            s,
            a.len() + 20 * i,
        ) == cs[i] by {
            if i < cs.len() - 1 {
                assert(checksum_at(a + checksums_bytes(init) + (cb + b), a.len() + 20 * i)
                    == init[i]);
            }
        }
    }
}

/// The fixed fields of a DEST_FILE_ENTRY payload sit at their offsets after the path.
proof fn lemma_dest_file_entry_head(v: DestFileEntryView, rest: Seq<u8>)
    requires
        encode_utf8(v.path).len() <= 0xFFFF,
    ensures
        ({
            let p = dest_file_entry_head(v) + rest;
            let n = encode_utf8(v.path).len() as int;
            &&& dest_file_entry_head(v).len() == 23 + n
            &&& u16_at(p, 0) == n
            &&& p.subrange(2, 2 + n) == encode_utf8(v.path)
            &&& u64_at(p, 2 + n) == v.size
            &&& u64_at(p, 10 + n) == v.mtime as u64
            &&& u32_at(p, 18 + n) == v.mode
            &&& p[22 + n] == v.flags
        }),
{
    let e = Seq::<u8>::empty();
    let p = dest_file_entry_head(v) + rest;
    let sp = str16(v.path);
    let a1 = sp + be64(v.size);
    let a2 = a1 + be64(v.mtime as u64);
    let a3 = a2 + be32(v.mode);
    assert(p =~= e + sp + (be64(v.size) + be64(v.mtime as u64) + be32(v.mode) + seq![v.flags]
        + rest));
    lemma_read_str16(e, v.path, be64(v.size) + be64(v.mtime as u64) + be32(v.mode) + seq![v.flags]
        + rest);
    assert(p =~= sp + be64(v.size) + (be64(v.mtime as u64) + be32(v.mode) + seq![v.flags] + rest));
    lemma_read_u64(sp, v.size, be64(v.mtime as u64) + be32(v.mode) + seq![v.flags] + rest);
    assert(p =~= a1 + be64(v.mtime as u64) + (be32(v.mode) + seq![v.flags] + rest));
    lemma_read_u64(a1, v.mtime as u64, be32(v.mode) + seq![v.flags] + rest);
    assert(p =~= a2 + be32(v.mode) + (seq![v.flags] + rest));
    lemma_read_u32(a2, v.mode, seq![v.flags] + rest);
    assert(p =~= a3 + seq![v.flags] + rest);
    lemma_read_u8(a3, v.flags, rest);
}

/// Where the checksum section of a DEST_FILE_ENTRY payload puts the block
/// size, the count and each checksum.
proof fn lemma_dest_checksum_section(v: DestFileEntryView)
    requires
        v.flags & 2u8 == 2u8,
        encode_utf8(v.path).len() <= 0xFFFF,
        v.checksums.len() <= 0xFFFF_FFFF,
    ensures
        ({
            let p = dest_file_entry_payload(v);
            let pos = 23 + encode_utf8(v.path).len() as int;
            let cs = v.checksums;
            &&& u32_at(p, pos) == v.block_size
            &&& u32_at(p, pos + 4) == cs.len()
            &&& p.len() == pos + 8 + 20 * cs.len()
            &&& forall|i: int|
                0 <= i < cs.len() ==> #[trigger] checksum_at(p, pos + 8 + 20 * i) == cs[i]
        }),
{
    let p = dest_file_entry_payload(v);
    let head = dest_file_entry_head(v);
    let cs = v.checksums;
    let len = cs.len();
    let pos = 23 + encode_utf8(v.path).len() as int;
    assert(head.len() == pos);
    let cb = checksums_bytes(cs);
    let a = head + be32(v.block_size) + be32(len as u32);
    assert(p =~= a + cb) by {
        assert(dest_file_entry_checksums(v) == be32(v.block_size) + be32(len as u32) + cb);
    }
    lemma_section_header(head, v.block_size, len as u32, cb);
    lemma_checksums_layout(a, cs, Seq::<u8>::empty());
    assert(a + cb + Seq::<u8>::empty() =~= p);
}

proof fn lemma_section_header(h: Seq<u8>, bs: u32, count: u32, rest: Seq<u8>)
    ensures
        u32_at(h + be32(bs) + be32(count) + rest, h.len() as int) == bs,
        u32_at(h + be32(bs) + be32(count) + rest, h.len() as int + 4) == count,
{
    let p = h + be32(bs) + be32(count) + rest;
    assert(p =~= h + be32(bs) + (be32(count) + rest));
    lemma_read_u32(h, bs, be32(count) + rest);
    lemma_read_u32(h + be32(bs), count, rest);
}

/// Decoding the payload of an encoded DEST_FILE_ENTRY gives back the entry,
/// provided its flags name only known flags, an entry without the
/// HAS_CHECKSUMS flag has block size 0 and no checksums, the path fits the
/// 16-bit length field and the checksum count the 32-bit one.
#[verifier::rlimit(40)]
pub proof fn lemma_dest_file_entry_roundtrip(v: DestFileEntryView)
    requires
        v.flags & !DestFileFlags::spec_all_bits() == 0,
        v.flags & 2u8 != 2u8 ==> v.block_size == 0 && v.checksums.len() == 0,
        encode_utf8(v.path).len() <= 0xFFFF,
        v.checksums.len() <= 0xFFFF_FFFF,
    ensures
        spec_decode_dest_file_entry(dest_file_entry_payload(v)) == Ok::<
            DestFileEntryView,
            DecodeError,
        >(v),
{
    let e = Seq::<u8>::empty();
    let p = dest_file_entry_payload(v);
    let head = dest_file_entry_head(v);
    let n = encode_utf8(v.path).len() as int;
    let sec = dest_file_entry_checksums(v);
    lemma_dest_file_entry_head(v, sec);
    DestFileFlags::lemma_truncate_valid(v.flags);
    let pos = 23 + n;
    if v.flags & 2u8 == 2u8 {
        lemma_dest_checksum_section(v);
        assert(Seq::new(v.checksums.len(), |i: int| checksum_at(p, pos + 8 + 20 * i))
            =~= v.checksums);
    } else {
        assert(v.checksums =~= Seq::<BlockChecksum>::empty());
        assert(p =~= head);
    }
    let m = v.mtime;
    assert((m as u64) as i64 == m) by (bit_vector);
}

} // verus!
