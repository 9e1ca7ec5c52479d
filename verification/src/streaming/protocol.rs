//! Protocol v2 constants, message type codes, flag sets, error codes and
//! version negotiation.
//!
//! Wire format: every multi-byte integer is big-endian, strings carry a
//! `u16` byte length followed by UTF-8, and each frame is
//! `len:u32 | type:u8 | payload` where `len` counts the payload only.

use vstd::prelude::*;

pub use crate::streaming::entries::{BlockChecksum, DestFileEntry, FileEntry};
pub use crate::streaming::messages::{DecodeError, DeleteEnd, DestFileEnd, Done, FileEnd, Hello, Progress};
pub use crate::streaming::transfer::{Data, DataEnd, Delete, Error, Fatal, Mkdir, Symlink};
pub use crate::streaming::xattr::{Xattr, XattrEntry};

verus! {

/// Protocol version 2 (streaming)
pub const PROTOCOL_VERSION: u16 = 2;

/// Protocol version 1 (request-response, legacy)
pub const PROTOCOL_VERSION_V1: u16 = 1;

/// Minimum supported protocol version
pub const PROTOCOL_VERSION_MIN: u16 = 2;

/// Maximum supported protocol version
pub const PROTOCOL_VERSION_MAX: u16 = 2;

/// Maximum frame payload size (64MB), checked before any allocation.
pub const MAX_FRAME_SIZE: u32 = 64 * 1024 * 1024;

// =============================================================================
// Message Types
// =============================================================================

#[derive(Debug, Clone, Copy, PartialEq, Eq, Structural)]
pub enum MessageType {
    Hello,
    FileEntry,
    FileEnd,
    DestFileEntry,
    DestFileEnd,
    Data,
    DataEnd,
    Delete,
    DeleteEnd,
    Mkdir,
    Symlink,
    Progress,
    Error,
    Fatal,
    Xattr,
    Done,
}

impl MessageType {
    /// The byte that stands for this message type in a frame header.
    pub open spec fn code(self) -> u8 {
        match self {
            MessageType::Hello => 0x01,
            MessageType::FileEntry => 0x02,
            MessageType::FileEnd => 0x03,
            MessageType::DestFileEntry => 0x04,
            MessageType::DestFileEnd => 0x05,
            MessageType::Data => 0x06,
            MessageType::DataEnd => 0x07,
            MessageType::Delete => 0x08,
            MessageType::DeleteEnd => 0x09,
            MessageType::Mkdir => 0x0A,
            MessageType::Symlink => 0x0B,
            MessageType::Progress => 0x0C,
            MessageType::Error => 0x0D,
            MessageType::Fatal => 0x0E,
            MessageType::Xattr => 0x0F,
            MessageType::Done => 0x10,
        }
    }

    pub fn to_u8(self) -> (r: u8)
        ensures
            r == self.code(),
    {
        match self {
            MessageType::Hello => 0x01,
            MessageType::FileEntry => 0x02,
            MessageType::FileEnd => 0x03,
            MessageType::DestFileEntry => 0x04,
            MessageType::DestFileEnd => 0x05,
            MessageType::Data => 0x06,
            MessageType::DataEnd => 0x07,
            MessageType::Delete => 0x08,
            MessageType::DeleteEnd => 0x09,
            MessageType::Mkdir => 0x0A,
            MessageType::Symlink => 0x0B,
            MessageType::Progress => 0x0C,
            MessageType::Error => 0x0D,
            MessageType::Fatal => 0x0E,
            MessageType::Xattr => 0x0F,
            MessageType::Done => 0x10,
        }
    }

    /// The variant's name, as `{:?}` prints it.
    pub open spec fn spec_name(self) -> Seq<char> {
        match self {
            MessageType::Hello => "Hello"@,
            MessageType::FileEntry => "FileEntry"@,
            MessageType::FileEnd => "FileEnd"@,
            MessageType::DestFileEntry => "DestFileEntry"@,
            MessageType::DestFileEnd => "DestFileEnd"@,
            MessageType::Data => "Data"@,
            MessageType::DataEnd => "DataEnd"@,
            MessageType::Delete => "Delete"@,
            MessageType::DeleteEnd => "DeleteEnd"@,
            MessageType::Mkdir => "Mkdir"@,
            MessageType::Symlink => "Symlink"@,
            MessageType::Progress => "Progress"@,
            MessageType::Error => "Error"@,
            MessageType::Fatal => "Fatal"@,
            MessageType::Xattr => "Xattr"@,
            MessageType::Done => "Done"@,
        }
    }

    /// The variant's name, as `{:?}` prints it.
    pub fn name(self) -> (r: &'static str)
        ensures
            r@ == self.spec_name(),
    {
        match self {
            MessageType::Hello => "Hello",
            MessageType::FileEntry => "FileEntry",
            MessageType::FileEnd => "FileEnd",
            MessageType::DestFileEntry => "DestFileEntry",
            MessageType::DestFileEnd => "DestFileEnd",
            MessageType::Data => "Data",
            MessageType::DataEnd => "DataEnd",
            MessageType::Delete => "Delete",
            MessageType::DeleteEnd => "DeleteEnd",
            MessageType::Mkdir => "Mkdir",
            MessageType::Symlink => "Symlink",
            MessageType::Progress => "Progress",
            MessageType::Error => "Error",
            MessageType::Fatal => "Fatal",
            MessageType::Xattr => "Xattr",
            MessageType::Done => "Done",
        }
    }

    /// The message type whose code is `b`; `None` for bytes outside `0x01..=0x10`.
    pub fn from_u8(b: u8) -> (r: Option<Self>)
        ensures
            r is Some <==> 0x01 <= b <= 0x10,
            r matches Some(t) ==> t.code() == b,
    {
        match b {
            0x01 => Some(Self::Hello),
            0x02 => Some(Self::FileEntry),
            0x03 => Some(Self::FileEnd),
            0x04 => Some(Self::DestFileEntry),
            0x05 => Some(Self::DestFileEnd),
            0x06 => Some(Self::Data),
            0x07 => Some(Self::DataEnd),
            0x08 => Some(Self::Delete),
            0x09 => Some(Self::DeleteEnd),
            0x0A => Some(Self::Mkdir),
            0x0B => Some(Self::Symlink),
            0x0C => Some(Self::Progress),
            0x0D => Some(Self::Error),
            0x0E => Some(Self::Fatal),
            0x0F => Some(Self::Xattr),
            0x10 => Some(Self::Done),
            _ => None,
        }
    }
}

/// Distinct message types have distinct codes, so a frame's type byte names
/// exactly one message type.
pub proof fn lemma_message_code_injective(a: MessageType, b: MessageType)
    requires
        a.code() == b.code(),
    ensures
        a == b,
{
}

// =============================================================================
// Flag sets
// =============================================================================

/// Flags carried by HELLO.
#[derive(Debug, Clone, Copy, PartialEq, Eq, Structural)]
pub struct HelloFlags {
    bits: u32,
}

impl View for HelloFlags {
    type V = u32;

    closed spec fn view(&self) -> u32 {
        self.bits
    }
}

impl HelloFlags {
    /// The facts about this set's mask that its operations rest on.
    proof fn lemma_mask(a: u32, b: u32)
        by (bit_vector)
        ensures
            (a & 0x3Fu32) & !0x3Fu32 == 0,
            a & !0x3Fu32 == 0 && b & !0x3Fu32 == 0 ==> (a | b) & !0x3Fu32 == 0,
            a & !0x3Fu32 == 0 ==> a & 0x3Fu32 == a,
            0u32 & !0x3Fu32 == 0,
            0x3Fu32 & !0x3Fu32 == 0,
            1u32 & !0x3Fu32 == 0,
            2u32 & !0x3Fu32 == 0,
            4u32 & !0x3Fu32 == 0,
            8u32 & !0x3Fu32 == 0,
            16u32 & !0x3Fu32 == 0,
            32u32 & !0x3Fu32 == 0,
    {
    }
    /// Truncating bits that name only flags of this set leaves them unchanged.
    pub proof fn lemma_truncate_valid(b: u32)
        requires
            b & !Self::spec_all_bits() == 0,
        ensures
            b & Self::spec_all_bits() == b,
    {
        Self::lemma_mask(b, 0);
    }

    /// Every bit that names a flag of this set.
    pub open spec fn spec_all_bits() -> u32 {
        0x3Fu32
    }

    /// Holds when no bit outside the named flags is set.
    pub open spec fn valid(self) -> bool {
        self@ & !Self::spec_all_bits() == 0
    }

    pub fn empty() -> (r: Self)
        ensures
            r@ == 0,
            r.valid(),
    {
        proof {
            Self::lemma_mask(0, 0);
        }
        HelloFlags { bits: 0 }
    }

    pub fn all() -> (r: Self)
        ensures
            r@ == Self::spec_all_bits(),
            r.valid(),
    {
        proof {
            Self::lemma_mask(0, 0);
        }
        HelloFlags { bits: 0x3Fu32 }
    }

    /// The receiving side sends, the client writes (pull).
    pub fn pull() -> (r: Self)
        ensures
            r@ == 1u32,
            r.valid(),
    {
        proof {
            Self::lemma_mask(0, 0);
        }
        HelloFlags { bits: 1u32 }
    }

    /// Delete destination files absent from the source.
    pub fn delete() -> (r: Self)
        ensures
            r@ == 2u32,
            r.valid(),
    {
        proof {
            Self::lemma_mask(0, 0);
        }
        HelloFlags { bits: 2u32 }
    }

    /// Compare by checksum.
    pub fn checksum() -> (r: Self)
        ensures
            r@ == 4u32,
            r.valid(),
    {
        proof {
            Self::lemma_mask(0, 0);
        }
        HelloFlags { bits: 4u32 }
    }

    /// Compress data.
    pub fn compression() -> (r: Self)
        ensures
            r@ == 8u32,
            r.valid(),
    {
        proof {
            Self::lemma_mask(0, 0);
        }
        HelloFlags { bits: 8u32 }
    }

    /// Carry extended attributes.
    pub fn xattrs() -> (r: Self)
        ensures
            r@ == 16u32,
            r.valid(),
    {
        proof {
            Self::lemma_mask(0, 0);
        }
        HelloFlags { bits: 16u32 }
    }

    /// Carry access control lists.
    pub fn acls() -> (r: Self)
        ensures
            r@ == 32u32,
            r.valid(),
    {
        proof {
            Self::lemma_mask(0, 0);
        }
        HelloFlags { bits: 32u32 }
    }

    pub fn bits(&self) -> (r: u32)
        ensures
            r == self@,
    {
        self.bits
    }

    /// Keeps the bits of `bits` that name flags and drops the others.
    pub fn from_bits_truncate(bits: u32) -> (r: Self)
        ensures
            r@ == bits & Self::spec_all_bits(),
            r.valid(),
    {
        proof {
            Self::lemma_mask(bits, 0);
        }
        HelloFlags { bits: bits & 0x3Fu32 }
    }

    /// Whether every flag of `other` is set in `self`.
    pub fn contains(&self, other: Self) -> (r: bool)
        ensures
            r == (self@ & other@ == other@),
    {
        self.bits & other.bits == other.bits
    }

    /// The flags set in either `self` or `other`.
    pub fn union(self, other: Self) -> (r: Self)
        ensures
            r@ == self@ | other@,
            self.valid() && other.valid() ==> r.valid(),
    {
        let a = self.bits;
        let b = other.bits;
        proof {
            Self::lemma_mask(a, b);
        }
        HelloFlags { bits: a | b }
    }
}

/// Flags carried by FILE_ENTRY.
#[derive(Debug, Clone, Copy, PartialEq, Eq, Structural)]
pub struct FileFlags {
    bits: u8,
}

impl View for FileFlags {
    type V = u8;

    closed spec fn view(&self) -> u8 {
        self.bits
    }
}

impl FileFlags {
    /// The facts about this set's mask that its operations rest on.
    proof fn lemma_mask(a: u8, b: u8)
        by (bit_vector)
        ensures
            (a & 0x1Fu8) & !0x1Fu8 == 0,
            a & !0x1Fu8 == 0 && b & !0x1Fu8 == 0 ==> (a | b) & !0x1Fu8 == 0,
            a & !0x1Fu8 == 0 ==> a & 0x1Fu8 == a,
            0u8 & !0x1Fu8 == 0,
            0x1Fu8 & !0x1Fu8 == 0,
            1u8 & !0x1Fu8 == 0,
            2u8 & !0x1Fu8 == 0,
            4u8 & !0x1Fu8 == 0,
            8u8 & !0x1Fu8 == 0,
            16u8 & !0x1Fu8 == 0,
    {
    }
    /// Truncating bits that name only flags of this set leaves them unchanged.
    pub proof fn lemma_truncate_valid(b: u8)
        requires
            b & !Self::spec_all_bits() == 0,
        ensures
            b & Self::spec_all_bits() == b,
    {
        Self::lemma_mask(b, 0);
    }

    /// Every bit that names a flag of this set.
    pub open spec fn spec_all_bits() -> u8 {
        0x1Fu8
    }

    /// Holds when no bit outside the named flags is set.
    pub open spec fn valid(self) -> bool {
        self@ & !Self::spec_all_bits() == 0
    }

    pub fn empty() -> (r: Self)
        ensures
            r@ == 0,
            r.valid(),
    {
        proof {
            Self::lemma_mask(0, 0);
        }
        FileFlags { bits: 0 }
    }

    pub fn all() -> (r: Self)
        ensures
            r@ == Self::spec_all_bits(),
            r.valid(),
    {
        proof {
            Self::lemma_mask(0, 0);
        }
        FileFlags { bits: 0x1Fu8 }
    }

    /// The entry is a directory.
    pub fn dir() -> (r: Self)
        ensures
            r@ == 1u8,
            r.valid(),
    {
        proof {
            Self::lemma_mask(0, 0);
        }
        FileFlags { bits: 1u8 }
    }

    /// The entry is a symlink; its target follows.
    pub fn symlink() -> (r: Self)
        ensures
            r@ == 2u8,
            r.valid(),
    {
        proof {
            Self::lemma_mask(0, 0);
        }
        FileFlags { bits: 2u8 }
    }

    /// The entry is a hard link; its link target follows.
    pub fn hardlink() -> (r: Self)
        ensures
            r@ == 4u8,
            r.valid(),
    {
        proof {
            Self::lemma_mask(0, 0);
        }
        FileFlags { bits: 4u8 }
    }

    /// Extended attributes follow for this entry.
    pub fn has_xattrs() -> (r: Self)
        ensures
            r@ == 8u8,
            r.valid(),
    {
        proof {
            Self::lemma_mask(0, 0);
        }
        FileFlags { bits: 8u8 }
    }

    /// The file is sparse.
    pub fn sparse() -> (r: Self)
        ensures
            r@ == 16u8,
            r.valid(),
    {
        proof {
            Self::lemma_mask(0, 0);
        }
        FileFlags { bits: 16u8 }
    }

    pub fn bits(&self) -> (r: u8)
        ensures
            r == self@,
    {
        self.bits
    }

    /// Keeps the bits of `bits` that name flags and drops the others.
    pub fn from_bits_truncate(bits: u8) -> (r: Self)
        ensures
            r@ == bits & Self::spec_all_bits(),
            r.valid(),
    {
        proof {
            Self::lemma_mask(bits, 0);
        }
        FileFlags { bits: bits & 0x1Fu8 }
    }

    /// Whether every flag of `other` is set in `self`.
    pub fn contains(&self, other: Self) -> (r: bool)
        ensures
            r == (self@ & other@ == other@),
    {
        self.bits & other.bits == other.bits
    }

    /// The flags set in either `self` or `other`.
    pub fn union(self, other: Self) -> (r: Self)
        ensures
            r@ == self@ | other@,
            self.valid() && other.valid() ==> r.valid(),
    {
        let a = self.bits;
        let b = other.bits;
        proof {
            Self::lemma_mask(a, b);
        }
        FileFlags { bits: a | b }
    }
}

/// Flags carried by DEST_FILE_ENTRY.
#[derive(Debug, Clone, Copy, PartialEq, Eq, Structural)]
pub struct DestFileFlags {
    bits: u8,
}

impl View for DestFileFlags {
    type V = u8;

    closed spec fn view(&self) -> u8 {
        self.bits
    }
}

impl DestFileFlags {
    /// The facts about this set's mask that its operations rest on.
    proof fn lemma_mask(a: u8, b: u8)
        by (bit_vector)
        ensures
            (a & 0x03u8) & !0x03u8 == 0,
            a & !0x03u8 == 0 && b & !0x03u8 == 0 ==> (a | b) & !0x03u8 == 0,
            a & !0x03u8 == 0 ==> a & 0x03u8 == a,
            0u8 & !0x03u8 == 0,
            0x03u8 & !0x03u8 == 0,
            1u8 & !0x03u8 == 0,
            2u8 & !0x03u8 == 0,
    {
    }
    /// Truncating bits that name only flags of this set leaves them unchanged.
    pub proof fn lemma_truncate_valid(b: u8)
        requires
            b & !Self::spec_all_bits() == 0,
        ensures
            b & Self::spec_all_bits() == b,
    {
        Self::lemma_mask(b, 0);
    }

    /// Every bit that names a flag of this set.
    pub open spec fn spec_all_bits() -> u8 {
        0x03u8
    }

    /// Holds when no bit outside the named flags is set.
    pub open spec fn valid(self) -> bool {
        self@ & !Self::spec_all_bits() == 0
    }

    pub fn empty() -> (r: Self)
        ensures
            r@ == 0,
            r.valid(),
    {
        proof {
            Self::lemma_mask(0, 0);
        }
        DestFileFlags { bits: 0 }
    }

    pub fn all() -> (r: Self)
        ensures
            r@ == Self::spec_all_bits(),
            r.valid(),
    {
        proof {
            Self::lemma_mask(0, 0);
        }
        DestFileFlags { bits: 0x03u8 }
    }

    /// The destination entry is a directory.
    pub fn dir() -> (r: Self)
        ensures
            r@ == 1u8,
            r.valid(),
    {
        proof {
            Self::lemma_mask(0, 0);
        }
        DestFileFlags { bits: 1u8 }
    }

    /// Block checksums follow.
    pub fn has_checksums() -> (r: Self)
        ensures
            r@ == 2u8,
            r.valid(),
    {
        proof {
            Self::lemma_mask(0, 0);
        }
        DestFileFlags { bits: 2u8 }
    }

    pub fn bits(&self) -> (r: u8)
        ensures
            r == self@,
    {
        self.bits
    }

    /// Keeps the bits of `bits` that name flags and drops the others.
    pub fn from_bits_truncate(bits: u8) -> (r: Self)
        ensures
            r@ == bits & Self::spec_all_bits(),
            r.valid(),
    {
        proof {
            Self::lemma_mask(bits, 0);
        }
        DestFileFlags { bits: bits & 0x03u8 }
    }

    /// Whether every flag of `other` is set in `self`.
    pub fn contains(&self, other: Self) -> (r: bool)
        ensures
            r == (self@ & other@ == other@),
    {
        self.bits & other.bits == other.bits
    }

    /// The flags set in either `self` or `other`.
    pub fn union(self, other: Self) -> (r: Self)
        ensures
            r@ == self@ | other@,
            self.valid() && other.valid() ==> r.valid(),
    {
        let a = self.bits;
        let b = other.bits;
        proof {
            Self::lemma_mask(a, b);
        }
        DestFileFlags { bits: a | b }
    }
}

/// Flags carried by DATA.
#[derive(Debug, Clone, Copy, PartialEq, Eq, Structural)]
pub struct DataFlags {
    bits: u8,
}

impl View for DataFlags {
    type V = u8;

    closed spec fn view(&self) -> u8 {
        self.bits
    }
}

impl DataFlags {
    /// The facts about this set's mask that its operations rest on.
    proof fn lemma_mask(a: u8, b: u8)
        by (bit_vector)
        ensures
            (a & 0x07u8) & !0x07u8 == 0,
            a & !0x07u8 == 0 && b & !0x07u8 == 0 ==> (a | b) & !0x07u8 == 0,
            a & !0x07u8 == 0 ==> a & 0x07u8 == a,
            0u8 & !0x07u8 == 0,
            0x07u8 & !0x07u8 == 0,
            1u8 & !0x07u8 == 0,
            2u8 & !0x07u8 == 0,
            4u8 & !0x07u8 == 0,
    {
    }
    /// Truncating bits that name only flags of this set leaves them unchanged.
    pub proof fn lemma_truncate_valid(b: u8)
        requires
            b & !Self::spec_all_bits() == 0,
        ensures
            b & Self::spec_all_bits() == b,
    {
        Self::lemma_mask(b, 0);
    }

    /// Every bit that names a flag of this set.
    pub open spec fn spec_all_bits() -> u8 {
        0x07u8
    }

    /// Holds when no bit outside the named flags is set.
    pub open spec fn valid(self) -> bool {
        self@ & !Self::spec_all_bits() == 0
    }

    pub fn empty() -> (r: Self)
        ensures
            r@ == 0,
            r.valid(),
    {
        proof {
            Self::lemma_mask(0, 0);
        }
        DataFlags { bits: 0 }
    }

    pub fn all() -> (r: Self)
        ensures
            r@ == Self::spec_all_bits(),
            r.valid(),
    {
        proof {
            Self::lemma_mask(0, 0);
        }
        DataFlags { bits: 0x07u8 }
    }

    /// The data is compressed.
    pub fn compressed() -> (r: Self)
        ensures
            r@ == 1u8,
            r.valid(),
    {
        proof {
            Self::lemma_mask(0, 0);
        }
        DataFlags { bits: 1u8 }
    }

    /// The data holds delta operations.
    pub fn delta() -> (r: Self)
        ensures
            r@ == 2u8,
            r.valid(),
    {
        proof {
            Self::lemma_mask(0, 0);
        }
        DataFlags { bits: 2u8 }
    }

    /// This is the last chunk of the file.
    pub fn final_chunk() -> (r: Self)
        ensures
            r@ == 4u8,
            r.valid(),
    {
        proof {
            Self::lemma_mask(0, 0);
        }
        DataFlags { bits: 4u8 }
    }

    pub fn bits(&self) -> (r: u8)
        ensures
            r == self@,
    {
        self.bits
    }

    /// Keeps the bits of `bits` that name flags and drops the others.
    pub fn from_bits_truncate(bits: u8) -> (r: Self)
        ensures
            r@ == bits & Self::spec_all_bits(),
            r.valid(),
    {
        proof {
            Self::lemma_mask(bits, 0);
        }
        DataFlags { bits: bits & 0x07u8 }
    }

    /// Whether every flag of `other` is set in `self`.
    pub fn contains(&self, other: Self) -> (r: bool)
        ensures
            r == (self@ & other@ == other@),
    {
        self.bits & other.bits == other.bits
    }

    /// The flags set in either `self` or `other`.
    pub fn union(self, other: Self) -> (r: Self)
        ensures
            r@ == self@ | other@,
            self.valid() && other.valid() ==> r.valid(),
    {
        let a = self.bits;
        let b = other.bits;
        proof {
            Self::lemma_mask(a, b);
        }
        DataFlags { bits: a | b }
    }
}

// =============================================================================
// Error Codes
// =============================================================================

#[derive(Debug, Clone, Copy, PartialEq, Eq, Structural)]
pub enum ErrorCode {
    IoError,
    PermissionDenied,
    NotFound,
    ChecksumMismatch,
    DiskFull,
}

impl ErrorCode {
    /// The number that stands for this error code on the wire.
    pub open spec fn code(self) -> u16 {
        match self {
            ErrorCode::IoError => 1,
            ErrorCode::PermissionDenied => 2,
            ErrorCode::NotFound => 3,
            ErrorCode::ChecksumMismatch => 4,
            ErrorCode::DiskFull => 5,
        }
    }

    pub fn to_u16(self) -> (r: u16)
        ensures
            r == self.code(),
    {
        match self {
            ErrorCode::IoError => 1,
            ErrorCode::PermissionDenied => 2,
            ErrorCode::NotFound => 3,
            ErrorCode::ChecksumMismatch => 4,
            ErrorCode::DiskFull => 5,
        }
    }

    /// The error code numbered `v`; `None` outside `1..=5`.
    pub fn from_u16(v: u16) -> (r: Option<Self>)
        ensures
            r is Some <==> 1 <= v <= 5,
            r matches Some(c) ==> c.code() == v,
    {
        match v {
            1 => Some(Self::IoError),
            2 => Some(Self::PermissionDenied),
            3 => Some(Self::NotFound),
            4 => Some(Self::ChecksumMismatch),
            5 => Some(Self::DiskFull),
            _ => None,
        }
    }
}

// =============================================================================
// Version Negotiation
// =============================================================================

/// Result of version negotiation
#[derive(Debug, Clone, Copy, PartialEq, Eq, Structural)]
pub enum VersionNegotiationResult {
    /// Version is supported
    Supported(u16),
    /// Version is too old (client needs upgrade)
    TooOld { client: u16, min_supported: u16 },
    /// Version is too new (server needs upgrade)
    TooNew { client: u16, max_supported: u16 },
}

pub open spec fn spec_negotiate_version(client_version: u16) -> VersionNegotiationResult {
    if client_version < PROTOCOL_VERSION_MIN {
        VersionNegotiationResult::TooOld { client: client_version, min_supported: PROTOCOL_VERSION_MIN }
    } else if client_version > PROTOCOL_VERSION_MAX {
        VersionNegotiationResult::TooNew { client: client_version, max_supported: PROTOCOL_VERSION_MAX }
    } else {
        VersionNegotiationResult::Supported(client_version)
    }
}

/// Check if a client protocol version is supported.
pub fn negotiate_version(client_version: u16) -> (r: VersionNegotiationResult)
    ensures
        r == spec_negotiate_version(client_version),
{
    if client_version < PROTOCOL_VERSION_MIN {
        VersionNegotiationResult::TooOld { client: client_version, min_supported: PROTOCOL_VERSION_MIN }
    } else if client_version > PROTOCOL_VERSION_MAX {
        VersionNegotiationResult::TooNew { client: client_version, max_supported: PROTOCOL_VERSION_MAX }
    } else {
        VersionNegotiationResult::Supported(client_version)
    }
}

/// Check if a protocol version indicates v2 streaming protocol.
pub fn is_streaming_protocol(version: u16) -> (r: bool)
    ensures
        r == (version >= 2),
{
    version >= 2
}

/// Check if a protocol version indicates v1 request-response protocol.
pub fn is_legacy_protocol(version: u16) -> (r: bool)
    ensures
        r == (version == 1),
{
    version == 1
}

/// Negotiation accepts a version exactly when it lies between the minimum and
/// maximum supported versions, and then accepts it unchanged; every accepted
/// version is a streaming version and none is the legacy one.
pub proof fn lemma_negotiation_accepts_exactly_supported(v: u16)
    ensures
        (spec_negotiate_version(v) is Supported) <==> (PROTOCOL_VERSION_MIN <= v
            <= PROTOCOL_VERSION_MAX),
        spec_negotiate_version(v) matches VersionNegotiationResult::Supported(w) ==> w == v && w
            >= 2 && w != 1,
{
}

// =============================================================================
// Frame header
// =============================================================================

/// Errors met while reading a frame header.
#[derive(Debug, Clone, Copy, PartialEq, Eq, Structural)]
pub enum FrameError {
    /// The announced payload length is over `MAX_FRAME_SIZE`.
    TooLarge { size: u32, max: u32 },
    /// The type byte names no message type.
    UnknownMessageType(u8),
}

/// The check a reader makes on a frame's length field before it reads on:
/// the payload may not be longer than `MAX_FRAME_SIZE`.
pub fn check_frame_len(len: u32) -> (r: Result<usize, FrameError>)
    ensures
        len > MAX_FRAME_SIZE ==> r == Err::<usize, FrameError>(
            FrameError::TooLarge { size: len, max: MAX_FRAME_SIZE },
        ),
        len <= MAX_FRAME_SIZE ==> r == Ok::<usize, FrameError>(len as usize),
{
    if len > MAX_FRAME_SIZE {
        Err(FrameError::TooLarge { size: len, max: MAX_FRAME_SIZE })
    } else {
        Ok(len as usize)
    }
}

/// The message type named by a frame's type byte.
pub fn check_frame_type(type_byte: u8) -> (r: Result<MessageType, FrameError>)
    ensures
        r is Ok <==> 0x01 <= type_byte <= 0x10,
        r matches Ok(t) ==> t.code() == type_byte,
        r is Err ==> r == Err::<MessageType, FrameError>(FrameError::UnknownMessageType(type_byte)),
{
    match MessageType::from_u8(type_byte) {
        Some(t) => Ok(t),
        None => Err(FrameError::UnknownMessageType(type_byte)),
    }
}

} // verus!
