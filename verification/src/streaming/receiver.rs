//! The receiver's decisions: decoding what arrives, the destination entries
//! it announces during the initial exchange, and how it batches them.
//! Writing files is left to the caller.

use vstd::prelude::*;
use bytes::Bytes;
use std::path::PathBuf;
use crate::streaming::channel::{DELTA_MIN_SIZE, SyncStats};
use crate::streaming::table::PathTable;
use crate::streaming::entries::{
    dest_file_entry_payload, spec_decode_file_entry, BlockChecksum, DestFileEntry,
    DestFileEntryView, FileEntry, FileEntryView,
};
use crate::streaming::messages::{
    dest_file_end_payload, frame, result_view, spec_decode_delete_end, spec_decode_file_end,
    DecodeError, DeleteEnd, DestFileEnd, FileEnd,
};
use crate::streaming::protocol::{DestFileFlags, MessageType};
use crate::streaming::transfer::{
    spec_decode_data, spec_decode_data_end, spec_decode_delete, spec_decode_mkdir,
    spec_decode_symlink, Data, DataEnd, DataEndView, DataView, Delete, DeleteView, Mkdir,
    MkdirView, Symlink, SymlinkView,
};
use crate::streaming::wire::{bytes_as_slice, bytes_contents, put_slice};

verus! {

/// Batch size for DEST_FILE_ENTRY frames (64KB): several encoded frames go out
/// in one write.
pub const DEST_ENTRY_BATCH_SIZE: usize = 64 * 1024;

/// Receiver configuration
pub struct ReceiverConfig {
    /// Root path for writing files
    pub root: PathBuf,
    /// Block size for checksums
    pub block_size: u32,
}

/// A message the receiver acts on, decoded.
#[derive(Debug)]
pub enum ReceivedMessage {
    FileEntry(FileEntry),
    Data(Data),
    DataEnd(DataEnd),
    Mkdir(Mkdir),
    Symlink(Symlink),
    Delete(Delete),
    FileEnd(FileEnd),
    DeleteEnd(DeleteEnd),
    /// A message type the receiver does not handle; its payload is not read.
    Ignored(MessageType),
}

/// Whether `r` is what decoding payload bytes `p` of type `msg_type` gives:
/// the message of that type, or the error its decoder reports; a type the
/// receiver does not handle gives `Ignored`.
pub open spec fn decoded_as(msg_type: MessageType, p: Seq<u8>, r: Result<ReceivedMessage, DecodeError>) -> bool {
    match msg_type {
        MessageType::FileEntry => match r {
            Ok(ReceivedMessage::FileEntry(m)) => spec_decode_file_entry(p) == Ok::<FileEntryView, DecodeError>(m@),
            Err(e) => spec_decode_file_entry(p) == Err::<FileEntryView, DecodeError>(e),
            _ => false,
        },
        MessageType::Data => match r {
            Ok(ReceivedMessage::Data(m)) => spec_decode_data(p) == Ok::<DataView, DecodeError>(m@),
            Err(e) => spec_decode_data(p) == Err::<DataView, DecodeError>(e),
            _ => false,
        },
        MessageType::DataEnd => match r {
            Ok(ReceivedMessage::DataEnd(m)) => spec_decode_data_end(p) == Ok::<DataEndView, DecodeError>(m@),
            Err(e) => spec_decode_data_end(p) == Err::<DataEndView, DecodeError>(e),
            _ => false,
        },
        MessageType::Mkdir => match r {
            Ok(ReceivedMessage::Mkdir(m)) => spec_decode_mkdir(p) == Ok::<MkdirView, DecodeError>(
                m@,
            ),
            Err(e) => spec_decode_mkdir(p) == Err::<MkdirView, DecodeError>(e),
            _ => false,
        },
        MessageType::Symlink => match r {
            Ok(ReceivedMessage::Symlink(m)) => spec_decode_symlink(p) == Ok::<SymlinkView, DecodeError>(m@),
            Err(e) => spec_decode_symlink(p) == Err::<SymlinkView, DecodeError>(e),
            _ => false,
        },
        MessageType::Delete => match r {
            Ok(ReceivedMessage::Delete(m)) => spec_decode_delete(p) == Ok::<DeleteView, DecodeError>(
                m@,
            ),
            Err(e) => spec_decode_delete(p) == Err::<DeleteView, DecodeError>(e),
            _ => false,
        },
        MessageType::FileEnd => match r {
            Ok(ReceivedMessage::FileEnd(m)) => spec_decode_file_end(p) == Ok::<FileEnd, DecodeError>(m),
            Err(e) => spec_decode_file_end(p) == Err::<FileEnd, DecodeError>(e),
            _ => false,
        },
        MessageType::DeleteEnd => match r {
            Ok(ReceivedMessage::DeleteEnd(m)) => spec_decode_delete_end(p) == Ok::<DeleteEnd, DecodeError>(m),
            Err(e) => spec_decode_delete_end(p) == Err::<DeleteEnd, DecodeError>(e),
            _ => false,
        },
        _ => r matches Ok(ReceivedMessage::Ignored(t)) && t == msg_type,
    }
}

/// Decodes an incoming payload according to its message type. Types the
/// receiver does not handle are passed over without reading the payload.
pub fn decode_received(msg_type: MessageType, payload: Bytes) -> (r: Result<
    ReceivedMessage,
    DecodeError,
>)
    ensures
        decoded_as(msg_type, bytes_contents(payload), r),
{
    match msg_type {
        MessageType::FileEntry => match FileEntry::decode(payload) {
            Ok(m) => Ok(ReceivedMessage::FileEntry(m)),
            Err(e) => Err(e),
        },
        MessageType::Data => match Data::decode(payload) {
            Ok(m) => Ok(ReceivedMessage::Data(m)),
            Err(e) => Err(e),
        },
        MessageType::DataEnd => match DataEnd::decode(payload) {
            Ok(m) => Ok(ReceivedMessage::DataEnd(m)),
            Err(e) => Err(e),
        },
        MessageType::Mkdir => match Mkdir::decode(payload) {
            Ok(m) => Ok(ReceivedMessage::Mkdir(m)),
            Err(e) => Err(e),
        },
        MessageType::Symlink => match Symlink::decode(payload) {
            Ok(m) => Ok(ReceivedMessage::Symlink(m)),
            Err(e) => Err(e),
        },
        MessageType::Delete => match Delete::decode(payload) {
            Ok(m) => Ok(ReceivedMessage::Delete(m)),
            Err(e) => Err(e),
        },
        MessageType::FileEnd => match FileEnd::decode(payload) {
            Ok(m) => Ok(ReceivedMessage::FileEnd(m)),
            Err(e) => Err(e),
        },
        MessageType::DeleteEnd => match DeleteEnd::decode(payload) {
            Ok(m) => Ok(ReceivedMessage::DeleteEnd(m)),
            Err(e) => Err(e),
        },
        other => Ok(ReceivedMessage::Ignored(other)),
    }
}

// =============================================================================
// Initial exchange: destination entries
// =============================================================================

/// A destination file is offered for delta transfer when it is a regular file
/// larger than `DELTA_MIN_SIZE` bytes.
pub open spec fn spec_is_delta_candidate(is_dir: bool, size: u64) -> bool {
    !is_dir && size > DELTA_MIN_SIZE
}

pub fn is_delta_candidate(is_dir: bool, size: u64) -> (r: bool)
    ensures
        r == spec_is_delta_candidate(is_dir, size),
{
    !is_dir && size > DELTA_MIN_SIZE
}

/// The mode announced for a destination entry: 0o755 for directories, 0o644
/// for files.
pub fn dest_mode(is_dir: bool) -> (r: u32)
    ensures
        r == if is_dir {
            0o755u32
        } else {
            0o644u32
        },
{
    if is_dir {
        0o755
    } else {
        0o644
    }
}

impl ReceiverConfig {
    pub fn new(root: PathBuf, block_size: u32) -> (r: Self)
        ensures
            r.root == root,
            r.block_size == block_size,
    {
        ReceiverConfig { root, block_size }
    }

    /// The DEST_FILE_ENTRY announced for one destination entry. `checksums`
    /// holds the block checksums of a delta candidate; with them the entry
    /// carries HAS_CHECKSUMS and the configured block size, without them block
    /// size 0 and no checksums. Directories carry the DIR flag.
    pub fn dest_entry(
        &self,
        path: String,
        size: u64,
        mtime: i64,
        is_dir: bool,
        checksums: Option<Vec<BlockChecksum>>,
    ) -> (r: DestFileEntry)
        ensures
            r@ == (DestFileEntryView {
                path: path@,
                size,
                mtime,
                mode: if is_dir {
                    0o755u32
                } else {
                    0o644u32
                },
                flags: (if is_dir {
                    1u8
                } else {
                    0u8
                }) | (if checksums is Some {
                    2u8
                } else {
                    0u8
                }),
                block_size: if checksums is Some {
                    self.block_size
                } else {
                    0
                },
                checksums: match checksums {
                    Some(c) => c@,
                    None => Seq::empty(),
                },
            }),
    {
        let mut flags = DestFileFlags::empty();
        if is_dir {
            flags = flags.union(DestFileFlags::dir());
        }
        let mode = dest_mode(is_dir);
        let ghost has = checksums is Some;
        let (block_size, cs) = match checksums {
            Some(c) => {
                flags = flags.union(DestFileFlags::has_checksums());
                (self.block_size, c)
            },
            None => (0, Vec::new()),
        };
        proof {
            let d: u8 = if is_dir { 1 } else { 0 };
            let h: u8 = if has { 2 } else { 0 };
            assert((0u8 | 1u8) == 1u8) by (bit_vector);
            assert(d | 0u8 == d) by (bit_vector);
            assert((0u8 | 2u8) == 2u8) by (bit_vector);
            assert(((0u8 | 1u8) | 2u8) == 3u8) by (bit_vector);
            assert(1u8 | 2u8 == 3u8) by (bit_vector);
            assert(0u8 | 0u8 == 0u8) by (bit_vector);
        }
        DestFileEntry { path, size, mtime, mode, flags, block_size, checksums: cs }
    }
}

/// Gathers encoded DEST_FILE_ENTRY frames and hands them out once at least
/// `DEST_ENTRY_BATCH_SIZE` bytes are together.
pub struct EntryBatch {
    buf: Vec<u8>,
}

impl View for EntryBatch {
    type V = Seq<u8>;

    closed spec fn view(&self) -> Seq<u8> {
        self.buf@
    }
}

impl EntryBatch {
    pub fn new() -> (r: Self)
        ensures
            r@ == Seq::<u8>::empty(),
    {
        EntryBatch { buf: Vec::with_capacity(DEST_ENTRY_BATCH_SIZE) }
    }

    /// Adds one encoded frame; returns the batch when it has reached the
    /// threshold, and starts a new one.
    pub fn push(&mut self, frame: &[u8]) -> (r: Option<Vec<u8>>)
        ensures
            ({
                let joined = old(self)@ + frame@;
                if joined.len() >= DEST_ENTRY_BATCH_SIZE {
                    &&& r matches Some(b) && b@ == joined
                    &&& final(self)@ == Seq::<u8>::empty()
                } else {
                    &&& r is None
                    &&& final(self)@ == joined
                }
            }),
    {
        put_slice(&mut self.buf, frame);
        if self.buf.len() >= DEST_ENTRY_BATCH_SIZE {
            let mut out: Vec<u8> = Vec::with_capacity(DEST_ENTRY_BATCH_SIZE);
            std::mem::swap(&mut self.buf, &mut out);
            Some(out)
        } else {
            None
        }
    }

    /// What is left once every entry has been pushed.
    pub fn finish(self) -> (r: Option<Vec<u8>>)
        ensures
            self@.len() > 0 ==> (r matches Some(b) && b@ == self@),
            self@.len() == 0 ==> r is None,
    {
        if self.buf.len() > 0 {
            Some(self.buf)
        } else {
            None
        }
    }
}

// =============================================================================
// Files in progress and statistics
// =============================================================================

/// What the receiver keeps of a file whose data is arriving.
#[derive(Debug, Clone, Copy, PartialEq, Eq, Structural)]
pub struct PendingFile {
    /// Mode to set once the file is complete
    pub mode: u32,
    /// Modification time to set once the file is complete
    pub mtime: i64,
    /// Bytes of data received so far
    pub bytes_written: u64,
}

/// Why a message could not be applied to the receiver's bookkeeping.
#[derive(Debug)]
pub enum ReceiveError {
    /// Data arrived for a path that has no file in progress.
    NoPendingFile(String),
}

/// The receiver's bookkeeping: the files in progress, by path, and the
/// statistics so far. Opening, writing and renaming the files is the
/// caller's work; these methods say what each message does to the books.
pub struct ReceiverState {
    pending: PathTable<PendingFile>,
    stats: SyncStats,
}

/// The files in progress and the statistics.
pub struct ReceiverView {
    pub pending: Map<Seq<char>, PendingFile>,
    pub stats: SyncStats,
}

impl View for ReceiverState {
    type V = ReceiverView;

    closed spec fn view(&self) -> ReceiverView {
        ReceiverView { pending: self.pending@, stats: self.stats }
    }
}

/// A FILE_ENTRY opens (or reopens) the file at `path` with nothing written.
pub open spec fn spec_begin_file(s: ReceiverView, path: Seq<char>, mode: u32, mtime: i64) -> ReceiverView {
    ReceiverView {
        pending: s.pending.insert(path, PendingFile { mode, mtime, bytes_written: 0 }),
        stats: s.stats,
    }
}

/// A DATA chunk of `len` bytes for a file in progress adds to its count.
pub open spec fn spec_data(s: ReceiverView, path: Seq<char>, len: u64) -> ReceiverView {
    let p = s.pending[path];
    ReceiverView {
        pending: s.pending.insert(
            path,
            PendingFile { mode: p.mode, mtime: p.mtime, bytes_written: (p.bytes_written + len) as u64 },
        ),
        stats: s.stats,
    }
}

/// DATA chunks of the given lengths, in order, for one file in progress.
pub open spec fn spec_data_all(s: ReceiverView, path: Seq<char>, lens: Seq<u64>) -> ReceiverView
    decreases lens.len(),
{
    if lens.len() == 0 {
        s
    } else {
        spec_data(spec_data_all(s, path, lens.drop_last()), path, lens.last())
    }
}

/// The sum of the lengths.
pub open spec fn sum_lens(lens: Seq<u64>) -> int
    decreases lens.len(),
{
    if lens.len() == 0 {
        0
    } else {
        sum_lens(lens.drop_last()) + lens.last()
    }
}

/// A file completed: one more file counted, its bytes added.
pub open spec fn spec_file_done(st: SyncStats, p: PendingFile) -> SyncStats {
    SyncStats {
        files_ok: (st.files_ok + 1) as u64,
        bytes_transferred: (st.bytes_transferred + p.bytes_written) as u64,
        ..st
    }
}

impl ReceiverState {
    pub fn new() -> (r: Self)
        ensures
            r@.pending == Map::<Seq<char>, PendingFile>::empty(),
            r@.stats.is_zero(),
    {
        ReceiverState { pending: PathTable::new(), stats: SyncStats::new() }
    }

    /// The statistics so far.
    pub fn stats(&self) -> (r: &SyncStats)
        ensures
            *r == self@.stats,
    {
        &self.stats
    }

    /// The file in progress at `path`, if any.
    pub fn pending(&self, path: &str) -> (r: Option<PendingFile>)
        ensures
            r is Some <==> self@.pending.contains_key(path@),
            r matches Some(p) ==> p == self@.pending[path@],
    {
        match self.pending.get(path) {
            Some(p) => Some(*p),
            None => None,
        }
    }

    /// FILE_ENTRY: the file at `path` is in progress, with nothing written; a
    /// file in progress at the same path is replaced.
    pub fn begin_file(&mut self, path: String, mode: u32, mtime: i64)
        ensures
            final(self)@ == spec_begin_file(old(self)@, path@, mode, mtime),
    {
        self.pending.insert(path, PendingFile { mode, mtime, bytes_written: 0 });
    }

    /// DATA: `len` more bytes for the file at `path`. Data for a path with no
    /// file in progress is refused and changes nothing.
    pub fn record_data(&mut self, path: &str, len: u64) -> (r: Result<(), ReceiveError>)
        requires
            old(self)@.pending.contains_key(path@) ==> old(self)@.pending[path@].bytes_written + len
                <= u64::MAX,
        ensures
            r is Ok <==> old(self)@.pending.contains_key(path@),
            r is Ok ==> final(self)@ == spec_data(old(self)@, path@, len),
            r matches Err(ReceiveError::NoPendingFile(p)) ==> p@ == path@ && final(self)@ == old(
                self,
            )@,
    {
        match self.pending.get(path) {
            Some(p) => {
                let updated = PendingFile {
                    mode: p.mode,
                    mtime: p.mtime,
                    bytes_written: p.bytes_written + len,
                };
                self.pending.insert(path.to_owned(), updated);
                Ok(())
            },
            None => Err(ReceiveError::NoPendingFile(path.to_owned())),
        }
    }

    /// DATA_END: the file at `path` is no longer in progress; returns what
    /// was kept of it. The statistics are counted by the caller once the
    /// file is in place (`record_file_done`) or refused (`record_file_failed`).
    pub fn take_pending(&mut self, path: &str) -> (r: Option<PendingFile>)
        ensures
            r is Some <==> old(self)@.pending.contains_key(path@),
            r matches Some(p) ==> p == old(self)@.pending[path@],
            final(self)@.pending == old(self)@.pending.remove(path@),
            final(self)@.stats == old(self)@.stats,
    {
        self.pending.remove(path)
    }

    /// A file is in place: counted, with its bytes.
    pub fn record_file_done(&mut self, done: &PendingFile)
        requires
            old(self)@.stats.files_ok < u64::MAX,
            old(self)@.stats.bytes_transferred + done.bytes_written <= u64::MAX,
        ensures
            final(self)@.pending == old(self)@.pending,
            final(self)@.stats == spec_file_done(old(self)@.stats, *done),
    {
        self.stats.files_ok = self.stats.files_ok + 1;
        self.stats.bytes_transferred = self.stats.bytes_transferred + done.bytes_written;
    }

    /// DATA_END for a file taken out of progress: with status OK (and the
    /// file in place) it is counted done with its bytes, with any other status
    /// it is counted failed.
    pub fn record_data_end(&mut self, done: &PendingFile, status: u8)
        requires
            status == DataEnd::STATUS_OK ==> old(self)@.stats.files_ok < u64::MAX,
            status == DataEnd::STATUS_OK ==> old(self)@.stats.bytes_transferred + done.bytes_written
                <= u64::MAX,
            status != DataEnd::STATUS_OK ==> old(self)@.stats.files_err < u64::MAX,
        ensures
            final(self)@.pending == old(self)@.pending,
            status == DataEnd::STATUS_OK ==> final(self)@.stats == spec_file_done(old(self)@.stats, *done),
            status != DataEnd::STATUS_OK ==> final(self)@.stats == (SyncStats {
                files_err: (old(self)@.stats.files_err + 1) as u64,
                ..old(self)@.stats
            }),
    {
        if status == DataEnd::STATUS_OK {
            self.record_file_done(done);
        } else {
            self.record_file_failed();
        }
    }

    /// A file ended with an error status.
    pub fn record_file_failed(&mut self)
        requires
            old(self)@.stats.files_err < u64::MAX,
        ensures
            final(self)@.pending == old(self)@.pending,
            final(self)@.stats == (SyncStats { files_err: (old(self)@.stats.files_err + 1) as u64, ..old(self)@.stats }),
    {
        self.stats.files_err = self.stats.files_err + 1;
    }

    /// A directory was created.
    pub fn record_dir_created(&mut self)
        requires
            old(self)@.stats.dirs_created < u64::MAX,
        ensures
            final(self)@.pending == old(self)@.pending,
            final(self)@.stats == (SyncStats { dirs_created: (old(self)@.stats.dirs_created + 1) as u64, ..old(self)@.stats }),
    {
        self.stats.dirs_created = self.stats.dirs_created + 1;
    }

    /// A symlink was created.
    pub fn record_symlink_created(&mut self)
        requires
            old(self)@.stats.symlinks_created < u64::MAX,
        ensures
            final(self)@.pending == old(self)@.pending,
            final(self)@.stats == (SyncStats {
                symlinks_created: (old(self)@.stats.symlinks_created + 1) as u64,
                ..old(self)@.stats
            }),
    {
        self.stats.symlinks_created = self.stats.symlinks_created + 1;
    }

    /// A file or directory was deleted.
    pub fn record_deleted(&mut self)
        requires
            old(self)@.stats.deleted < u64::MAX,
        ensures
            final(self)@.pending == old(self)@.pending,
            final(self)@.stats == (SyncStats { deleted: (old(self)@.stats.deleted + 1) as u64, ..old(self)@.stats }),
    {
        self.stats.deleted = self.stats.deleted + 1;
    }
}

/// The bytes counted for a file are the sum of the DATA chunks received for
/// it since its FILE_ENTRY, whatever else is in progress; the other files in
/// progress are untouched.
pub proof fn lemma_file_bytes_are_data_sum(
    s: ReceiverView,
    path: Seq<char>,
    mode: u32,
    mtime: i64,
    lens: Seq<u64>,
)
    requires
        sum_lens(lens) <= u64::MAX,
    ensures
        ({
            let t = spec_data_all(spec_begin_file(s, path, mode, mtime), path, lens);
            &&& t.pending.contains_key(path)
            &&& t.pending[path] == (PendingFile { mode, mtime, bytes_written: sum_lens(lens) as u64 })
            &&& forall|k: Seq<char>| k != path ==> (#[trigger] t.pending.contains_key(k) <==> s.pending.contains_key(k))
            &&& forall|k: Seq<char>| k != path && s.pending.contains_key(k) ==> #[trigger] t.pending[k] == s.pending[k]
            &&& t.stats == s.stats
        }),
    decreases lens.len(),
{
    let b = spec_begin_file(s, path, mode, mtime);
    if lens.len() > 0 {
        let pre = lens.drop_last();
        lemma_sum_lens_prefix(lens);
        lemma_sum_lens_nonneg(pre);
        lemma_file_bytes_are_data_sum(s, path, mode, mtime, pre);
        let t0 = spec_data_all(b, path, pre);
        assert(spec_data_all(b, path, lens) == spec_data(t0, path, lens.last()));
        assert(sum_lens(lens) == sum_lens(pre) + lens.last());
    } else {
        assert(spec_data_all(b, path, lens) == b);
    }
}

proof fn lemma_sum_lens_prefix(lens: Seq<u64>)
    requires
        lens.len() > 0,
    ensures
        sum_lens(lens.drop_last()) <= sum_lens(lens),
{
    lemma_sum_lens_nonneg(lens.drop_last());
}

proof fn lemma_sum_lens_nonneg(lens: Seq<u64>)
    ensures
        sum_lens(lens) >= 0,
    decreases lens.len(),
{
    if lens.len() > 0 {
        lemma_sum_lens_nonneg(lens.drop_last());
    }
}

/// Completing a file adds exactly the bytes received for it to the
/// transferred total, and one to the completed files.
pub proof fn lemma_completed_file_counts_its_data(
    s: ReceiverView,
    path: Seq<char>,
    mode: u32,
    mtime: i64,
    lens: Seq<u64>,
)
    requires
        sum_lens(lens) <= u64::MAX,
        s.stats.files_ok < u64::MAX,
        s.stats.bytes_transferred + sum_lens(lens) <= u64::MAX,
    ensures
        ({
            let t = spec_data_all(spec_begin_file(s, path, mode, mtime), path, lens);
            let done = spec_file_done(t.stats, t.pending[path]);
            &&& done.files_ok == s.stats.files_ok + 1
            &&& done.bytes_transferred == s.stats.bytes_transferred + sum_lens(lens)
            &&& done.files_err == s.stats.files_err
        }),
{
    lemma_sum_lens_nonneg(lens);
    lemma_file_bytes_are_data_sum(s, path, mode, mtime, lens);
}

/// The destination's side of the initial exchange: each entry goes out in a
/// batch of DEST_FILE_ENTRY frames and is counted, and DEST_FILE_END closes
/// the exchange with the counts. The root itself (an empty path) is not
/// announced.
pub struct DestAnnouncer {
    batch: EntryBatch,
    total_files: u64,
    total_bytes: u64,
}

/// The bytes waiting in the batch, the entries announced and their bytes.
pub struct DestAnnouncerView {
    pub pending: Seq<u8>,
    pub total_files: u64,
    pub total_bytes: u64,
}

impl View for DestAnnouncer {
    type V = DestAnnouncerView;

    closed spec fn view(&self) -> DestAnnouncerView {
        DestAnnouncerView { pending: self.batch@, total_files: self.total_files, total_bytes: self.total_bytes }
    }
}

impl DestAnnouncer {
    pub fn new() -> (r: Self)
        ensures
            r@.pending == Seq::<u8>::empty(),
            r@.total_files == 0,
            r@.total_bytes == 0,
    {
        DestAnnouncer { batch: EntryBatch::new(), total_files: 0, total_bytes: 0 }
    }

    /// The entries announced so far and their bytes.
    pub fn totals(&self) -> (r: (u64, u64))
        ensures
            r == (self@.total_files, self@.total_bytes),
    {
        (self.total_files, self.total_bytes)
    }

    /// Announces one destination entry; returns a batch of frames when one is
    /// full. An entry with an empty path (the root) is passed over.
    pub fn announce(&mut self, entry: &DestFileEntry) -> (r: Option<Vec<u8>>)
        requires
            entry.path@.len() > 0 ==> old(self)@.total_files < u64::MAX,
            entry.path@.len() > 0 ==> old(self)@.total_bytes + entry.size <= u64::MAX,
        ensures
            entry.path@.len() == 0 ==> r is None && final(self)@ == old(self)@,
            entry.path@.len() > 0 ==> {
                let joined = old(self)@.pending + frame(
                    MessageType::DestFileEntry,
                    dest_file_entry_payload(entry@),
                );
                &&& final(self)@.total_files == old(self)@.total_files + 1
                &&& final(self)@.total_bytes == old(self)@.total_bytes + entry.size
                &&& if joined.len() >= DEST_ENTRY_BATCH_SIZE {
                    &&& r matches Some(b) && b@ == joined
                    &&& final(self)@.pending == Seq::<u8>::empty()
                } else {
                    &&& r is None
                    &&& final(self)@.pending == joined
                }
            },
    {
        if entry.path.as_str().unicode_len() == 0 {
            return None;
        }
        let f = entry.encode();
        let out = self.batch.push(bytes_as_slice(&f));
        self.total_files = self.total_files + 1;
        self.total_bytes = self.total_bytes + entry.size;
        out
    }

    /// The frames still waiting, if any, and the DEST_FILE_END frame with
    /// the counts.
    pub fn finish(self) -> (r: (Option<Vec<u8>>, Bytes))
        ensures
            self@.pending.len() > 0 ==> (r.0 matches Some(b) && b@ == self@.pending),
            self@.pending.len() == 0 ==> r.0 is None,
            bytes_contents(r.1) == frame(
                MessageType::DestFileEnd,
                dest_file_end_payload(
                    DestFileEnd { total_files: self@.total_files, total_bytes: self@.total_bytes },
                ),
            ),
    {
        let end = DestFileEnd { total_files: self.total_files, total_bytes: self.total_bytes };
        (self.batch.finish(), end.encode())
    }
}

} // verus!
