//! Values passed along the Generator -> Sender -> Receiver pipeline, the
//! destination index built during the initial exchange, and transfer
//! statistics.

use vstd::prelude::*;
use bytes::Bytes;
use crate::streaming::entries::BlockChecksum;
use crate::streaming::table::{PathTable, keys_unique};

pub use crate::delta::ops::DELTA_CHUNK_SIZE;

verus! {

/// Channel size for Generator -> Sender (file entries)
pub const GENERATOR_CHANNEL_SIZE: usize = 1024;

/// Channel size for Sender -> Receiver (data chunks)
pub const SENDER_CHANNEL_SIZE: usize = 64;

/// Data chunk size for transfer (256KB)
pub const DATA_CHUNK_SIZE: usize = 256 * 1024;

/// Minimum file size for delta sync (64KB)
pub const DELTA_MIN_SIZE: u64 = 64 * 1024;

// =============================================================================
// FileJob: Generator -> Sender
// =============================================================================

/// Delta information from destination file
#[derive(Debug, Clone)]
pub struct DeltaInfo {
    /// Block size used for checksums
    pub block_size: u32,
    /// Destination file size (needed to calculate last block size)
    pub file_size: u64,
    /// Block checksums
    pub checksums: Vec<BlockChecksum>,
}

/// A file job sent from Generator to Sender: everything needed to read and
/// transfer one file.
#[derive(Debug, Clone)]
pub struct FileJob {
    /// Path relative to sync root
    pub path: String,
    /// File size in bytes
    pub size: u64,
    /// Modification time (Unix timestamp)
    pub mtime: i64,
    /// File mode/permissions
    pub mode: u32,
    /// Inode number (for hard link detection)
    pub inode: u64,
    /// Whether this file needs delta transfer
    pub need_delta: bool,
    /// Block checksums from destination, when the file exists there
    pub checksums: Option<DeltaInfo>,
}

// =============================================================================
// DataChunk: Sender -> wire
// =============================================================================

/// A chunk of file data ready for transmission.
#[derive(Debug)]
pub struct DataChunk {
    /// Path relative to sync root
    pub path: String,
    /// Offset within file
    pub offset: u64,
    /// Data content
    pub data: Bytes,
    /// Whether this is the final chunk for this file
    pub is_final: bool,
    /// Whether this is delta data
    pub is_delta: bool,
    /// Whether the data is compressed
    pub is_compressed: bool,
}

// =============================================================================
// Pipeline messages
// =============================================================================

/// Message from Generator to the rest of the pipeline
#[derive(Debug)]
pub enum GeneratorMessage {
    /// A file that needs to be transferred
    File(FileJob),
    /// A directory that needs to be created
    Mkdir { path: String, mode: u32 },
    /// A symlink that needs to be created
    Symlink { path: String, target: String },
    /// A file or directory that needs to be deleted
    Delete { path: String, is_dir: bool },
    /// End of file list - no more files coming
    FileEnd { total_files: u64, total_bytes: u64 },
    /// End of deletes
    DeleteEnd { count: u64 },
}

/// Sync direction
#[derive(Debug, Clone, Copy, PartialEq, Eq, Structural)]
pub enum SyncDirection {
    /// Local -> Remote (push)
    Push,
    /// Remote -> Local (pull)
    Pull,
}

// =============================================================================
// Destination state (from Initial Exchange)
// =============================================================================

/// State of a destination file, received during Initial Exchange
#[derive(Debug, Clone)]
pub struct DestFileState {
    /// File size
    pub size: u64,
    /// Modification time
    pub mtime: i64,
    /// File mode
    pub mode: u32,
    /// Whether this is a directory
    pub is_dir: bool,
    /// Block checksums for delta (if file is a delta candidate)
    pub delta_info: Option<DeltaInfo>,
}

/// Destination file index, built during Initial Exchange: at most one state
/// per path.
#[derive(Debug)]
pub struct DestIndex {
    files: PathTable<DestFileState>,
}

impl View for DestIndex {
    type V = Map<Seq<char>, DestFileState>;

    closed spec fn view(&self) -> Map<Seq<char>, DestFileState> {
        self.files@
    }
}

impl DestIndex {
    pub fn new() -> (r: Self)
        ensures
            r@ == Map::<Seq<char>, DestFileState>::empty(),
    {
        DestIndex { files: PathTable::new() }
    }

    pub fn insert(&mut self, path: String, state: DestFileState)
        ensures
            final(self)@ == old(self)@.insert(path@, state),
    {
        self.files.insert(path, state);
    }

    pub fn get(&self, path: &str) -> (r: Option<&DestFileState>)
        ensures
            r is Some <==> self@.contains_key(path@),
            r matches Some(v) ==> *v == self@[path@],
    {
        self.files.get(path)
    }

    pub fn remove(&mut self, path: &str) -> (r: Option<DestFileState>)
        ensures
            final(self)@ == old(self)@.remove(path@),
            r is Some <==> old(self)@.contains_key(path@),
            r matches Some(v) ==> v == old(self)@[path@],
    {
        self.files.remove(path)
    }

    pub fn contains(&self, path: &str) -> (r: bool)
        ensures
            r == self@.contains_key(path@),
    {
        self.files.contains(path)
    }

    /// Every path with its state, each once (for delete detection).
    pub fn remaining_paths(&self) -> (r: &[(String, DestFileState)])
        ensures
            self@.dom().finite(),
            r@.len() == self@.dom().len(),
            keys_unique(r@),
            forall|i: int| 0 <= i < r@.len() ==> self@.contains_key(#[trigger] r@[i].0@) && self@[r@[i].0@]
                == r@[i].1,
            forall|k: Seq<char>| #[trigger] self@.contains_key(k) ==> exists|i: int|
                0 <= i < r@.len() && r@[i].0@ == k,
    {
        self.files.as_slice()
    }

    /// The number of paths held.
    pub fn len(&self) -> (r: usize)
        ensures
            self@.dom().finite(),
            r == self@.dom().len(),
    {
        self.files.len()
    }

    pub fn is_empty(&self) -> (r: bool)
        ensures
            r == (self@ == Map::<Seq<char>, DestFileState>::empty()),
    {
        self.files.is_empty()
    }
}

/// The index with each of `paths` removed, in order.
pub open spec fn remove_all(m: Map<Seq<char>, DestFileState>, paths: Seq<Seq<char>>) -> Map<
    Seq<char>,
    DestFileState,
>
    decreases paths.len(),
{
    if paths.len() == 0 {
        m
    } else {
        remove_all(m, paths.drop_last()).remove(paths.last())
    }
}

/// Delete detection: once every source path has been removed from the
/// destination index, what remains is exactly the destination paths that are
/// not in the source, each with its state.
pub proof fn lemma_remaining_are_absent_from_source(m: Map<Seq<char>, DestFileState>, paths: Seq<Seq<char>>)
    ensures
        forall|k: Seq<char>| #[trigger] remove_all(m, paths).contains_key(k) <==> m.contains_key(k)
            && !paths.contains(k),
        forall|k: Seq<char>| #[trigger] remove_all(m, paths).contains_key(k) ==> remove_all(m, paths)[k]
            == m[k],
    decreases paths.len(),
{
    if paths.len() > 0 {
        let init = paths.drop_last();
        lemma_remaining_are_absent_from_source(m, init);
        assert forall|k: Seq<char>| #[trigger] paths.contains(k) <==> init.contains(k) || k == paths.last() by {
            if paths.contains(k) {
                let i = choose|i: int| 0 <= i < paths.len() && paths[i] == k;
                if i < paths.len() - 1 {
                    assert(init[i] == k);
                }
            }
            if init.contains(k) {
                let i = choose|i: int| 0 <= i < init.len() && init[i] == k;
                assert(paths[i] == k);
            }
            if k == paths.last() {
                assert(paths[paths.len() - 1] == k);
            }
        }
        let r = remove_all(m, paths);
        let r0 = remove_all(m, init);
        assert(r == r0.remove(paths.last()));
        assert forall|k: Seq<char>| #[trigger] r.contains_key(k) <==> m.contains_key(k) && !paths.contains(k) by {
            assert(r0.contains_key(k) <==> m.contains_key(k) && !init.contains(k));
            assert(paths.contains(k) <==> init.contains(k) || k == paths.last());
        }
        assert forall|k: Seq<char>| #[trigger] r.contains_key(k) implies r[k] == m[k] by {
            assert(r0.contains_key(k));
        }
    }
}

// =============================================================================
// Sync statistics
// =============================================================================

/// Statistics for a sync operation
#[derive(Debug, Clone, Copy)]
pub struct SyncStats {
    /// Files successfully transferred
    pub files_ok: u64,
    /// Files that failed
    pub files_err: u64,
    /// Total bytes transferred
    pub bytes_transferred: u64,
    /// Files transferred via delta
    pub delta_files: u64,
    /// Bytes saved by delta transfer
    pub delta_bytes_saved: u64,
    /// Directories created
    pub dirs_created: u64,
    /// Symlinks created
    pub symlinks_created: u64,
    /// Files/directories deleted
    pub deleted: u64,
    /// Hard links created
    pub hardlinks_created: u64,
}

impl SyncStats {
    pub open spec fn is_zero(self) -> bool {
        &&& self.files_ok == 0
        &&& self.files_err == 0
        &&& self.bytes_transferred == 0
        &&& self.delta_files == 0
        &&& self.delta_bytes_saved == 0
        &&& self.dirs_created == 0
        &&& self.symlinks_created == 0
        &&& self.deleted == 0
        &&& self.hardlinks_created == 0
    }

    pub fn new() -> (r: Self)
        ensures
            r.is_zero(),
    {
        SyncStats {
            files_ok: 0,
            files_err: 0,
            bytes_transferred: 0,
            delta_files: 0,
            delta_bytes_saved: 0,
            dirs_created: 0,
            symlinks_created: 0,
            deleted: 0,
            hardlinks_created: 0,
        }
    }
}

impl Default for SyncStats {
    fn default() -> (r: Self)
        ensures
            r.is_zero(),
    {
        SyncStats::new()
    }
}

} // verus!
