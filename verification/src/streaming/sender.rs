//! The sender's decisions: which frames a generator message turns into, the
//! frames of a file transfer, and the checksums handed to the delta engine.
//! Reading the files and running the loop is left to the caller.

use vstd::prelude::*;
use bytes::Bytes;
use std::path::PathBuf;
use crate::delta;
use crate::streaming::channel::{DeltaInfo, FileJob, GeneratorMessage};
use crate::streaming::entries::{file_entry_payload, FileEntry, FileEntryView};
use crate::streaming::messages::{
    delete_end_payload, file_end_payload, frame, DeleteEnd, FileEnd,
};
use crate::streaming::protocol::{DataFlags, FileFlags, MessageType};
use crate::streaming::transfer::{
    data_end_payload, data_payload, delete_payload, spec_data_content, mkdir_payload, symlink_payload, Data, DataEnd,
    DataEndView, DataView, Delete, DeleteView, Mkdir, MkdirView, Symlink, SymlinkView,
};
use crate::streaming::wire::{bytes_contents, bytes_from_vec};
use crate::streaming::compress::{zstd_compress, zstd_compressed, zstd_decoded};

verus! {

/// Sender configuration
pub struct SenderConfig {
    /// Root path for reading files
    pub root: PathBuf,
    /// Whether to compress data (zstd; DATA frames then carry COMPRESSED)
    pub compress: bool,
}

/// Sender state
pub struct Sender {
    config: SenderConfig,
}

/// The size of block `i` of `n` destination blocks: the block size, except
/// that the last block holds only what is left of the file.
pub open spec fn engine_block_size(info_file_size: u64, block_size: u32, offset: u64, i: int, n: int) -> usize {
    if i == n - 1 {
        let remaining = if info_file_size >= offset { info_file_size - offset } else { 0 };
        (if remaining < block_size { remaining } else { block_size as int }) as usize
    } else {
        block_size as usize
    }
}

/// Every block but the last has the full block size. The last holds
/// min(file_size - offset, block_size) bytes: none when it starts at or past
/// the end of the file, the full block size when the file reaches its end,
/// and exactly what is left of the file otherwise; so a last block that
/// starts inside the file is never empty.
pub proof fn lemma_engine_block_sizes(file_size: u64, block_size: u32, offset: u64, i: int, n: int)
    requires
        0 <= i < n,
    ensures
        i < n - 1 ==> engine_block_size(file_size, block_size, offset, i, n) == block_size,
        i == n - 1 ==> {
            let size = engine_block_size(file_size, block_size, offset, i, n) as int;
            &&& size <= block_size
            &&& offset >= file_size ==> size == 0
            &&& offset < file_size && block_size > 0 ==> size > 0
            &&& offset + block_size <= file_size ==> size == block_size
            &&& offset <= file_size && file_size - offset <= block_size ==> size == file_size - offset
        },
{
}

impl Sender {
    pub closed spec fn spec_compress(&self) -> bool {
        self.config.compress
    }

    /// The root the sender reads files under.
    pub closed spec fn spec_root(&self) -> PathBuf {
        self.config.root
    }

    pub fn new(config: SenderConfig) -> (r: Self)
        ensures
            r.spec_compress() == config.compress,
            r.spec_root() == config.root,
    {
        Sender { config }
    }

    /// Root path for reading files
    pub fn root(&self) -> (r: &PathBuf)
        ensures
            *r == self.spec_root(),
    {
        &self.config.root
    }

    pub fn compress(&self) -> (r: bool)
        ensures
            r == self.spec_compress(),
    {
        self.config.compress
    }

    /// The frame a generator message is sent as; `None` for a file, whose
    /// transfer takes several frames.
    pub fn message_frame(&self, msg: &GeneratorMessage) -> (r: Option<Bytes>)
        ensures
            match msg {
                GeneratorMessage::File(_) => r is None,
                GeneratorMessage::Mkdir { path, mode } => r matches Some(b) && bytes_contents(b)
                    == frame(MessageType::Mkdir, mkdir_payload(MkdirView { path: path@, mode: *mode })),
                GeneratorMessage::Symlink { path, target } => r matches Some(b) && bytes_contents(b)
                    == frame(
                    MessageType::Symlink,
                    symlink_payload(SymlinkView { path: path@, target: target@ }),
                ),
                GeneratorMessage::Delete { path, is_dir } => r matches Some(b) && bytes_contents(b)
                    == frame(
                    MessageType::Delete,
                    delete_payload(DeleteView { path: path@, is_dir: *is_dir }),
                ),
                GeneratorMessage::FileEnd { total_files, total_bytes } => r matches Some(b)
                    && bytes_contents(b) == frame(
                    MessageType::FileEnd,
                    file_end_payload(FileEnd { total_files: *total_files, total_bytes: *total_bytes }),
                ),
                GeneratorMessage::DeleteEnd { count } => r matches Some(b) && bytes_contents(b)
                    == frame(MessageType::DeleteEnd, delete_end_payload(DeleteEnd { count: *count })),
            },
    {
        match msg {
            GeneratorMessage::File(_) => None,
            GeneratorMessage::Mkdir { path, mode } => {
                let m = Mkdir { path: path.clone(), mode: *mode };
                Some(m.encode())
            },
            GeneratorMessage::Symlink { path, target } => {
                let m = Symlink { path: path.clone(), target: target.clone() };
                Some(m.encode())
            },
            GeneratorMessage::Delete { path, is_dir } => {
                let m = Delete { path: path.clone(), is_dir: *is_dir };
                Some(m.encode())
            },
            GeneratorMessage::FileEnd { total_files, total_bytes } => {
                let m = FileEnd { total_files: *total_files, total_bytes: *total_bytes };
                Some(m.encode())
            },
            GeneratorMessage::DeleteEnd { count } => {
                let m = DeleteEnd { count: *count };
                Some(m.encode())
            },
        }
    }

    /// The FILE_ENTRY frame that opens a file's transfer: the job's metadata,
    /// no flags and no link targets.
    pub fn file_entry_frame(&self, job: &FileJob) -> (r: Bytes)
        ensures
            bytes_contents(r) == frame(
                MessageType::FileEntry,
                file_entry_payload(
                    FileEntryView {
                        path: job.path@,
                        size: job.size,
                        mtime: job.mtime,
                        mode: job.mode,
                        inode: job.inode,
                        flags: 0,
                        symlink_target: None,
                        link_target: None,
                    },
                ),
            ),
    {
        let entry = FileEntry {
            path: job.path.clone(),
            size: job.size,
            mtime: job.mtime,
            mode: job.mode,
            inode: job.inode,
            flags: FileFlags::empty(),
            symlink_target: None,
            link_target: None,
        };
        entry.encode()
    }

    /// The destination checksums to delta against: present only when the job
    /// asks for a delta and the destination sent checksums; otherwise the file
    /// goes in full.
    pub fn delta_source(job: &FileJob) -> (r: Option<&DeltaInfo>)
        ensures
            r is Some <==> job.need_delta && job.checksums is Some,
            r matches Some(d) ==> job.checksums == Some(*d),
    {
        if job.need_delta {
            match &job.checksums {
                Some(d) => Some(d),
                None => None,
            }
        } else {
            None
        }
    }

    /// One DATA frame of a full transfer: `chunk` at `offset` of the file.
    /// With compression on, the chunk goes through the compressor and the
    /// frame is built from what it returns (see `data_frame_of`): the zstd
    /// frame with COMPRESSED, or, should the compressor fail, the chunk as it
    /// is. Either way the receiver gets the chunk back.
    pub fn full_data_frame(&self, path: &String, offset: u64, chunk: &[u8]) -> (r: Bytes)
        ensures
            ({
                let raw = frame(
                    MessageType::Data,
                    data_payload(DataView { path: path@, offset, flags: 0, data: chunk@ }),
                );
                let packed = frame(
                    MessageType::Data,
                    data_payload(
                        DataView { path: path@, offset, flags: 1, data: zstd_compressed(chunk@) },
                    ),
                );
                &&& !self.spec_compress() ==> bytes_contents(r) == raw
                &&& self.spec_compress() ==> (bytes_contents(r) == packed && zstd_decoded(
                    zstd_compressed(chunk@),
                ) == Some(chunk@)) || bytes_contents(r) == raw
            }),
    {
        let packed = if self.config.compress {
            zstd_compress(chunk)
        } else {
            None
        };
        data_frame_of(path, offset, false, chunk, packed)
    }

    /// One DATA frame of a delta transfer: a chunk of encoded delta operations.
    /// Its offset is always 0, since the receiver applies operations in order.
    /// It carries DELTA; with compression on, the chunk goes through the
    /// compressor and the frame is built from what it returns (see
    /// `data_frame_of`).
    pub fn delta_data_frame(&self, path: &String, chunk: Vec<u8>) -> (r: Bytes)
        ensures
            ({
                let raw = frame(
                    MessageType::Data,
                    data_payload(DataView { path: path@, offset: 0, flags: 2, data: chunk@ }),
                );
                let packed = frame(
                    MessageType::Data,
                    data_payload(
                        DataView { path: path@, offset: 0, flags: 3, data: zstd_compressed(chunk@) },
                    ),
                );
                &&& !self.spec_compress() ==> bytes_contents(r) == raw
                &&& self.spec_compress() ==> (bytes_contents(r) == packed && zstd_decoded(
                    zstd_compressed(chunk@),
                ) == Some(chunk@)) || bytes_contents(r) == raw
            }),
    {
        let packed = if self.config.compress {
            zstd_compress(chunk.as_slice())
        } else {
            None
        };
        data_frame_of(path, 0, true, chunk.as_slice(), packed)
    }

    /// The DATA_END frame that closes a file's transfer, with status OK.
    pub fn data_end_frame(path: String) -> (r: Bytes)
        ensures
            bytes_contents(r) == frame(
                MessageType::DataEnd,
                data_end_payload(DataEndView { path: path@, status: DataEnd::STATUS_OK }),
            ),
    {
        let end = DataEnd { path, status: DataEnd::STATUS_OK };
        end.encode()
    }

    /// The destination checksums as the delta engine takes them: numbered in
    /// order, each as long as the block size except the last, which holds only
    /// what remains of the destination file.
    pub fn engine_checksums(info: &DeltaInfo) -> (r: Vec<delta::BlockChecksum>)
        ensures
            r@.len() == info.checksums@.len(),
            forall|i: int|
                0 <= i < r@.len() ==> {
                    let c = info.checksums@[i];
                    &&& (#[trigger] r@[i]).index == i
                    &&& r@[i].offset == c.offset
                    &&& r@[i].weak == c.weak
                    &&& r@[i].strong == c.strong
                    &&& r@[i].size == engine_block_size(
                        info.file_size,
                        info.block_size,
                        c.offset,
                        i,
                        r@.len() as int,
                    )
                },
            forall|i: int| 0 <= i < r@.len() - 1 ==> (#[trigger] r@[i]).size == info.block_size,
            r@.len() > 0 ==> {
                let c = info.checksums@[r@.len() - 1];
                let size = r@[r@.len() - 1].size as int;
                &&& size <= info.block_size
                &&& c.offset >= info.file_size ==> size == 0
                &&& c.offset < info.file_size && info.block_size > 0 ==> size > 0
                &&& c.offset + info.block_size <= info.file_size ==> size == info.block_size
                &&& c.offset <= info.file_size && info.file_size - c.offset <= info.block_size
                    ==> size == info.file_size - c.offset
            },
    {
        let n = info.checksums.len();
        let block_size = info.block_size as usize;
        let mut out: Vec<delta::BlockChecksum> = Vec::with_capacity(n);
        let mut i: usize = 0;
        while i < n
            invariant
                i <= n,
                n == info.checksums@.len(),
                block_size == info.block_size as usize,
                out@.len() == i,
                forall|j: int|
                    0 <= j < i ==> {
                        let c = info.checksums@[j];
                        &&& (#[trigger] out@[j]).index == j
                        &&& out@[j].offset == c.offset
                        &&& out@[j].weak == c.weak
                        &&& out@[j].strong == c.strong
                        &&& out@[j].size == engine_block_size(
                            info.file_size,
                            info.block_size,
                            c.offset,
                            j,
                            n as int,
                        )
                    },
            decreases n - i,
        {
            let c = info.checksums[i];
            let actual_size = if i == n - 1 {
                let remaining = info.file_size.saturating_sub(c.offset);
                (if remaining < block_size as u64 {
                    remaining
                } else {
                    block_size as u64
                }) as usize
            } else {
                block_size
            };
            out.push(
                delta::BlockChecksum {
                    index: i as u64,
                    offset: c.offset,
                    size: actual_size,
                    weak: c.weak,
                    strong: c.strong,
                },
            );
            i = i + 1;
        }
        proof {
            assert forall|j: int| 0 <= j < out@.len() - 1 implies (#[trigger] out@[j]).size == info.block_size by {
                lemma_engine_block_sizes(info.file_size, info.block_size, info.checksums@[j].offset, j, n as int);
            }
            if n > 0 {
                let k = n as int - 1;
                lemma_engine_block_sizes(info.file_size, info.block_size, info.checksums@[k].offset, k, n as int);
                assert(out@[k].size == engine_block_size(
                    info.file_size, info.block_size, info.checksums@[k].offset, k, n as int));
            }
        }
        out
    }
}

/// The DATA frame for `chunk` given what the compressor returned for it:
/// with `Some(c)`, the data is `c` and the frame carries COMPRESSED; with
/// `None`, the data is the chunk itself, without COMPRESSED. `delta` adds the
/// DELTA flag.
pub fn data_frame_of(path: &String, offset: u64, delta: bool, chunk: &[u8], packed: Option<Vec<u8>>) -> (r:
    Bytes)
    ensures
        bytes_contents(r) == frame(
            MessageType::Data,
            data_payload(
                match packed {
                    Some(c) => DataView {
                        path: path@,
                        offset,
                        flags: if delta {
                            3u8
                        } else {
                            1u8
                        },
                        data: c@,
                    },
                    None => DataView {
                        path: path@,
                        offset,
                        flags: if delta {
                            2u8
                        } else {
                            0u8
                        },
                        data: chunk@,
                    },
                },
            ),
        ),
{
    let base = if delta {
        DataFlags::delta()
    } else {
        DataFlags::empty()
    };
    match packed {
        Some(c) => {
            let flags = base.union(DataFlags::compressed());
            assert(2u8 | 1u8 == 3u8 && 0u8 | 1u8 == 1u8) by (bit_vector);
            let data = Data { path: path.clone(), offset, flags, data: bytes_from_vec(c) };
            data.encode()
        },
        None => {
            let mut v: Vec<u8> = Vec::new();
            crate::streaming::wire::put_slice(&mut v, chunk);
            let data = Data { path: path.clone(), offset, flags: base, data: bytes_from_vec(v) };
            data.encode()
        },
    }
}

/// Where the next chunk of a full transfer starts: right after this one, so
/// the chunks of a file follow each other without gap or overlap.
pub fn next_offset(offset: u64, len: usize) -> (r: u64)
    requires
        offset + len <= u64::MAX,
    ensures
        r == offset + len,
{
    offset + len as u64
}

/// What the sender's DATA frames carry stands for the chunk it was given:
/// raw data (flags 0 or DELTA) is the chunk itself, and compressed data
/// (COMPRESSED added) decodes back to it.
pub proof fn lemma_sent_data_content(chunk: Seq<u8>)
    ensures
        spec_data_content(0, chunk) == Some(chunk),
        spec_data_content(2, chunk) == Some(chunk),
        zstd_decoded(zstd_compressed(chunk)) == Some(chunk) ==> spec_data_content(
            1,
            zstd_compressed(chunk),
        ) == Some(chunk) && spec_data_content(3, zstd_compressed(chunk)) == Some(chunk),
{
    assert(0u8 & 1u8 == 0u8 && 2u8 & 1u8 == 0u8 && 1u8 & 1u8 == 1u8 && 3u8 & 1u8 == 1u8) by (bit_vector);
}

} // verus!
