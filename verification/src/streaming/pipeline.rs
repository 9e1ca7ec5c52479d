//! The decisions of a client sync, push or pull, over the streaming
//! protocol: which HELLO it sends, what it accepts in reply, how it reads
//! the initial exchange and the message stream, and the statistics it
//! reports. Reading and writing frames, and the tasks that run the
//! generator, sender and receiver, are left to the caller.

use vstd::prelude::*;
use bytes::Bytes;
use std::path::PathBuf;
use crate::streaming::channel::SyncStats;
use crate::streaming::entries::{spec_decode_dest_file_entry, DestFileEntry, DestFileEntryView};
use crate::streaming::messages::{
    result_view, spec_decode_done, spec_decode_hello, DecodeError, Done, Hello, HelloView,
};
use crate::streaming::protocol::{HelloFlags, MessageType, PROTOCOL_VERSION};
use crate::streaming::receiver::{decode_received, decoded_as, ReceivedMessage};
use crate::streaming::transfer::{spec_decode_fatal, Fatal, FatalView};
use crate::streaming::wire::bytes_contents;

verus! {

/// Orchestrator for streaming sync. The remote root is held as the text sent
/// in HELLO.
pub struct StreamingSync {
    pub local_root: PathBuf,
    pub remote_root: String,
    pub delete_enabled: bool,
    pub compress: bool,
}

/// Why a sync stopped.
#[derive(Debug)]
pub enum SyncError {
    /// The reply to HELLO was another message.
    ExpectedHello(MessageType),
    /// A message that does not belong in the initial exchange.
    UnexpectedInExchange(MessageType),
    /// The other side sent FATAL with this text.
    RemoteFatal(String),
    /// A payload could not be decoded.
    Decode(DecodeError),
}

/// One message of the initial exchange, as read.
#[derive(Debug)]
pub enum ExchangeStep {
    /// A destination entry.
    Entry(DestFileEntry),
    /// The end of the destination entries.
    End,
}

/// One message of a pull's transfer stream, as read.
#[derive(Debug)]
pub enum PullStep {
    /// DONE: the transfer is over.
    Finished(Done),
    /// A message for the receiver.
    Message(ReceivedMessage),
}

/// The HELLO flags of a pull: PULL, with DELETE and COMPRESSION as asked.
pub open spec fn spec_pull_flags(delete_enabled: bool, compress: bool) -> u32 {
    1u32 | (if delete_enabled {
        2u32
    } else {
        0u32
    }) | (if compress {
        8u32
    } else {
        0u32
    })
}

/// The statistics a push reports when the server's last message is DONE.
pub open spec fn stats_from_done(d: Done) -> SyncStats {
    SyncStats {
        files_ok: d.files_ok,
        files_err: d.files_err,
        bytes_transferred: d.bytes,
        delta_files: 0,
        delta_bytes_saved: 0,
        dirs_created: 0,
        symlinks_created: 0,
        deleted: 0,
        hardlinks_created: 0,
    }
}

/// The statistics a push reports from its own totals.
pub open spec fn stats_from_totals(files: u64, bytes: u64) -> SyncStats {
    SyncStats {
        files_ok: files,
        files_err: 0,
        bytes_transferred: bytes,
        delta_files: 0,
        delta_bytes_saved: 0,
        dirs_created: 0,
        symlinks_created: 0,
        deleted: 0,
        hardlinks_created: 0,
    }
}

/// What a pull reports: the receiver's own counts, with the files and bytes
/// taken from the server's DONE.
pub open spec fn spec_pull_stats(received: SyncStats, d: Done) -> SyncStats {
    SyncStats { files_ok: d.files_ok, files_err: d.files_err, bytes_transferred: d.bytes, ..received }
}

/// A pull reports the files and bytes that the server's DONE names, whatever
/// the receiver counted of them itself; every other count is the receiver's.
pub proof fn lemma_pull_stats_take_done(received: SyncStats, d: Done)
    ensures
        spec_pull_stats(received, d).bytes_transferred == d.bytes,
        spec_pull_stats(received, d).files_ok == d.files_ok,
        spec_pull_stats(received, d).files_err == d.files_err,
        spec_pull_stats(received, d).delta_files == received.delta_files,
        spec_pull_stats(received, d).delta_bytes_saved == received.delta_bytes_saved,
        spec_pull_stats(received, d).dirs_created == received.dirs_created,
        spec_pull_stats(received, d).symlinks_created == received.symlinks_created,
        spec_pull_stats(received, d).deleted == received.deleted,
        spec_pull_stats(received, d).hardlinks_created == received.hardlinks_created,
        forall|other: SyncStats|
            spec_pull_stats(other, d).bytes_transferred == spec_pull_stats(received, d).bytes_transferred,
{
}

impl StreamingSync {
    pub fn new(local_root: PathBuf, remote_root: String, delete_enabled: bool, compress: bool) -> (r:
        Self)
        ensures
            r.local_root == local_root,
            r.remote_root == remote_root,
            r.delete_enabled == delete_enabled,
            r.compress == compress,
    {
        StreamingSync { local_root, remote_root, delete_enabled, compress }
    }

    /// The HELLO flags of a pull.
    pub fn pull_flags(&self) -> (r: HelloFlags)
        ensures
            r@ == spec_pull_flags(self.delete_enabled, self.compress),
            r.valid(),
    {
        let mut flags = HelloFlags::pull();
        if self.delete_enabled {
            flags = flags.union(HelloFlags::delete());
        }
        if self.compress {
            flags = flags.union(HelloFlags::compression());
        }
        proof {
            assert(1u32 | 0u32 == 1u32) by (bit_vector);
            assert((1u32 | 2u32) | 0u32 == 1u32 | 2u32) by (bit_vector);
        }
        flags
    }

    /// The HELLO that opens a push: protocol version 2, no flags, and the
    /// remote root.
    pub fn push_hello(&self) -> (r: Hello)
        ensures
            r@ == (HelloView { version: PROTOCOL_VERSION, flags: 0, root_path: self.remote_root@ }),
    {
        Hello::new(HelloFlags::empty(), self.remote_root.clone())
    }

    /// The HELLO that opens a pull: protocol version 2, the pull flags, and
    /// the remote root.
    pub fn pull_hello(&self) -> (r: Hello)
        ensures
            r@ == (HelloView {
                version: PROTOCOL_VERSION,
                flags: spec_pull_flags(self.delete_enabled, self.compress),
                root_path: self.remote_root@,
            }),
    {
        Hello::new(self.pull_flags(), self.remote_root.clone())
    }
}

/// The reply to HELLO: it must be HELLO, and decode.
pub fn expect_hello(msg_type: MessageType, payload: Bytes) -> (r: Result<Hello, SyncError>)
    ensures
        msg_type != MessageType::Hello ==> (r matches Err(SyncError::ExpectedHello(t)) && t == msg_type),
        msg_type == MessageType::Hello ==> match spec_decode_hello(bytes_contents(payload)) {
            Ok(v) => r matches Ok(h) && h@ == v,
            Err(e) => r matches Err(SyncError::Decode(e2)) && e2 == e,
        },
{
    if msg_type != MessageType::Hello {
        return Err(SyncError::ExpectedHello(msg_type));
    }
    match Hello::decode(payload) {
        Ok(h) => Ok(h),
        Err(e) => Err(SyncError::Decode(e)),
    }
}

/// The initial exchange as the sending side reads it. `fatal_reported`:
/// FATAL is read and its text reported (the client does this); otherwise
/// FATAL is unexpected like any other message (the server).
fn exchange_step(msg_type: MessageType, payload: Bytes, fatal_reported: bool) -> (r: Result<
    ExchangeStep,
    SyncError,
>)
    ensures
        exchange_step_spec(msg_type, bytes_contents(payload), fatal_reported, r),
{
    match msg_type {
        MessageType::DestFileEntry => match DestFileEntry::decode(payload) {
            Ok(e) => Ok(ExchangeStep::Entry(e)),
            Err(e) => Err(SyncError::Decode(e)),
        },
        MessageType::DestFileEnd => Ok(ExchangeStep::End),
        MessageType::Fatal if fatal_reported => match Fatal::decode(payload) {
            Ok(f) => Err(SyncError::RemoteFatal(f.message)),
            Err(e) => Err(SyncError::Decode(e)),
        },
        other => Err(SyncError::UnexpectedInExchange(other)),
    }
}

/// What one message of the initial exchange gives.
pub open spec fn exchange_step_spec(
    msg_type: MessageType,
    p: Seq<u8>,
    fatal_reported: bool,
    r: Result<ExchangeStep, SyncError>,
) -> bool {
    if msg_type == MessageType::DestFileEntry {
        match spec_decode_dest_file_entry(p) {
            Ok(v) => r matches Ok(ExchangeStep::Entry(e)) && e@ == v,
            Err(e) => r matches Err(SyncError::Decode(e2)) && e2 == e,
        }
    } else if msg_type == MessageType::DestFileEnd {
        r matches Ok(ExchangeStep::End)
    } else if msg_type == MessageType::Fatal && fatal_reported {
        match spec_decode_fatal(p) {
            Ok(v) => r matches Err(SyncError::RemoteFatal(m)) && m@ == v.message,
            Err(e) => r matches Err(SyncError::Decode(e2)) && e2 == e,
        }
    } else {
        r matches Err(SyncError::UnexpectedInExchange(t)) && t == msg_type
    }
}

/// One message of the initial exchange, read by the client of a push:
/// destination entries until DEST_FILE_END; FATAL reports the server's text.
pub fn client_exchange_step(msg_type: MessageType, payload: Bytes) -> (r: Result<
    ExchangeStep,
    SyncError,
>)
    ensures
        exchange_step_spec(msg_type, bytes_contents(payload), true, r),
{
    exchange_step(msg_type, payload, true)
}

/// One message of the initial exchange, read by the server of a pull:
/// destination entries until DEST_FILE_END; anything else is unexpected.
pub fn server_exchange_step(msg_type: MessageType, payload: Bytes) -> (r: Result<
    ExchangeStep,
    SyncError,
>)
    ensures
        exchange_step_spec(msg_type, bytes_contents(payload), false, r),
{
    exchange_step(msg_type, payload, false)
}

/// What a push reports, from the last message the server sent: its DONE
/// when it is one, else the totals of the push itself.
pub fn push_outcome(msg_type: MessageType, payload: Bytes, total_files: u64, total_bytes: u64) -> (r:
    Result<SyncStats, SyncError>)
    ensures
        msg_type != MessageType::Done ==> r == Ok::<SyncStats, SyncError>(
            stats_from_totals(total_files, total_bytes),
        ),
        msg_type == MessageType::Done ==> match spec_decode_done(bytes_contents(payload)) {
            Ok(d) => r == Ok::<SyncStats, SyncError>(stats_from_done(d)),
            Err(e) => r matches Err(SyncError::Decode(e2)) && e2 == e,
        },
{
    if msg_type == MessageType::Done {
        match Done::decode(payload) {
            Ok(d) => Ok(
                SyncStats {
                    files_ok: d.files_ok,
                    files_err: d.files_err,
                    bytes_transferred: d.bytes,
                    ..SyncStats::new()
                },
            ),
            Err(e) => Err(SyncError::Decode(e)),
        }
    } else {
        Ok(SyncStats { files_ok: total_files, bytes_transferred: total_bytes, ..SyncStats::new() })
    }
}

/// One message of a pull's transfer stream: DONE ends it, anything else
/// goes to the receiver.
pub fn pull_step(msg_type: MessageType, payload: Bytes) -> (r: Result<PullStep, SyncError>)
    ensures
        msg_type == MessageType::Done ==> match spec_decode_done(bytes_contents(payload)) {
            Ok(d) => r matches Ok(PullStep::Finished(d2)) && d2 == d,
            Err(e) => r matches Err(SyncError::Decode(e2)) && e2 == e,
        },
        msg_type != MessageType::Done ==> match r {
            Ok(PullStep::Message(m)) => decoded_as(msg_type, bytes_contents(payload), Ok(m)),
            Err(SyncError::Decode(e)) => decoded_as(msg_type, bytes_contents(payload), Err(e)),
            _ => false,
        },
{
    if msg_type == MessageType::Done {
        match Done::decode(payload) {
            Ok(d) => Ok(PullStep::Finished(d)),
            Err(e) => Err(SyncError::Decode(e)),
        }
    } else {
        match decode_received(msg_type, payload) {
            Ok(m) => Ok(PullStep::Message(m)),
            Err(e) => Err(SyncError::Decode(e)),
        }
    }
}

/// What a pull reports once DONE has come.
pub fn pull_stats(received: &SyncStats, done: &Done) -> (r: SyncStats)
    ensures
        r == spec_pull_stats(*received, *done),
        r.bytes_transferred == done.bytes,
        r.files_ok == done.files_ok,
        r.files_err == done.files_err,
        r.delta_files == received.delta_files,
        r.delta_bytes_saved == received.delta_bytes_saved,
        r.dirs_created == received.dirs_created,
        r.symlinks_created == received.symlinks_created,
        r.deleted == received.deleted,
        r.hardlinks_created == received.hardlinks_created,
{
    let mut stats = *received;
    stats.files_ok = done.files_ok;
    stats.files_err = done.files_err;
    stats.bytes_transferred = done.bytes;
    stats
}

} // verus!
