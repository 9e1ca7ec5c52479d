//! Streaming protocol v2: message framing, message codecs and the
//! decisions of the sender and receiver tasks.

pub mod channel;
pub mod compress;
pub mod entries;
pub mod messages;
pub mod paths;
pub mod pipeline;
pub mod protocol;
pub mod receiver;
pub mod sender;
pub mod table;
pub mod transfer;
pub mod wire;
pub mod xattr;

pub use channel::{
    DataChunk, DeltaInfo, DestFileState, DestIndex, FileJob, GeneratorMessage, SyncDirection,
    SyncStats, DATA_CHUNK_SIZE, DELTA_CHUNK_SIZE, DELTA_MIN_SIZE, GENERATOR_CHANNEL_SIZE,
    SENDER_CHANNEL_SIZE,
};
pub use pipeline::StreamingSync;
pub use protocol::{
    is_legacy_protocol, is_streaming_protocol, negotiate_version, BlockChecksum, Data, DataEnd,
    DataFlags, Delete, DeleteEnd, DestFileEnd, DestFileEntry, DestFileFlags, Done, Error,
    ErrorCode, Fatal, FileEnd, FileEntry, FileFlags, Hello, HelloFlags, MessageType, Mkdir,
    Progress, Symlink, VersionNegotiationResult, Xattr, XattrEntry, PROTOCOL_VERSION,
    PROTOCOL_VERSION_MAX, PROTOCOL_VERSION_MIN, PROTOCOL_VERSION_V1,
};
pub use receiver::{ReceiverConfig, ReceiverState};
pub use sender::{Sender, SenderConfig};
