//! A client-side implementation of the GELF log-transport wire protocol.
//!
//! The crate turns structured log records into GELF JSON payloads,
//! optionally compresses them, and splits oversized payloads into
//! self-describing UDP chunks.  The chunking, framing and field-emission
//! rules are stated as contracts and proved.

mod backends;
mod errors;
mod json;
mod level;
mod logger;
mod message;

pub use backends::Backend;
pub use backends::NullBackend;
pub use errors::CompressionError;
pub use errors::Error;
pub use level::Level;
pub use level::RustLevel;
pub use logger::Logger;
pub use message::chunked_message::ChunkSize;
pub use message::chunked_message::ChunkedMessage;
pub use message::chunked_message::ChunkedMessageId;
pub use message::chunked_message::ChunkedMessageIterator;
pub use message::chunked_message::CHUNK_OVERHEAD;
pub use message::chunked_message::CHUNK_SIZE_LAN;
pub use message::chunked_message::CHUNK_SIZE_WAN;
pub use message::chunked_message::MAGIC_BYTE_0;
pub use message::chunked_message::MAGIC_BYTE_1;
pub use message::chunked_message::MAX_CHUNKS;
pub use message::compression::MessageCompression;
pub use message::wire_message::WireMessage;
pub use message::Message;
pub use message::Timestamp;
