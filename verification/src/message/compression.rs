//! Compression of the serialized GELF JSON bytes: pass-through, gzip,
//! or zlib at a configurable level.

use vstd::prelude::*;

use crate::errors::CompressionError;
use crate::errors::Error;
use crate::message::wire_message::spec_gelf_json;
use crate::message::wire_message::WireMessage;

verus! {

/// The smallest compression level the deflate encoder accepts.
pub const MIN_COMPRESSION_LEVEL: i32 = 0;

/// The largest compression level the deflate encoder accepts.
pub const MAX_COMPRESSION_LEVEL: i32 = 12;

/// The gzip container for the given bytes at the given level.  The
/// encoder is deterministic: the result depends on the level and the
/// input bytes alone.
pub uninterp spec fn gzip_of(level: int, data: Seq<u8>) -> Seq<u8>;

/// The zlib container for the given bytes at the given level.  The
/// encoder is deterministic: the result depends on the level and the
/// input bytes alone.
pub uninterp spec fn zlib_of(level: int, data: Seq<u8>) -> Seq<u8>;

/// Relies on libdeflater: CompressionLvl::new validates the level,
/// Compressor::gzip_compress_bound sizes the output buffer, and
/// Compressor::gzip_compress writes the gzip container for the input,
/// which depends on the level and the input alone.  The bound is a
/// hard upper bound on the container's size, so with a buffer of that
/// size the call cannot fail.
#[verifier::external_body]
fn gzip_compress_vec(level: i32, data: &Vec<u8>) -> (r: Option<Vec<u8>>)
    requires
        MIN_COMPRESSION_LEVEL <= level <= MAX_COMPRESSION_LEVEL,
    ensures
        r is Some,
        r matches Some(v) ==> v@ == gzip_of(level as int, data@),
{
    let lvl = match libdeflater::CompressionLvl::new(level) {
        Ok(lvl) => lvl,
        Err(_) => return None,
    };
    let mut compressor = libdeflater::Compressor::new(lvl);
    let bound = compressor.gzip_compress_bound(data.len());
    let mut buffer = vec![0u8; bound];
    match compressor.gzip_compress(data.as_slice(), buffer.as_mut_slice()) {
        Ok(size) => {
            buffer.truncate(size);
            Some(buffer)
        },
        Err(_) => None,
    }
}

/// Relies on libdeflater: CompressionLvl::new validates the level,
/// Compressor::zlib_compress_bound sizes the output buffer, and
/// Compressor::zlib_compress writes the zlib container for the input,
/// which depends on the level and the input alone.  The bound is a
/// hard upper bound on the container's size, so with a buffer of that
/// size the call cannot fail.
#[verifier::external_body]
fn zlib_compress_vec(level: i32, data: &Vec<u8>) -> (r: Option<Vec<u8>>)
    requires
        MIN_COMPRESSION_LEVEL <= level <= MAX_COMPRESSION_LEVEL,
    ensures
        r is Some,
        r matches Some(v) ==> v@ == zlib_of(level as int, data@),
{
    let lvl = match libdeflater::CompressionLvl::new(level) {
        Ok(lvl) => lvl,
        Err(_) => return None,
    };
    let mut compressor = libdeflater::Compressor::new(lvl);
    let bound = compressor.zlib_compress_bound(data.len());
    let mut buffer = vec![0u8; bound];
    match compressor.zlib_compress(data.as_slice(), buffer.as_mut_slice()) {
        Ok(size) => {
            buffer.truncate(size);
            Some(buffer)
        },
        Err(_) => None,
    }
}

/// MessageCompression represents all possible compression algorithms
/// in GELF.
#[derive(Clone, Copy, Debug, PartialEq, Eq, Structural)]
pub enum MessageCompression {
    NoCompression,
    Gzip { level: i32 },
    Zlib { level: i32 },
}

/// The bytes a wire message compresses to under an algorithm: the
/// UTF-8 bytes of its GELF JSON, wrapped in the chosen container.
pub open spec fn spec_compressed(w: WireMessage, c: MessageCompression) -> Seq<u8> {
    match c {
        MessageCompression::NoCompression => vstd::utf8::encode_utf8(spec_gelf_json(w)),
        MessageCompression::Gzip { level } => gzip_of(
            level as int,
            vstd::utf8::encode_utf8(spec_gelf_json(w)),
        ),
        MessageCompression::Zlib { level } => zlib_of(
            level as int,
            vstd::utf8::encode_utf8(spec_gelf_json(w)),
        ),
    }
}

impl MessageCompression {
    /// The compression level the algorithm was configured with, if any.
    pub open spec fn spec_level(self) -> Option<i32> {
        match self {
            MessageCompression::NoCompression => None,
            MessageCompression::Gzip { level } => Some(level),
            MessageCompression::Zlib { level } => Some(level),
        }
    }

    /// Whether the configured level lies in the encoder's accepted
    /// range.  Pass-through compression has no level and is always
    /// acceptable.
    pub open spec fn level_ok(self) -> bool {
        match self {
            MessageCompression::NoCompression => true,
            MessageCompression::Gzip { level } => MIN_COMPRESSION_LEVEL <= level
                <= MAX_COMPRESSION_LEVEL,
            MessageCompression::Zlib { level } => MIN_COMPRESSION_LEVEL <= level
                <= MAX_COMPRESSION_LEVEL,
        }
    }

    /// Return the default compression algorithm.
    pub fn default() -> (r: MessageCompression)
        ensures
            r == (MessageCompression::Gzip { level: 1 }),
    {
        MessageCompression::Gzip { level: 1 }
    }

    /// Compress a serialized message with the chosen algorithm.
    ///
    /// An out-of-range level fails with `InvalidCompressionLevel`; an
    /// encoder error would surface as `CompressMessageFailed` naming
    /// the algorithm, but at a valid level compression always succeeds
    /// and the bytes are exactly the compressed form of the message's
    /// GELF JSON.
    ///
    /// Every call builds its own encoder, so concurrent callers cannot
    /// interfere with each other's output.
    pub fn compress(self, message: &WireMessage) -> (r: Result<Vec<u8>, Error>)
        ensures
            r matches Ok(b) ==> b@ == spec_compressed(*message, self) && self.level_ok(),
            self.level_ok() ==> r is Ok,
            !self.level_ok() ==> (r matches Err(e) && e matches Error::InvalidCompressionLevel {
                level,
            } && Some(level) == self.spec_level()),
    {
        let json = match message.to_gelf() {
            Ok(json) => json,
            Err(e) => {
                return Err(e);
            },
        };
        let bytes = json.as_str().as_bytes_vec();
        match self {
            MessageCompression::NoCompression => Ok(bytes),
            MessageCompression::Gzip { level } => {
                if level < MIN_COMPRESSION_LEVEL || level > MAX_COMPRESSION_LEVEL {
                    return Err(Error::InvalidCompressionLevel { level });
                }
                match gzip_compress_vec(level, &bytes) {
                    Some(out) => Ok(out),
                    None => Err(
                        Error::CompressMessageFailed {
                            compression_method: "gzip",
                            compression_error: CompressionError::InsufficientSpace,
                        },
                    ),
                }
            },
            MessageCompression::Zlib { level } => {
                if level < MIN_COMPRESSION_LEVEL || level > MAX_COMPRESSION_LEVEL {
                    return Err(Error::InvalidCompressionLevel { level });
                }
                match zlib_compress_vec(level, &bytes) {
                    Some(out) => Ok(out),
                    None => Err(
                        Error::CompressMessageFailed {
                            compression_method: "zlib",
                            compression_error: CompressionError::InsufficientSpace,
                        },
                    ),
                }
            },
        }
    }
}

} // verus!
