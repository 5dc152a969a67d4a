use vstd::prelude::*;

verus! {

/// Every failure this library reports to its caller.
///
/// All failures are returned as values; no verified function of this
/// crate panics.
#[derive(Clone, Debug)]
pub enum Error {
    /// A transport backend could not be constructed.
    BackendCreationFailed,
    /// A metadata field was set under a key that GELF reserves.
    IllegalNameForAdditional { name: String },
    /// The context a logger needs (the hostname) could not be determined.
    LoggerCreateFailed,
    /// A send attempt did not fully succeed.
    LogTransmitFailed,
    /// The compressor reported an error for the named algorithm.
    CompressMessageFailed {
        compression_method: &'static str,
        compression_error: CompressionError,
    },
    /// The message could not be serialized to GELF JSON.
    SerializeMessageFailed,
    /// The payload needs more chunks than GELF allows.
    ChunkMessageFailed,
    /// The chunk-size policy resolved to an illegal byte count.
    IllegalChunkSize { size: u16 },
    /// The compression level lies outside the algorithm-defined range.
    InvalidCompressionLevel { level: i32 },
}

/// The error conditions a compressor can report.
#[derive(Clone, Copy, Debug)]
pub enum CompressionError {
    /// The output buffer handed to the encoder was too small.
    InsufficientSpace,
}

} // verus!
