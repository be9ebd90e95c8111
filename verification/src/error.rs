use vstd::prelude::*;

verus! {

/// Errors of the storage engine.
///
/// Configuration and filesystem errors are fatal at startup; the
/// consumer-offset lookup miss is a recoverable, typed condition.
#[derive(Debug, PartialEq, Eq)]
pub enum StreamError {
    /// The base directory could not be created.
    CannotCreateBaseDirectory,
    /// The topics directory could not be created.
    CannotCreateTopicsDirectory,
    /// The segment capacity is not a positive multiple of the buffer flush
    /// threshold; carries the offending capacity and threshold.
    InvalidSegmentSize(u64, u64),
    /// A segment file on disk is truncated, oversized or otherwise corrupt.
    CannotParseSegment,
    /// A topic with the requested id does not exist.
    TopicNotFound,
    /// A topic with the requested id already exists.
    TopicAlreadyExists,
    /// The consumer has never committed an offset for this topic.
    ConsumerOffsetNotFound,
}

/// Errors of the client construction path.
#[derive(Debug, PartialEq, Eq)]
pub enum ClientError {
    /// The configured transport name is not one of the supported transports;
    /// carries the offending name.
    InvalidTransport(String),
    /// The connect step of a connection-oriented transport failed.
    CannotConnect,
}

} // verus!
