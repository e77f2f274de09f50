use vstd::prelude::*;

verus! {

/// Kind of failure reported by the node graph, the stores and the codec.
#[derive(Debug, Clone, Copy, PartialEq, Eq, Structural)]
pub enum GenApiError {
    /// Wrong capability, unresolved id or missing entry.
    InvalidNode,
    /// Out-of-range value, unknown enumeration symbol or value, parse failure.
    InvalidData,
    /// A codec buffer whose width is not supported.
    InvalidBuffer,
    /// The node cannot be written.
    NotWritable,
    /// The node cannot be read.
    NotReadable,
    /// A formula variable could not be resolved at read time.
    ChunkDataMissing,
    /// A device transport failure.
    Io(IoErrorKind),
}

/// Kind of a device transport failure.
#[derive(Debug, Clone, Copy, PartialEq, Eq, Structural)]
pub enum IoErrorKind {
    Timeout,
    Disconnected,
    Other,
}

pub type GenApiResult<T> = Result<T, GenApiError>;

} // verus!
