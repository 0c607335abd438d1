use vstd::prelude::*;

verus! {

/// Why an operation of this library gave up.
#[derive(Clone, Copy, PartialEq, Eq, Structural, Debug)]
pub enum Error {
    /// The bounds of a walk are unusable: it was asked to start at block 0.
    InvalidRange,
    /// The chain answered a query with a failure, or with an answer that
    /// does not belong to the query.
    ChainQueryFailed,
    /// The authority set changed at a block for which no justification can
    /// be had.
    MissingTransitionProof,
    /// Bytes do not decode: a log record is cut short or does not begin
    /// with a header, or what a cache served is not what was asked for.
    DecodeError,
    /// The sink refused a write.
    SinkWriteFailed,
    /// The cache could not be reached, or did not serve.
    TransportError,
}

} // verus!
