use vstd::prelude::*;

verus! {

/// Errors of filter construction and bit access.
#[derive(Clone, Copy, Debug, PartialEq, Eq, Structural)]
pub enum FilterError {
    /// Invalid construction parameters: an expected element count of zero, a
    /// false-positive rate outside (0, 1), or a bit count that does not fit
    /// in memory. Fatal at construction; never raised by later operations.
    ConfigError,
    /// Out-of-range bit access. This indicates a size mismatch between a
    /// hash strategy and a bit set and never occurs in verified callers.
    IndexError,
}

/// Errors of restoring a filter from a snapshot. Both are recoverable by
/// falling back to a fresh build.
#[derive(Clone, Copy, Debug, PartialEq, Eq, Structural)]
pub enum SnapshotError {
    /// The snapshot file does not exist.
    NotFoundError,
    /// The snapshot bytes are malformed: shorter than a header, a recorded
    /// zero dimension, or a length that does not match the recorded size.
    CorruptError,
}

} // verus!
