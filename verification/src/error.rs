use vstd::prelude::*;

verus! {

/// The error kinds surfaced by the fallible operations of this library.
///
/// Every fallible operation reports one of these instead of panicking. A
/// failing batch-accumulator check is a normal boolean result, not an error.
#[derive(Clone, Copy, Debug, PartialEq, Eq, Structural)]
pub enum SrsError {
    /// The requested evaluation-domain size has no valid subgroup of roots
    /// of unity, or an evaluation vector does not match its domain.
    InvalidDomainSize,
    /// The byte codec failed to decode an SRS from a stream. Encoding into
    /// memory is total and never reports this.
    CodecError,
    /// A file operation failed. This library never performs file I/O itself;
    /// the variant exists for the I/O shell around it to report open, seek,
    /// read and write failures in the library's vocabulary.
    IoError,
    /// A group operation the setup depends on was unsupported: the fixed
    /// point derivation found no curve point for some index. Creation fails
    /// with this instead of searching forever; with the hash producing an
    /// admissible abscissa about every second attempt, the case is beyond
    /// astronomically unlikely.
    UnsupportedGroupOperation,
}

} // verus!
