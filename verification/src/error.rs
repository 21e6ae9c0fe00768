//! The kinds of failure that the store reports.

use vstd::prelude::*;

verus! {

/// Why an operation on the library, or on one entity of it, did not succeed.
#[derive(Clone, Copy, Debug, PartialEq, Eq, Structural)]
pub enum StoreError {
    /// The file or directory asked for is absent.
    NotFound,
    /// The file system, or the encoder writing into memory, reported a failure.
    Io,
    /// The bytes are no compressed stream, the stream holds no UTF-8 text, or
    /// the text is no document.
    CorruptData,
    /// A document lacks an identifier it needs, or carries one that cannot
    /// name a library entity.
    Validation,
}

} // verus!
