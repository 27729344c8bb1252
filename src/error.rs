use vstd::prelude::*;

verus! {

/// The ways a resolution can fail.
#[derive(Clone, Copy, Debug, PartialEq, Eq, Structural)]
pub enum PaginationError {
    /// The entity store failed to run a query.
    StoreFailure,
    /// Cursor pagination over a record type whose key has no column or more than three.
    UnsupportedKeyArity,
    /// A cursor token that no key tuple of the record type encodes to.
    CursorDecodeError,
}

} // verus!
