//! The ways in which a store operation fails.

use vstd::prelude::*;

verus! {

/// Why an operation on a collection did not go through.
#[derive(Clone, Copy, Debug, PartialEq, Eq, Structural)]
pub enum StoreError {
    /// The caller's input is malformed: a pagination parameter that is no
    /// number, a path that names no operation.
    ClientInput,
    /// The stored text is not a JSON array of documents.
    PersistenceDecode,
    /// The store could not be written.
    PersistenceWrite,
    /// Every identifier up to the largest is taken.
    IdsExhausted,
}

} // verus!
