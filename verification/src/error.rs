//! The ways in which an operation on the store can fail.

use vstd::prelude::*;

verus! {

/// Why an operation did not succeed.
#[derive(Clone, Copy, Debug, PartialEq, Eq, Structural)]
pub enum KvsError {
    /// `remove` was asked for a key that the index does not hold.
    KeyNotFound,
    /// A key or a value is too long to be written as one record.
    TooLarge,
    /// The record could not be written as bytes that read back as the record.
    Encode,
    /// The bytes at the cursor are not one whole record.
    Corrupt,
    /// A record was expected where the bytes end.
    EndOfBytes,
    /// The bytes that the index points at hold a record that sets no value.
    UnexpectedRecord,
}

/// An answer by what its value stands for.
pub open spec fn viewed<T: View>(res: Result<T, KvsError>) -> Result<T::V, KvsError> {
    match res {
        Ok(value) => Ok(value@),
        Err(e) => Err(e),
    }
}

} // verus!
