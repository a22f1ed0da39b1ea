//! What a look at the place of a record on disk can find.

use vstd::prelude::*;

verus! {

/// What was found where a record is kept on disk.
pub enum Stored<T> {
    /// Nothing is there.
    Absent,
    /// Something is there and cannot be read as a record.
    Unreadable,
    /// The record that is there.
    Value(T),
}

} // verus!
