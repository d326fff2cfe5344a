//! Error kinds that abort an expansion pass.

use vstd::prelude::*;

verus! {

/// Every error aborts the whole expansion pass immediately: placeholders
/// resolved before the failing one remain resolved in the buffer, the failing
/// placeholder and everything after it keep their original textual form.
#[derive(Debug)]
pub enum Error {
    /// The sandboxed-path collaborator rejected the requested path.
    InvalidPath(Vec<u8>),
    /// A sandbox-valid path named by an article record does not exist on disk.
    ResourceNotFound(Vec<u8>),
    /// A numeric placeholder suffix is not a positive integer.
    MalformedNumber,
    /// A 1-based positional index lies outside the argument list.
    ArgumentOutOfRange(usize),
    /// The storage collaborator failed, including an "exactly one" lookup
    /// that matched zero or more than one row.
    Storage(Vec<u8>),
    /// The filesystem collaborator failed to read a requested file.
    FileRead(Vec<u8>),
    /// The bound on the number of placeholder expansions was exhausted while
    /// an expandable placeholder remained.
    LimitExceeded,
}

} // verus!
