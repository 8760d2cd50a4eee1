//! Errors of the library's own construction paths. Failures of outside
//! collaborators (windowing, file handles) are not the library's concern
//! and stay with the code that talks to them.

use vstd::prelude::*;

verus! {

/// Construction failure: ill-formed input rows (no rows, an empty first
/// row, rows of differing lengths, or an unrecognized character while
/// decoding a text grid).
#[derive(Debug, Clone, Copy, PartialEq, Eq, Structural)]
pub enum Error {
    WorldBadParts,
}

} // verus!
