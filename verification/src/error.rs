use vstd::prelude::*;

verus! {

/// Recoverable failures surfaced to the caller instead of panicking:
/// a malformed position string, a square index outside `0..64`, or a
/// missing king during a safety check.
#[derive(Clone, Copy, Debug, PartialEq, Eq, Structural)]
pub enum ChessError {
    InvalidPosition,
    IndexOutOfRange,
    KingNotFound,
}

} // verus!
