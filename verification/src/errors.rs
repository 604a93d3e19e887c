use vstd::prelude::*;

verus! {

/// The structured failures an operation can report. Every operation either
/// completes in full or returns one of these with no state changed.
#[derive(Clone, Copy, PartialEq, Eq, Structural, Debug)]
pub enum Error {
    /// A referenced job, campaign or user id does not exist.
    NotFound,
    /// The caller's identity does not match the required party.
    Unauthorized,
    /// The operation was attempted outside its legal state-machine transition.
    InvalidState,
    /// A campaign operation arrived after the campaign's end time.
    DeadlinePassed,
    /// A campaign was asked to settle while its funding window is still open.
    DeadlineNotReached,
    /// The fund-transfer gateway declined the movement.
    TransferFailed,
}

} // verus!
