use vstd::prelude::*;

verus! {

/// Why a protocol operation was refused. Every mutating operation either
/// commits all of its effects or returns one of these with the state exactly
/// as it was before the call.
#[derive(Clone, Copy, PartialEq, Eq, Structural, Debug)]
pub enum DisputeError {
    /// The escrow id is unknown.
    NotFound,
    /// The caller is not the party the operation requires.
    Unauthorized,
    /// The operation is not valid for the current state: an escrow in the
    /// wrong status, a vote finalized before every juror has voted, or a
    /// fresh stake while a bond is already active.
    InvalidState,
    /// A refund was requested after the dispute window closed.
    WindowExpired,
    /// A withdrawal does not fit the timing rule for the escrow's status.
    WindowViolation,
    /// The ledger refused the token movement; nothing was changed.
    TransferFailed,
    /// A stake of anything but the fixed bond.
    InvalidStakeAmount,
    /// An unstake by an account with nothing bonded.
    EmptyStakeEntry,
    /// A ballot from an account outside the escrow's jury.
    NotJuror,
    /// A second ballot from the same juror.
    AlreadyVoted,
}

} // verus!
