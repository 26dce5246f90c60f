use vstd::prelude::*;

use crate::ledger::AccountId;

verus! {

/// One juror's cast ballot on a disputed escrow.
#[derive(Clone, Copy, PartialEq, Eq, Structural, Debug)]
pub struct EscrowArbitration {
    /// The juror the ballot belongs to.
    pub jury: AccountId,
    /// `true` accepts the refund, `false` refuses it.
    pub votes: bool,
}

/// The jury deciding one escrow's refund request. Created when the refund is
/// requested, cleared when the vote is finalized.
pub struct JuryAssignment {
    /// The escrow under dispute.
    pub escrow_id: u128,
    /// The refund requester, recorded for audit; never part of the jury.
    pub observer: AccountId,
    /// The jurors, in assignment order; each was a bonded staker, other than
    /// the observer, when the jury was drawn.
    pub jurors: Vec<AccountId>,
    /// The ballots cast so far, in arrival order, at most one per juror.
    pub ballots: Vec<EscrowArbitration>,
}

/// How many of the ballots accept the refund.
pub open spec fn count_accepts(ballots: Seq<EscrowArbitration>) -> nat
    decreases ballots.len(),
{
    if ballots.len() == 0 {
        0
    } else {
        count_accepts(ballots.drop_last()) + if ballots.last().votes {
            1nat
        } else {
            0nat
        }
    }
}

/// Whether `who` has already cast a ballot.
pub open spec fn has_voted(ballots: Seq<EscrowArbitration>, who: AccountId) -> bool {
    exists|i: int| 0 <= i < ballots.len() && ballots[i].jury == who
}

/// Whether strictly more ballots accept than refuse. A tie is no majority:
/// it resolves to refusal, protecting the custody default.
pub open spec fn majority_accepts(ballots: Seq<EscrowArbitration>) -> bool {
    2 * count_accepts(ballots) > ballots.len()
}

/// Every ballot comes from a juror, and no juror appears twice.
pub open spec fn ballots_wf(ballots: Seq<EscrowArbitration>, jurors: Seq<AccountId>) -> bool {
    &&& forall|i: int| 0 <= i < ballots.len() ==> jurors.contains((#[trigger] ballots[i]).jury)
    &&& forall|i: int, j: int|
        0 <= i < j < ballots.len() ==> ballots[i].jury != ballots[j].jury
}

} // verus!
