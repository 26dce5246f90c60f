use vstd::prelude::*;

use crate::ledger::AccountId;

verus! {

/// Where an escrow stands in its lifecycle.
#[derive(Clone, Copy, PartialEq, Eq, Structural, Debug)]
pub enum EscrowStatus {
    /// Funds are in custody; the trade is underway.
    Open,
    /// The buyer has confirmed; the seller may withdraw within the window.
    Completed,
    /// Funds have left custody. Terminal.
    Claimed,
    /// The buyer asked for a refund; a jury is deciding.
    RefundRequested,
    /// The jury refused the refund.
    RefundRefused,
    /// The jury accepted the refund; the buyer may withdraw.
    RefundAccepted,
}

/// One trade's funds under custody. Everything but `status` is fixed at
/// creation; `status` only moves along the edges of [`is_status_edge`].
pub struct Escrow {
    /// Unique, sequentially assigned, stable for the escrow's lifetime.
    pub id: u128,
    /// The account that opened the escrow and paid into custody.
    pub buyer: AccountId,
    /// The account the funds are owed to on completion.
    pub seller: AccountId,
    pub status: EscrowStatus,
    /// The value held in custody, moved in when the escrow was opened.
    pub amount: u128,
    /// Opaque descriptive text.
    pub metadata: String,
    /// Creation time; anchors every timeout computation.
    pub start_timestamp: u64,
}

/// The edges an escrow's status may follow:
/// `Open -> Completed -> Claimed`, the direct `Open -> Claimed` once a
/// dispute can no longer be raised, and the refund path
/// `Open -> RefundRequested -> {RefundAccepted, RefundRefused} -> Claimed`.
pub open spec fn is_status_edge(from: EscrowStatus, to: EscrowStatus) -> bool {
    ||| (from == EscrowStatus::Open && to == EscrowStatus::Completed)
    ||| (from == EscrowStatus::Open && to == EscrowStatus::Claimed)
    ||| (from == EscrowStatus::Open && to == EscrowStatus::RefundRequested)
    ||| (from == EscrowStatus::Completed && to == EscrowStatus::Claimed)
    ||| (from == EscrowStatus::RefundRequested && to == EscrowStatus::RefundAccepted)
    ||| (from == EscrowStatus::RefundRequested && to == EscrowStatus::RefundRefused)
    ||| (from == EscrowStatus::RefundAccepted && to == EscrowStatus::Claimed)
    ||| (from == EscrowStatus::RefundRefused && to == EscrowStatus::Claimed)
}

/// Every escrow either kept its status or moved along one lifecycle edge,
/// and no escrow disappeared.
pub open spec fn follows_status_edges(pre: Seq<Escrow>, post: Seq<Escrow>) -> bool {
    &&& pre.len() <= post.len()
    &&& forall|i: int|
        0 <= i < pre.len() ==> {
            ||| (#[trigger] post[i]).status == pre[i].status
            ||| is_status_edge(pre[i].status, post[i].status)
        }
}

} // verus!
