use vstd::prelude::*;

use crate::errors::DisputeError;
use crate::escrow::follows_status_edges;
use crate::escrow::Escrow;
use crate::escrow::EscrowStatus;
use crate::jury::ballots_wf;
use crate::jury::count_accepts;
use crate::jury::has_voted;
use crate::jury::majority_accepts;
use crate::jury::EscrowArbitration;
use crate::jury::JuryAssignment;
use crate::ledger::AccountId;
use crate::ledger::Ledger;
use crate::oracle::RandomnessSource;

verus! {

/// One day in milliseconds, the unit of the protocol's timing rules.
pub const ONE_DAY_MS: u64 = 24 * 60 * 60 * 1000;

/// How long after an escrow opens a refund may be requested, and before
/// which a seller's withdrawal needs the buyer's confirmation.
pub const DISPUTE_WINDOW_MS: u64 = 7 * ONE_DAY_MS;

/// The fixed bond an account locks to become jury-eligible.
pub const STAKE_BOND: u128 = 10000000000000000000;

/// How many jurors a dispute asks for, when enough stakers are eligible.
pub const JURY_SIZE: usize = 3;

/// One account's bond. The record persists after unstaking with `amount`
/// zero; only an account whose `amount` is positive is jury-eligible.
#[derive(Clone, Copy, PartialEq, Eq, Structural, Debug)]
pub struct StakeRecord {
    pub owner: AccountId,
    pub amount: u128,
}

/// No two stake records belong to the same account.
pub open spec fn owners_distinct(s: Seq<StakeRecord>) -> bool {
    forall|i: int, j: int| 0 <= i < j < s.len() ==> s[i].owner != s[j].owner
}

/// Every record is either empty or holds exactly the fixed bond.
pub open spec fn amounts_valid(s: Seq<StakeRecord>) -> bool {
    forall|i: int|
        0 <= i < s.len() ==> {
            ||| (#[trigger] s[i]).amount == 0
            ||| s[i].amount == STAKE_BOND
        }
}

/// How many records hold a positive bond.
pub open spec fn active_count(s: Seq<StakeRecord>) -> nat
    decreases s.len(),
{
    if s.len() == 0 {
        0
    } else {
        active_count(s.drop_last()) + if s.last().amount > 0 {
            1nat
        } else {
            0nat
        }
    }
}

/// Whether some record exists for `who`, bonded or not.
pub open spec fn has_stake_record(s: Seq<StakeRecord>, who: AccountId) -> bool {
    exists|i: int| 0 <= i < s.len() && s[i].owner == who
}

/// The index of `who`'s record; meaningful only under [`owners_distinct`]
/// when [`has_stake_record`] holds.
pub open spec fn stake_index(s: Seq<StakeRecord>, who: AccountId) -> int {
    choose|i: int| 0 <= i < s.len() && s[i].owner == who
}

/// Whether `who` currently holds a positive bond, and so is jury-eligible.
pub open spec fn is_active_staker(s: Seq<StakeRecord>, who: AccountId) -> bool {
    exists|i: int| 0 <= i < s.len() && s[i].owner == who && s[i].amount > 0
}

/// The jury-eligible accounts other than `excluded`, in staking order.
pub open spec fn eligible_jurors(s: Seq<StakeRecord>, excluded: AccountId) -> Seq<AccountId>
    decreases s.len(),
{
    if s.len() == 0 {
        Seq::empty()
    } else {
        eligible_jurors(s.drop_last(), excluded) + if s.last().amount > 0 && s.last().owner
            != excluded {
            seq![s.last().owner]
        } else {
            Seq::empty()
        }
    }
}

proof fn lemma_eligible_jurors_props(s: Seq<StakeRecord>, excluded: AccountId)
    requires
        owners_distinct(s),
    ensures
        eligible_jurors(s, excluded).no_duplicates(),
        forall|x: AccountId| #[trigger]
            eligible_jurors(s, excluded).contains(x) ==> is_active_staker(s, x) && x != excluded,
    decreases s.len(),
{
    let e = eligible_jurors(s, excluded);
    if s.len() > 0 {
        let d = s.drop_last();
        let ed = eligible_jurors(d, excluded);
        assert(owners_distinct(d));
        lemma_eligible_jurors_props(d, excluded);
        assert forall|x: AccountId| is_active_staker(d, x) implies is_active_staker(s, x) by {
            let i = choose|i: int| 0 <= i < d.len() && d[i].owner == x && d[i].amount > 0;
            assert(s[i] == d[i]);
        }
        if s.last().amount > 0 && s.last().owner != excluded {
            let w = s.last().owner;
            assert(e == ed + seq![w]);
            if ed.contains(w) {
                assert(is_active_staker(d, w));
                let i = choose|i: int| 0 <= i < d.len() && d[i].owner == w && d[i].amount > 0;
                assert(s[i].owner == s[s.len() - 1].owner && i < s.len() - 1);
                assert(false);
            }
            assert forall|i: int, j: int|
                0 <= i < e.len() && 0 <= j < e.len() && i != j implies e[i] != e[j] by {
                if i < ed.len() && j < ed.len() {
                } else if i < ed.len() {
                    assert(ed.contains(ed[i]));
                } else if j < ed.len() {
                    assert(ed.contains(ed[j]));
                }
            }
            assert forall|x: AccountId| #[trigger] e.contains(x) implies is_active_staker(s, x)
                && x != excluded by {
                let i = choose|i: int| 0 <= i < e.len() && e[i] == x;
                if i < ed.len() {
                    assert(ed.contains(x));
                } else {
                    assert(x == w);
                    assert(s[s.len() - 1].owner == w && s[s.len() - 1].amount > 0);
                }
            }
        } else {
            assert(e =~= ed);
            assert forall|x: AccountId| #[trigger] e.contains(x) implies is_active_staker(s, x)
                && x != excluded by {
                assert(ed.contains(x));
            }
        }
    }
}

proof fn lemma_active_count_update(s: Seq<StakeRecord>, i: int, r: StakeRecord)
    requires
        0 <= i < s.len(),
    ensures
        active_count(s.update(i, r)) + (if s[i].amount > 0 {
            1int
        } else {
            0int
        }) == active_count(s) + (if r.amount > 0 {
            1int
        } else {
            0int
        }),
    decreases s.len(),
{
    let t = s.update(i, r);
    if i == s.len() - 1 {
        assert(t.drop_last() =~= s.drop_last());
        assert(t.last() == r);
    } else {
        lemma_active_count_update(s.drop_last(), i, r);
        assert(t.drop_last() =~= s.drop_last().update(i, r));
        assert(t.last() == s.last());
    }
}

proof fn lemma_active_count_push(s: Seq<StakeRecord>, r: StakeRecord)
    ensures
        active_count(s.push(r)) == active_count(s) + (if r.amount > 0 {
            1int
        } else {
            0int
        }),
{
    assert(s.push(r).drop_last() =~= s);
    assert(s.push(r).last() == r);
}

proof fn lemma_active_count_le_len(s: Seq<StakeRecord>)
    ensures
        active_count(s) <= s.len(),
    decreases s.len(),
{
    if s.len() > 0 {
        lemma_active_count_le_len(s.drop_last());
    }
}

proof fn lemma_active_count_pos(s: Seq<StakeRecord>, i: int)
    requires
        0 <= i < s.len(),
        s[i].amount > 0,
    ensures
        active_count(s) >= 1,
    decreases s.len(),
{
    if i < s.len() - 1 {
        lemma_active_count_pos(s.drop_last(), i);
    }
}

/// Law: in every well-formed state — the constructor establishes
/// well-formedness and every operation preserves it — the total bonded
/// value is exactly the staker count times the fixed bond: the pool only
/// ever moves in whole bonds.
pub proof fn lemma_total_staked_is_bond_multiple(d: Dispute)
    requires
        d.wf(),
    ensures
        d.staked_total == d.staker_count * STAKE_BOND,
{
}

/// Whether `now` lies past the dispute window that opened at `start`.
pub open spec fn window_expired(now: u64, start: u64) -> bool {
    now > start + DISPUTE_WINDOW_MS
}

/// The party a withdrawal owes the funds to: the buyer once a refund was
/// accepted, the seller otherwise.
pub open spec fn withdraw_claimant(e: Escrow) -> AccountId {
    if e.status == EscrowStatus::RefundAccepted {
        e.buyer
    } else {
        e.seller
    }
}

/// Whether `e`'s status lets funds leave custody at time `now`: a refund
/// was accepted; or the dispute window has passed with the escrow still
/// `Open` (abandoned-dispute default to the seller); or, within the window,
/// the buyer has already confirmed (`Completed`).
pub open spec fn withdraw_status_ok(e: Escrow, now: u64) -> bool {
    ||| e.status == EscrowStatus::RefundAccepted
    ||| (window_expired(now, e.start_timestamp) && e.status == EscrowStatus::Open)
    ||| (!window_expired(now, e.start_timestamp) && e.status == EscrowStatus::Completed)
}

/// The escrow-and-dispute protocol's whole state: the escrow registry, the
/// staker pool and the open jury assignments, plus the custody account the
/// ledger holds bonded and escrowed value on and the randomness source that
/// juries are drawn from.
pub struct Dispute {
    /// The account all custody value sits on in the ledger.
    pub custody: AccountId,
    /// The injected randomness source juries are drawn from.
    pub oracle: RandomnessSource,
    /// The next escrow id; equals how many escrows were ever opened.
    pub escrow_count: u128,
    /// The escrow records; the record with id `i` sits at index `i`.
    pub escrows: Vec<Escrow>,
    /// One record per account that ever staked, in first-stake order.
    pub stakers: Vec<StakeRecord>,
    /// How many accounts currently hold a positive bond.
    pub staker_count: u128,
    /// The sum of all bonded value; always `staker_count * STAKE_BOND`.
    pub staked_total: u128,
    /// One assignment per escrow currently in dispute.
    pub juries: Vec<JuryAssignment>,
}

/// A jury assignment is consistent with the registry: it points at an
/// escrow that is under dispute, its jurors are distinct and exclude the
/// observer, and its ballots are well-formed.
pub open spec fn assignment_wf(a: JuryAssignment, escrows: Seq<Escrow>) -> bool {
    &&& a.escrow_id < escrows.len()
    &&& escrows[a.escrow_id as int].status == EscrowStatus::RefundRequested
    &&& a.jurors@.no_duplicates()
    &&& !a.jurors@.contains(a.observer)
    &&& ballots_wf(a.ballots@, a.jurors@)
}

impl Dispute {
    /// The state's internal invariant: ids are the indices of the escrow
    /// table, stake records are per-account with bond-sized amounts, the two
    /// staking counters are the folds the data shows, and each escrow under
    /// dispute has at most one well-formed jury assignment.
    pub open spec fn wf(self) -> bool {
        &&& self.escrows@.len() == self.escrow_count
        &&& forall|i: int| 0 <= i < self.escrows@.len() ==> (#[trigger] self.escrows@[i]).id == i
        &&& owners_distinct(self.stakers@)
        &&& amounts_valid(self.stakers@)
        &&& self.staker_count == active_count(self.stakers@)
        &&& self.staked_total == self.staker_count * STAKE_BOND
        &&& forall|i: int, j: int|
            0 <= i < j < self.juries@.len() ==> self.juries@[i].escrow_id
                != self.juries@[j].escrow_id
        &&& forall|i: int|
            0 <= i < self.juries@.len() ==> assignment_wf(#[trigger] self.juries@[i], self.escrows@)
    }

    /// Whether `id` names an escrow that exists.
    pub open spec fn has_escrow(self, id: u128) -> bool {
        id < self.escrows@.len()
    }

    /// The escrow record for `id`.
    pub open spec fn escrow_at(self, id: u128) -> Escrow {
        self.escrows@[id as int]
    }

    /// Whether a jury assignment exists for escrow `id`.
    pub open spec fn has_jury(self, id: u128) -> bool {
        exists|i: int| 0 <= i < self.juries@.len() && self.juries@[i].escrow_id == id
    }

    /// The index of escrow `id`'s jury assignment; meaningful only under
    /// [`Dispute::wf`] when [`Dispute::has_jury`] holds.
    pub open spec fn jury_index(self, id: u128) -> int {
        choose|i: int| 0 <= i < self.juries@.len() && self.juries@[i].escrow_id == id
    }

    /// The assignment for escrow `id`.
    pub open spec fn jury_at(self, id: u128) -> JuryAssignment {
        self.juries@[self.jury_index(id)]
    }

    /// The custody account and randomness source are fixed at construction.
    pub open spec fn same_config(self, other: Dispute) -> bool {
        &&& self.custody == other.custody
        &&& self.oracle == other.oracle
    }

    /// The staker pool, with its two counters, is unchanged.
    pub open spec fn same_staking(self, other: Dispute) -> bool {
        &&& self.stakers@ == other.stakers@
        &&& self.staker_count == other.staker_count
        &&& self.staked_total == other.staked_total
    }

    /// The escrow registry is unchanged.
    pub open spec fn same_escrows(self, other: Dispute) -> bool {
        &&& self.escrows@ == other.escrows@
        &&& self.escrow_count == other.escrow_count
    }

    /// The jury assignments are unchanged.
    pub open spec fn same_juries(self, other: Dispute) -> bool {
        self.juries@ == other.juries@
    }

    /// A fresh protocol state: no escrows, no stakers, no juries.
    pub fn new(oracle: RandomnessSource, custody: AccountId) -> (r: Dispute)
        ensures
            r.wf(),
            r.custody == custody,
            r.oracle == oracle,
            r.escrow_count == 0,
            r.escrows@.len() == 0,
            r.stakers@.len() == 0,
            r.staker_count == 0,
            r.staked_total == 0,
            r.juries@.len() == 0,
    {
        Dispute {
            custody,
            oracle,
            escrow_count: 0,
            escrows: Vec::new(),
            stakers: Vec::new(),
            staker_count: 0,
            staked_total: 0,
            juries: Vec::new(),
        }
    }

    /// The sum of all currently bonded value.
    pub fn total_staked(&self) -> (r: u128)
        ensures
            r == self.staked_total,
    {
        self.staked_total
    }

    /// How many accounts currently hold a positive bond.
    pub fn stakers_amount(&self) -> (r: u128)
        ensures
            r == self.staker_count,
    {
        self.staker_count
    }

    /// How many escrows were ever opened; also the next escrow id.
    pub fn escrow_amount(&self) -> (r: u128)
        ensures
            r == self.escrow_count,
    {
        self.escrow_count
    }

    /// Opens an escrow: `caller` becomes the buyer, `payment` moves from the
    /// caller into custody, and the next sequential id is assigned with the
    /// escrow `Open`. If the ledger refuses the move, the escrow is not
    /// created and nothing changes.
    pub fn open_escrow(
        &mut self,
        ledger: &mut Ledger,
        caller: AccountId,
        now: u64,
        seller: AccountId,
        payment: u128,
        metadata: String,
    ) -> (r: Result<u128, DisputeError>)
        requires
            old(self).wf(),
        ensures
            final(self).wf(),
            old(self).same_config(*final(self)),
            old(self).same_staking(*final(self)),
            old(self).same_juries(*final(self)),
            follows_status_edges(old(self).escrows@, final(self).escrows@),
            r is Ok <==> old(ledger).can_transfer(caller, old(self).custody, payment),
            r is Err ==> r == Err::<u128, DisputeError>(DisputeError::TransferFailed)
                && *final(self) == *old(self) && *final(ledger) == *old(ledger),
            r is Ok ==> {
                &&& r == Ok::<u128, DisputeError>(old(self).escrow_count)
                &&& final(ledger).balances@ == old(ledger).transferred(
                    caller,
                    old(self).custody,
                    payment,
                )
                &&& final(self).escrow_count == old(self).escrow_count + 1
                &&& final(self).escrows@ == old(self).escrows@.push(
                    (Escrow {
                        id: old(self).escrow_count,
                        buyer: caller,
                        seller,
                        status: EscrowStatus::Open,
                        amount: payment,
                        metadata,
                        start_timestamp: now,
                    }),
                )
            },
    {
        let id = self.escrow_count;
        match ledger.transfer_from(caller, self.custody, payment) {
            Ok(()) => {},
            Err(()) => {
                return Err(DisputeError::TransferFailed);
            },
        }
        let escrow = Escrow {
            id,
            buyer: caller,
            seller,
            status: EscrowStatus::Open,
            amount: payment,
            metadata,
            start_timestamp: now,
        };
        proof {
            vstd::std_specs::vec::axiom_spec_len(&self.escrows);
        }
        self.escrows.push(escrow);
        self.escrow_count = id + 1;
        Ok(id)
    }

    /// The buyer confirms the trade: the escrow moves `Open -> Completed`,
    /// releasing the seller's within-window withdrawal path.
    pub fn complete_escrow(&mut self, caller: AccountId, id: u128) -> (r: Result<
        (),
        DisputeError,
    >)
        requires
            old(self).wf(),
        ensures
            final(self).wf(),
            old(self).same_config(*final(self)),
            old(self).same_staking(*final(self)),
            old(self).same_juries(*final(self)),
            follows_status_edges(old(self).escrows@, final(self).escrows@),
            r is Ok <==> old(self).has_escrow(id) && old(self).escrow_at(id).buyer == caller
                && old(self).escrow_at(id).status == EscrowStatus::Open,
            !old(self).has_escrow(id) ==> r == Err::<(), DisputeError>(DisputeError::NotFound),
            old(self).has_escrow(id) && old(self).escrow_at(id).buyer != caller ==> r == Err::<
                (),
                DisputeError,
            >(DisputeError::Unauthorized),
            old(self).has_escrow(id) && old(self).escrow_at(id).buyer == caller && old(
                self,
            ).escrow_at(id).status != EscrowStatus::Open ==> r == Err::<(), DisputeError>(
                DisputeError::InvalidState,
            ),
            r is Err ==> *final(self) == *old(self),
            r is Ok ==> final(self).escrow_count == old(self).escrow_count && final(self).escrows@
                == old(self).escrows@.update(
                id as int,
                (Escrow { status: EscrowStatus::Completed, ..old(self).escrow_at(id) }),
            ),
    {
        if id >= self.escrows.len() as u128 {
            return Err(DisputeError::NotFound);
        }
        let idx = id as usize;
        if self.escrows[idx].buyer != caller {
            return Err(DisputeError::Unauthorized);
        }
        if self.escrows[idx].status != EscrowStatus::Open {
            return Err(DisputeError::InvalidState);
        }
        self.escrows[idx].status = EscrowStatus::Completed;
        Ok(())
    }

    /// Releases an escrow's funds from custody: to the buyer once a refund
    /// was accepted, otherwise to the seller — after the window while still
    /// `Open` (abandoned dispute), or within the window once `Completed`.
    /// The escrow moves to `Claimed`, the one terminal status, so funds can
    /// never be released twice.
    pub fn withdraw_escrow(
        &mut self,
        ledger: &mut Ledger,
        caller: AccountId,
        now: u64,
        id: u128,
    ) -> (r: Result<(), DisputeError>)
        requires
            old(self).wf(),
        ensures
            final(self).wf(),
            old(self).same_config(*final(self)),
            old(self).same_staking(*final(self)),
            old(self).same_juries(*final(self)),
            follows_status_edges(old(self).escrows@, final(self).escrows@),
            r is Ok <==> old(self).has_escrow(id) && caller == withdraw_claimant(
                old(self).escrow_at(id),
            ) && withdraw_status_ok(old(self).escrow_at(id), now) && old(ledger).can_transfer(
                old(self).custody,
                caller,
                old(self).escrow_at(id).amount,
            ),
            !old(self).has_escrow(id) ==> r == Err::<(), DisputeError>(DisputeError::NotFound),
            old(self).has_escrow(id) && caller != withdraw_claimant(old(self).escrow_at(id))
                ==> r == Err::<(), DisputeError>(DisputeError::Unauthorized),
            old(self).has_escrow(id) && caller == withdraw_claimant(old(self).escrow_at(id))
                && !withdraw_status_ok(old(self).escrow_at(id), now) ==> r == Err::<
                (),
                DisputeError,
            >(
                if old(self).escrow_at(id).status == EscrowStatus::Open || old(self).escrow_at(
                    id,
                ).status == EscrowStatus::Completed {
                    DisputeError::WindowViolation
                } else {
                    DisputeError::InvalidState
                },
            ),
            old(self).has_escrow(id) && caller == withdraw_claimant(old(self).escrow_at(id))
                && withdraw_status_ok(old(self).escrow_at(id), now) && !old(ledger).can_transfer(
                old(self).custody,
                caller,
                old(self).escrow_at(id).amount,
            ) ==> r == Err::<(), DisputeError>(DisputeError::TransferFailed),
            r is Err ==> *final(self) == *old(self) && *final(ledger) == *old(ledger),
            r is Ok ==> {
                &&& final(ledger).balances@ == old(ledger).transferred(
                    old(self).custody,
                    caller,
                    old(self).escrow_at(id).amount,
                )
                &&& final(self).escrow_count == old(self).escrow_count
                &&& final(self).escrows@ == old(self).escrows@.update(
                    id as int,
                    (Escrow { status: EscrowStatus::Claimed, ..old(self).escrow_at(id) }),
                )
            },
    {
        if id >= self.escrows.len() as u128 {
            return Err(DisputeError::NotFound);
        }
        let idx = id as usize;
        let status = self.escrows[idx].status;
        if status == EscrowStatus::RefundAccepted {
            if self.escrows[idx].buyer != caller {
                return Err(DisputeError::Unauthorized);
            }
        } else {
            if self.escrows[idx].seller != caller {
                return Err(DisputeError::Unauthorized);
            }
            let start = self.escrows[idx].start_timestamp;
            let expired = now > start && now - start > DISPUTE_WINDOW_MS;
            if expired {
                if status != EscrowStatus::Open {
                    return Err(
                        if status == EscrowStatus::Completed {
                            DisputeError::WindowViolation
                        } else {
                            DisputeError::InvalidState
                        },
                    );
                }
            } else {
                if status != EscrowStatus::Completed {
                    return Err(
                        if status == EscrowStatus::Open {
                            DisputeError::WindowViolation
                        } else {
                            DisputeError::InvalidState
                        },
                    );
                }
            }
        }
        let amount = self.escrows[idx].amount;
        match ledger.transfer_from(self.custody, caller, amount) {
            Ok(()) => {},
            Err(()) => {
                return Err(DisputeError::TransferFailed);
            },
        }
        self.escrows[idx].status = EscrowStatus::Claimed;
        Ok(())
    }

    /// The index of `who`'s stake record, if one exists.
    fn find_stake_index(&self, who: AccountId) -> (r: Option<usize>)
        ensures
            match r {
                Some(i) => i < self.stakers@.len() && self.stakers@[i as int].owner == who,
                None => !has_stake_record(self.stakers@, who),
            },
    {
        let mut i: usize = 0;
        while i < self.stakers.len()
            invariant
                i <= self.stakers@.len(),
                forall|j: int| 0 <= j < i ==> (#[trigger] self.stakers@[j]).owner != who,
            decreases self.stakers@.len() - i,
        {
            if self.stakers[i].owner == who {
                return Some(i);
            }
            i = i + 1;
        }
        None
    }

    /// The jury-eligible accounts other than `excluded`, in staking order.
    fn eligible_juror_pool(&self, excluded: AccountId) -> (r: Vec<AccountId>)
        ensures
            r@ == eligible_jurors(self.stakers@, excluded),
    {
        let mut out: Vec<AccountId> = Vec::new();
        let mut i: usize = 0;
        while i < self.stakers.len()
            invariant
                i <= self.stakers@.len(),
                out@ == eligible_jurors(self.stakers@.subrange(0, i as int), excluded),
            decreases self.stakers@.len() - i,
        {
            let record = self.stakers[i];
            proof {
                let sub = self.stakers@.subrange(0, i as int + 1);
                assert(sub.drop_last() =~= self.stakers@.subrange(0, i as int));
                assert(sub.last() == self.stakers@[i as int]);
            }
            if record.amount > 0 && record.owner != excluded {
                out.push(record.owner);
                proof {
                    assert(out@ =~= eligible_jurors(
                        self.stakers@.subrange(0, i as int + 1),
                        excluded,
                    ));
                }
            } else {
                proof {
                    assert(out@ =~= eligible_jurors(
                        self.stakers@.subrange(0, i as int + 1),
                        excluded,
                    ));
                }
            }
            i = i + 1;
        }
        proof {
            assert(self.stakers@.subrange(0, self.stakers@.len() as int) =~= self.stakers@);
        }
        out
    }

    /// Draws the jury from an eligible pool: one random index per seat, the
    /// pick removed from the pool each time so no juror repeats.
    fn draw_jury(&self, pool: Vec<AccountId>) -> (r: Vec<AccountId>)
        requires
            pool@.no_duplicates(),
        ensures
            r@.no_duplicates(),
            forall|k: int| 0 <= k < r@.len() ==> pool@.contains(#[trigger] r@[k]),
            r@.len() == if pool@.len() < JURY_SIZE {
                pool@.len() as int
            } else {
                JURY_SIZE as int
            },
    {
        let ghost pool_view = pool@;
        let mut remaining = pool;
        let mut jurors: Vec<AccountId> = Vec::new();
        let target: usize = if remaining.len() < JURY_SIZE {
            remaining.len()
        } else {
            JURY_SIZE
        };
        while jurors.len() < target
            invariant
                target <= jurors@.len() + remaining@.len(),
                jurors@.len() <= target,
                jurors@.no_duplicates(),
                remaining@.no_duplicates(),
                forall|k: int, l: int|
                    0 <= k < jurors@.len() && 0 <= l < remaining@.len() ==> jurors@[k]
                        != remaining@[l],
                forall|k: int| 0 <= k < jurors@.len() ==> pool_view.contains(#[trigger] jurors@[k]),
                forall|k: int|
                    0 <= k < remaining@.len() ==> pool_view.contains(#[trigger] remaining@[k]),
            decreases target - jurors@.len(),
        {
            let n = remaining.len();
            let max_idx: u8 = if n - 1 > 255 {
                255u8
            } else {
                (n - 1) as u8
            };
            let pick_at = self.get_random_number_in_range(max_idx) as usize;
            let ghost before = remaining@;
            let pick = remaining.remove(pick_at);
            jurors.push(pick);
            proof {
                before.remove_ensures(pick_at as int);
            }
        }
        jurors
    }

    /// Bonds the caller as a jury-eligible staker. Only exactly the fixed
    /// bond is accepted, a second bond while one is active is rejected, and
    /// the bond moves from the caller into custody before anything is
    /// recorded. A returned record left by an earlier unstake is re-used.
    pub fn stake(&mut self, ledger: &mut Ledger, caller: AccountId, amount: u128) -> (r: Result<
        (),
        DisputeError,
    >)
        requires
            old(self).wf(),
        ensures
            final(self).wf(),
            old(self).same_config(*final(self)),
            old(self).same_escrows(*final(self)),
            old(self).same_juries(*final(self)),
            r is Ok <==> amount == STAKE_BOND && !is_active_staker(old(self).stakers@, caller)
                && old(ledger).can_transfer(caller, old(self).custody, STAKE_BOND),
            amount != STAKE_BOND ==> r == Err::<(), DisputeError>(DisputeError::InvalidStakeAmount),
            amount == STAKE_BOND && is_active_staker(old(self).stakers@, caller) ==> r == Err::<
                (),
                DisputeError,
            >(DisputeError::InvalidState),
            amount == STAKE_BOND && !is_active_staker(old(self).stakers@, caller) && !old(
                ledger,
            ).can_transfer(caller, old(self).custody, STAKE_BOND) ==> r == Err::<
                (),
                DisputeError,
            >(DisputeError::TransferFailed),
            r is Err ==> *final(self) == *old(self) && *final(ledger) == *old(ledger),
            r is Ok ==> {
                &&& final(ledger).balances@ == old(ledger).transferred(
                    caller,
                    old(self).custody,
                    STAKE_BOND,
                )
                &&& final(self).staker_count == old(self).staker_count + 1
                &&& final(self).staked_total == old(self).staked_total + STAKE_BOND
                &&& is_active_staker(final(self).stakers@, caller)
                &&& if has_stake_record(old(self).stakers@, caller) {
                    final(self).stakers@ == old(self).stakers@.update(
                        stake_index(old(self).stakers@, caller),
                        (StakeRecord { owner: caller, amount: STAKE_BOND }),
                    )
                } else {
                    final(self).stakers@ == old(self).stakers@.push(
                        (StakeRecord { owner: caller, amount: STAKE_BOND }),
                    )
                }
            },
    {
        if amount != STAKE_BOND {
            return Err(DisputeError::InvalidStakeAmount);
        }
        let found = self.find_stake_index(caller);
        match found {
            Some(i) => {
                if self.stakers[i].amount > 0 {
                    return Err(DisputeError::InvalidState);
                }
            },
            None => {},
        }
        match ledger.transfer_from(caller, self.custody, amount) {
            Ok(()) => {},
            Err(()) => {
                return Err(DisputeError::TransferFailed);
            },
        }
        proof {
            lemma_active_count_le_len(self.stakers@);
            vstd::std_specs::vec::axiom_spec_len(&self.stakers);
            assert((active_count(self.stakers@) + 1) * STAKE_BOND <= u128::MAX)
                by (nonlinear_arith)
                requires
                    active_count(self.stakers@) + 1 <= 0x10000000000000000int,
            ;
        }
        match found {
            Some(i) => {
                proof {
                    lemma_active_count_update(
                        self.stakers@,
                        i as int,
                        StakeRecord { owner: caller, amount: STAKE_BOND },
                    );
                    let j = stake_index(self.stakers@, caller);
                    assert(self.stakers@[j].owner == caller && 0 <= j < self.stakers@.len());
                    assert(j == i as int);
                }
                self.stakers[i] = StakeRecord { owner: caller, amount };
            },
            None => {
                proof {
                    lemma_active_count_push(
                        self.stakers@,
                        StakeRecord { owner: caller, amount: STAKE_BOND },
                    );
                }
                self.stakers.push(StakeRecord { owner: caller, amount });
            },
        }
        self.staker_count = self.staker_count + 1;
        self.staked_total = self.staked_total + amount;
        proof {
            assert(self.staker_count * STAKE_BOND == (self.staker_count - 1) * STAKE_BOND
                + STAKE_BOND) by (nonlinear_arith);
        }
        Ok(())
    }

    /// Returns the caller's bond: the fixed bond moves from custody back to
    /// the caller, the record's amount drops to zero (the record itself
    /// persists), and both staking counters fall by one bond's worth.
    pub fn unstake(&mut self, ledger: &mut Ledger, caller: AccountId) -> (r: Result<
        (),
        DisputeError,
    >)
        requires
            old(self).wf(),
        ensures
            final(self).wf(),
            old(self).same_config(*final(self)),
            old(self).same_escrows(*final(self)),
            old(self).same_juries(*final(self)),
            r is Ok <==> is_active_staker(old(self).stakers@, caller) && old(ledger).can_transfer(
                old(self).custody,
                caller,
                STAKE_BOND,
            ),
            !is_active_staker(old(self).stakers@, caller) ==> r == Err::<(), DisputeError>(
                DisputeError::EmptyStakeEntry,
            ),
            is_active_staker(old(self).stakers@, caller) && !old(ledger).can_transfer(
                old(self).custody,
                caller,
                STAKE_BOND,
            ) ==> r == Err::<(), DisputeError>(DisputeError::TransferFailed),
            r is Err ==> *final(self) == *old(self) && *final(ledger) == *old(ledger),
            r is Ok ==> {
                &&& final(ledger).balances@ == old(ledger).transferred(
                    old(self).custody,
                    caller,
                    STAKE_BOND,
                )
                &&& final(self).staker_count == old(self).staker_count - 1
                &&& final(self).staked_total == old(self).staked_total - STAKE_BOND
                &&& final(self).stakers@ == old(self).stakers@.update(
                    stake_index(old(self).stakers@, caller),
                    (StakeRecord { owner: caller, amount: 0 }),
                )
            },
    {
        let found = self.find_stake_index(caller);
        let i = match found {
            Some(i) => i,
            None => {
                return Err(DisputeError::EmptyStakeEntry);
            },
        };
        if self.stakers[i].amount == 0 {
            return Err(DisputeError::EmptyStakeEntry);
        }
        match ledger.transfer_from(self.custody, caller, STAKE_BOND) {
            Ok(()) => {},
            Err(()) => {
                return Err(DisputeError::TransferFailed);
            },
        }
        proof {
            lemma_active_count_pos(self.stakers@, i as int);
            lemma_active_count_update(
                self.stakers@,
                i as int,
                StakeRecord { owner: caller, amount: 0 },
            );
            let j = stake_index(self.stakers@, caller);
            assert(self.stakers@[j].owner == caller && 0 <= j < self.stakers@.len());
            assert(j == i as int);
            assert(self.staker_count * STAKE_BOND == (self.staker_count - 1) * STAKE_BOND
                + STAKE_BOND) by (nonlinear_arith);
        }
        self.stakers[i] = StakeRecord { owner: caller, amount: 0 };
        self.staker_count = self.staker_count - 1;
        self.staked_total = self.staked_total - STAKE_BOND;
        Ok(())
    }

    /// The buyer disputes an `Open` escrow within the window: the escrow
    /// moves to `RefundRequested` and a jury of bonded stakers — never
    /// including the requester, who is recorded only as a non-voting
    /// observer — is drawn from the randomness source.
    pub fn request_escrow_refund(&mut self, caller: AccountId, now: u64, id: u128) -> (r: Result<
        (),
        DisputeError,
    >)
        requires
            old(self).wf(),
        ensures
            final(self).wf(),
            old(self).same_config(*final(self)),
            old(self).same_staking(*final(self)),
            follows_status_edges(old(self).escrows@, final(self).escrows@),
            r is Ok <==> old(self).has_escrow(id) && old(self).escrow_at(id).buyer == caller
                && old(self).escrow_at(id).status == EscrowStatus::Open && !window_expired(
                now,
                old(self).escrow_at(id).start_timestamp,
            ),
            !old(self).has_escrow(id) ==> r == Err::<(), DisputeError>(DisputeError::NotFound),
            old(self).has_escrow(id) && old(self).escrow_at(id).buyer != caller ==> r == Err::<
                (),
                DisputeError,
            >(DisputeError::Unauthorized),
            old(self).has_escrow(id) && old(self).escrow_at(id).buyer == caller && old(
                self,
            ).escrow_at(id).status != EscrowStatus::Open ==> r == Err::<(), DisputeError>(
                DisputeError::InvalidState,
            ),
            old(self).has_escrow(id) && old(self).escrow_at(id).buyer == caller && old(
                self,
            ).escrow_at(id).status == EscrowStatus::Open && window_expired(
                now,
                old(self).escrow_at(id).start_timestamp,
            ) ==> r == Err::<(), DisputeError>(DisputeError::WindowExpired),
            r is Err ==> *final(self) == *old(self),
            r is Ok ==> {
                &&& final(self).escrow_count == old(self).escrow_count
                &&& final(self).escrows@ == old(self).escrows@.update(
                    id as int,
                    (Escrow { status: EscrowStatus::RefundRequested, ..old(self).escrow_at(id) }),
                )
                &&& final(self).juries@.len() == old(self).juries@.len() + 1
                &&& final(self).juries@.drop_last() == old(self).juries@
                &&& {
                    let a = final(self).juries@.last();
                    &&& a.escrow_id == id
                    &&& a.observer == caller
                    &&& a.ballots@.len() == 0
                    &&& a.jurors@.no_duplicates()
                    &&& !a.jurors@.contains(caller)
                    &&& forall|k: int|
                        0 <= k < a.jurors@.len() ==> is_active_staker(
                            old(self).stakers@,
                            #[trigger] a.jurors@[k],
                        )
                    &&& a.jurors@.len() == if eligible_jurors(old(self).stakers@, caller).len()
                        < JURY_SIZE {
                        eligible_jurors(old(self).stakers@, caller).len() as int
                    } else {
                        JURY_SIZE as int
                    }
                }
            },
    {
        if id >= self.escrows.len() as u128 {
            return Err(DisputeError::NotFound);
        }
        let idx = id as usize;
        if self.escrows[idx].buyer != caller {
            return Err(DisputeError::Unauthorized);
        }
        if self.escrows[idx].status != EscrowStatus::Open {
            return Err(DisputeError::InvalidState);
        }
        let start = self.escrows[idx].start_timestamp;
        if now > start && now - start > DISPUTE_WINDOW_MS {
            return Err(DisputeError::WindowExpired);
        }
        proof {
            lemma_eligible_jurors_props(self.stakers@, caller);
        }
        let pool = self.eligible_juror_pool(caller);
        let jurors = self.draw_jury(pool);
        self.escrows[idx].status = EscrowStatus::RefundRequested;
        let assignment = JuryAssignment { escrow_id: id, observer: caller, jurors, ballots: Vec::new() };
        self.juries.push(assignment);
        Ok(())
    }

    /// The index of escrow `id`'s jury assignment, if one exists.
    fn find_jury_index(&self, id: u128) -> (r: Option<usize>)
        ensures
            match r {
                Some(i) => i < self.juries@.len() && self.juries@[i as int].escrow_id == id,
                None => !self.has_jury(id),
            },
    {
        let mut i: usize = 0;
        while i < self.juries.len()
            invariant
                i <= self.juries@.len(),
                forall|j: int| 0 <= j < i ==> (#[trigger] self.juries@[j]).escrow_id != id,
            decreases self.juries@.len() - i,
        {
            if self.juries[i].escrow_id == id {
                return Some(i);
            }
            i = i + 1;
        }
        None
    }

    /// A juror casts a ballot on a disputed escrow: `true` accepts the
    /// refund, `false` refuses it. Each juror votes exactly once.
    pub fn vote_escrow(&mut self, caller: AccountId, id: u128, ballot: bool) -> (r: Result<
        (),
        DisputeError,
    >)
        requires
            old(self).wf(),
        ensures
            final(self).wf(),
            old(self).same_config(*final(self)),
            old(self).same_staking(*final(self)),
            old(self).same_escrows(*final(self)),
            r is Ok <==> old(self).has_jury(id) && old(self).jury_at(id).jurors@.contains(caller)
                && !has_voted(old(self).jury_at(id).ballots@, caller),
            !old(self).has_jury(id) ==> r == Err::<(), DisputeError>(DisputeError::NotFound),
            old(self).has_jury(id) && !old(self).jury_at(id).jurors@.contains(caller) ==> r
                == Err::<(), DisputeError>(DisputeError::NotJuror),
            old(self).has_jury(id) && old(self).jury_at(id).jurors@.contains(caller) && has_voted(
                old(self).jury_at(id).ballots@,
                caller,
            ) ==> r == Err::<(), DisputeError>(DisputeError::AlreadyVoted),
            r is Err ==> *final(self) == *old(self),
            r is Ok ==> {
                let j = old(self).jury_index(id);
                &&& final(self).juries@.len() == old(self).juries@.len()
                &&& forall|k: int|
                    0 <= k < old(self).juries@.len() && k != j ==> final(self).juries@[k] == old(
                        self,
                    ).juries@[k]
                &&& final(self).juries@[j].escrow_id == id
                &&& final(self).juries@[j].observer == old(self).jury_at(id).observer
                &&& final(self).juries@[j].jurors@ == old(self).jury_at(id).jurors@
                &&& final(self).juries@[j].ballots@ == old(self).jury_at(id).ballots@.push(
                    (EscrowArbitration { jury: caller, votes: ballot }),
                )
            },
    {
        let i = match self.find_jury_index(id) {
            Some(i) => i,
            None => {
                return Err(DisputeError::NotFound);
            },
        };
        proof {
            assert(self.has_jury(id));
            let j = self.jury_index(id);
            assert(0 <= j < self.juries@.len() && self.juries@[j].escrow_id == id);
            assert(j == i as int);
        }
        let mut is_juror = false;
        let mut k: usize = 0;
        while k < self.juries[i].jurors.len()
            invariant
                i < self.juries@.len(),
                k <= self.juries@[i as int].jurors@.len(),
                !is_juror ==> forall|l: int|
                    0 <= l < k ==> self.juries@[i as int].jurors@[l] != caller,
                is_juror ==> self.juries@[i as int].jurors@.contains(caller),
            decreases self.juries@[i as int].jurors@.len() - k,
        {
            if self.juries[i].jurors[k] == caller {
                is_juror = true;
            }
            k = k + 1;
        }
        if !is_juror {
            return Err(DisputeError::NotJuror);
        }
        let mut voted = false;
        let mut b: usize = 0;
        while b < self.juries[i].ballots.len()
            invariant
                i < self.juries@.len(),
                b <= self.juries@[i as int].ballots@.len(),
                !voted ==> forall|l: int|
                    0 <= l < b ==> (#[trigger] self.juries@[i as int].ballots@[l]).jury != caller,
                voted ==> has_voted(self.juries@[i as int].ballots@, caller),
            decreases self.juries@[i as int].ballots@.len() - b,
        {
            if self.juries[i].ballots[b].jury == caller {
                voted = true;
            }
            b = b + 1;
        }
        if voted {
            return Err(DisputeError::AlreadyVoted);
        }
        self.juries[i].ballots.push(EscrowArbitration { jury: caller, votes: ballot });
        Ok(())
    }

    /// Finalizes a dispute once every juror has voted: a strict majority
    /// for acceptance moves the escrow to `RefundAccepted`, anything else —
    /// including a tie — to `RefundRefused`, and the jury assignment is
    /// cleared.
    pub fn complete_escrow_vote(&mut self, id: u128) -> (r: Result<(), DisputeError>)
        requires
            old(self).wf(),
        ensures
            final(self).wf(),
            old(self).same_config(*final(self)),
            old(self).same_staking(*final(self)),
            follows_status_edges(old(self).escrows@, final(self).escrows@),
            r is Ok <==> old(self).has_jury(id) && (forall|k: int|
                0 <= k < old(self).jury_at(id).jurors@.len() ==> has_voted(
                    old(self).jury_at(id).ballots@,
                    #[trigger] old(self).jury_at(id).jurors@[k],
                )),
            !old(self).has_jury(id) ==> r == Err::<(), DisputeError>(DisputeError::NotFound),
            old(self).has_jury(id) && !(forall|k: int|
                0 <= k < old(self).jury_at(id).jurors@.len() ==> has_voted(
                    old(self).jury_at(id).ballots@,
                    #[trigger] old(self).jury_at(id).jurors@[k],
                )) ==> r == Err::<(), DisputeError>(DisputeError::InvalidState),
            r is Err ==> *final(self) == *old(self),
            r is Ok ==> {
                let verdict = if majority_accepts(old(self).jury_at(id).ballots@) {
                    EscrowStatus::RefundAccepted
                } else {
                    EscrowStatus::RefundRefused
                };
                &&& final(self).escrow_count == old(self).escrow_count
                &&& final(self).escrows@ == old(self).escrows@.update(
                    id as int,
                    (Escrow { status: verdict, ..old(self).escrow_at(id) }),
                )
                &&& final(self).juries@ == old(self).juries@.remove(old(self).jury_index(id))
            },
    {
        let i = match self.find_jury_index(id) {
            Some(i) => i,
            None => {
                return Err(DisputeError::NotFound);
            },
        };
        proof {
            assert(self.has_jury(id));
            let j = self.jury_index(id);
            assert(0 <= j < self.juries@.len() && self.juries@[j].escrow_id == id);
            assert(j == i as int);
        }
        let mut k: usize = 0;
        while k < self.juries[i].jurors.len()
            invariant
                *self == *old(self),
                old(self).wf(),
                i < self.juries@.len(),
                self.juries@[i as int].escrow_id == id,
                k <= self.juries@[i as int].jurors@.len(),
                forall|l: int|
                    0 <= l < k ==> has_voted(
                        self.juries@[i as int].ballots@,
                        #[trigger] self.juries@[i as int].jurors@[l],
                    ),
            decreases self.juries@[i as int].jurors@.len() - k,
        {
            let juror = self.juries[i].jurors[k];
            let mut voted = false;
            let mut b: usize = 0;
            while b < self.juries[i].ballots.len()
                invariant
                    *self == *old(self),
                    old(self).wf(),
                    i < self.juries@.len(),
                    self.juries@[i as int].escrow_id == id,
                    k < self.juries@[i as int].jurors@.len(),
                    juror == self.juries@[i as int].jurors@[k as int],
                    b <= self.juries@[i as int].ballots@.len(),
                    voted ==> has_voted(self.juries@[i as int].ballots@, juror),
                    !voted ==> forall|l: int|
                        0 <= l < b ==> (#[trigger] self.juries@[i as int].ballots@[l]).jury
                            != juror,
                decreases self.juries@[i as int].ballots@.len() - b,
            {
                if self.juries[i].ballots[b].jury == juror {
                    voted = true;
                }
                b = b + 1;
            }
            if !voted {
                proof {
                    assert(!has_voted(self.juries@[i as int].ballots@, juror));
                    assert(old(self).has_jury(id));
                    let j = old(self).jury_index(id);
                    assert(0 <= j < old(self).juries@.len() && old(self).juries@[j].escrow_id
                        == id);
                    assert(j == i as int);
                    assert(old(self).jury_at(id).jurors@[k as int] == juror);
                }
                return Err(DisputeError::InvalidState);
            }
            k = k + 1;
        }
        let total = self.juries[i].ballots.len();
        let mut accepts: usize = 0;
        let mut b: usize = 0;
        while b < total
            invariant
                *self == *old(self),
                old(self).wf(),
                i < self.juries@.len(),
                self.juries@[i as int].escrow_id == id,
                total == self.juries@[i as int].ballots@.len(),
                b <= total,
                accepts <= b,
                accepts == count_accepts(self.juries@[i as int].ballots@.subrange(0, b as int)),
            decreases total - b,
        {
            proof {
                let ballots = self.juries@[i as int].ballots@;
                assert(ballots.subrange(0, b as int + 1).drop_last() =~= ballots.subrange(
                    0,
                    b as int,
                ));
                assert(ballots.subrange(0, b as int + 1).last() == ballots[b as int]);
            }
            if self.juries[i].ballots[b].votes {
                accepts = accepts + 1;
            }
            b = b + 1;
        }
        proof {
            let ballots = self.juries@[i as int].ballots@;
            assert(ballots.subrange(0, ballots.len() as int) =~= ballots);
        }
        let verdict = if accepts > total - accepts {
            EscrowStatus::RefundAccepted
        } else {
            EscrowStatus::RefundRefused
        };
        proof {
            assert(assignment_wf(self.juries@[i as int], self.escrows@));
            assert(self.escrows@[id as int].status == EscrowStatus::RefundRequested);
            vstd::std_specs::vec::axiom_spec_len(&self.escrows);
        }
        let escrow_idx = id as usize;
        self.escrows[escrow_idx].status = verdict;
        self.juries.remove(i);
        Ok(())
    }

    /// The randomness published for round `key`, if any.
    pub fn get_random_value(&self, key: u64) -> (r: Option<Vec<u8>>)
        ensures
            match r {
                Some(v) => self.oracle.spec_value_for_round(key) == Some(v@),
                None => self.oracle.spec_value_for_round(key) is None,
            },
    {
        self.oracle.value_for_round(key)
    }

    /// The latest round the randomness source has published.
    pub fn fetch_latest(&self) -> (r: u64)
        ensures
            r == self.oracle.latest,
    {
        self.oracle.latest_round()
    }

    /// A random index in `[0, max_value]`, derived from the latest round's
    /// first byte `b`: `0` when the source has published nothing for the
    /// latest round (degraded mode, not an error), `max_value` when
    /// `b >= max_value` (the documented saturating bias at the top bucket),
    /// and `b` itself otherwise.
    pub fn get_random_number_in_range(&self, max_value: u8) -> (r: u8)
        ensures
            r <= max_value,
            match self.oracle.spec_value_for_round(self.oracle.latest) {
                None => r == 0,
                Some(bytes) => {
                    let b = if bytes.len() == 0 {
                        0u8
                    } else {
                        bytes[0]
                    };
                    r == if b >= max_value {
                        max_value
                    } else {
                        b
                    }
                },
            },
    {
        let hash_value_option = self.get_random_value(self.fetch_latest());

        let hash_value = match hash_value_option {
            Some(value) => value,
            None => {
                return 0;
            },
        };

        let first_byte = if hash_value.len() == 0 {
            0u8
        } else {
            hash_value[0]
        };

        if first_byte >= max_value {
            return max_value;
        }

        if max_value == u8::MAX {
            return first_byte;
        }

        let bucket = max_value + 1;
        proof {
            assert(first_byte % bucket == first_byte) by (nonlinear_arith)
                requires
                    0 <= first_byte < bucket,
            ;
        }
        first_byte % bucket
    }
}

} // verus!
