use dispute::Dispute;
use dispute::EscrowStatus;
use dispute::Ledger;
use dispute::RandomnessSource;
use dispute::DisputeError;
use dispute::ONE_DAY_MS;
use dispute::STAKE_BOND;

const CUSTODY: usize = 0;
const BUYER: usize = 1;
const SELLER: usize = 2;
const STRANGER: usize = 6;

fn empty_oracle() -> RandomnessSource {
    RandomnessSource::new(Vec::new(), 0)
}

fn opened() -> (Ledger, Dispute) {
    let mut ledger = Ledger::new(vec![0, 1000, 50, STAKE_BOND, STAKE_BOND, STAKE_BOND, 5]);
    let mut d = Dispute::new(RandomnessSource::new(vec![vec![0u8]], 0), CUSTODY);
    d.open_escrow(&mut ledger, BUYER, 0, SELLER, 100, "trade".to_string()).unwrap();
    (ledger, d)
}

#[test]
fn unknown_escrow_is_not_found() {
    let (mut ledger, mut d) = opened();
    assert_eq!(d.complete_escrow(BUYER, 7), Err(DisputeError::NotFound));
    assert_eq!(
        d.withdraw_escrow(&mut ledger, SELLER, 0, 7),
        Err(DisputeError::NotFound)
    );
    assert_eq!(
        d.request_escrow_refund(BUYER, 0, 7),
        Err(DisputeError::NotFound)
    );
}

#[test]
fn wrong_party_is_unauthorized() {
    let (mut ledger, mut d) = opened();
    assert_eq!(d.complete_escrow(STRANGER, 0), Err(DisputeError::Unauthorized));
    assert_eq!(
        d.withdraw_escrow(&mut ledger, STRANGER, ONE_DAY_MS, 0),
        Err(DisputeError::Unauthorized)
    );
    assert_eq!(
        d.request_escrow_refund(STRANGER, ONE_DAY_MS, 0),
        Err(DisputeError::Unauthorized)
    );
}

#[test]
fn completing_twice_is_invalid_state() {
    let (_ledger, mut d) = opened();
    d.complete_escrow(BUYER, 0).unwrap();
    assert_eq!(d.complete_escrow(BUYER, 0), Err(DisputeError::InvalidState));
}

#[test]
fn refund_request_needs_an_open_escrow() {
    let (_ledger, mut d) = opened();
    d.complete_escrow(BUYER, 0).unwrap();
    assert_eq!(
        d.request_escrow_refund(BUYER, ONE_DAY_MS, 0),
        Err(DisputeError::InvalidState)
    );
}

#[test]
fn early_withdrawal_of_open_escrow_violates_the_window() {
    let (mut ledger, mut d) = opened();
    // within the window an Open escrow still belongs to the dispute path
    assert_eq!(
        d.withdraw_escrow(&mut ledger, SELLER, ONE_DAY_MS, 0),
        Err(DisputeError::WindowViolation)
    );
    assert_eq!(d.escrows[0].status, EscrowStatus::Open);
}

#[test]
fn late_withdrawal_of_completed_escrow_violates_the_window() {
    let (mut ledger, mut d) = opened();
    d.complete_escrow(BUYER, 0).unwrap();
    assert_eq!(
        d.withdraw_escrow(&mut ledger, SELLER, 8 * ONE_DAY_MS, 0),
        Err(DisputeError::WindowViolation)
    );
}

#[test]
fn withdrawal_during_dispute_is_invalid_state() {
    let (mut ledger, mut d) = opened();
    for juror in [3usize, 4, 5] {
        d.stake(&mut ledger, juror, STAKE_BOND).unwrap();
    }
    d.request_escrow_refund(BUYER, ONE_DAY_MS, 0).unwrap();
    assert_eq!(
        d.withdraw_escrow(&mut ledger, SELLER, 2 * ONE_DAY_MS, 0),
        Err(DisputeError::InvalidState)
    );
}

#[test]
fn underfunded_open_escrow_fails_transfer() {
    let mut ledger = Ledger::new(vec![0, 10, 50]);
    let mut d = Dispute::new(empty_oracle(), CUSTODY);
    assert_eq!(
        d.open_escrow(&mut ledger, BUYER, 0, SELLER, 100, "trade".to_string()),
        Err(DisputeError::TransferFailed)
    );
    // atomicity: no escrow was created and no balance moved
    assert_eq!(d.escrow_amount(), 0);
    assert_eq!(ledger.balance_of(BUYER), 10);
    assert_eq!(ledger.balance_of(CUSTODY), 0);
}

#[test]
fn stake_must_be_exactly_the_bond() {
    let mut ledger = Ledger::new(vec![0, 1000]);
    let mut d = Dispute::new(empty_oracle(), CUSTODY);
    assert_eq!(
        d.stake(&mut ledger, 1, STAKE_BOND - 1),
        Err(DisputeError::InvalidStakeAmount)
    );
    assert_eq!(
        d.stake(&mut ledger, 1, STAKE_BOND + 1),
        Err(DisputeError::InvalidStakeAmount)
    );
    assert_eq!(d.stakers_amount(), 0);
}

#[test]
fn stake_without_funds_fails_transfer() {
    let mut ledger = Ledger::new(vec![0, 5]);
    let mut d = Dispute::new(empty_oracle(), CUSTODY);
    assert_eq!(
        d.stake(&mut ledger, 1, STAKE_BOND),
        Err(DisputeError::TransferFailed)
    );
    assert_eq!(ledger.balance_of(1), 5);
}

#[test]
fn restaking_while_bonded_is_rejected() {
    let mut ledger = Ledger::new(vec![0, 3 * STAKE_BOND]);
    let mut d = Dispute::new(empty_oracle(), CUSTODY);
    d.stake(&mut ledger, 1, STAKE_BOND).unwrap();
    assert_eq!(
        d.stake(&mut ledger, 1, STAKE_BOND),
        Err(DisputeError::InvalidState)
    );
    // the counters did not double
    assert_eq!(d.stakers_amount(), 1);
    assert_eq!(d.total_staked(), STAKE_BOND);
}

#[test]
fn unstake_without_a_record_is_empty_stake_entry() {
    let mut ledger = Ledger::new(vec![0, 1000]);
    let mut d = Dispute::new(empty_oracle(), CUSTODY);
    assert_eq!(d.unstake(&mut ledger, 1), Err(DisputeError::EmptyStakeEntry));
}

#[test]
fn outsider_cannot_vote() {
    let (mut ledger, mut d) = opened();
    for juror in [3usize, 4, 5] {
        d.stake(&mut ledger, juror, STAKE_BOND).unwrap();
    }
    d.request_escrow_refund(BUYER, ONE_DAY_MS, 0).unwrap();
    assert_eq!(d.vote_escrow(STRANGER, 0, true), Err(DisputeError::NotJuror));
    // the observing requester is no juror either
    assert_eq!(d.vote_escrow(BUYER, 0, true), Err(DisputeError::NotJuror));
}

#[test]
fn voting_twice_is_rejected() {
    let (mut ledger, mut d) = opened();
    for juror in [3usize, 4, 5] {
        d.stake(&mut ledger, juror, STAKE_BOND).unwrap();
    }
    d.request_escrow_refund(BUYER, ONE_DAY_MS, 0).unwrap();
    let juror = d.juries[0].jurors[0];
    d.vote_escrow(juror, 0, true).unwrap();
    assert_eq!(d.vote_escrow(juror, 0, false), Err(DisputeError::AlreadyVoted));
}

#[test]
fn voting_on_an_undisputed_escrow_is_not_found() {
    let (_ledger, mut d) = opened();
    assert_eq!(d.vote_escrow(SELLER, 0, true), Err(DisputeError::NotFound));
    assert_eq!(d.complete_escrow_vote(0), Err(DisputeError::NotFound));
}

#[test]
fn finalizing_before_all_votes_is_invalid_state() {
    let (mut ledger, mut d) = opened();
    for juror in [3usize, 4, 5] {
        d.stake(&mut ledger, juror, STAKE_BOND).unwrap();
    }
    d.request_escrow_refund(BUYER, ONE_DAY_MS, 0).unwrap();
    let juror = d.juries[0].jurors[0];
    d.vote_escrow(juror, 0, true).unwrap();
    assert_eq!(d.complete_escrow_vote(0), Err(DisputeError::InvalidState));
    assert_eq!(d.escrows[0].status, EscrowStatus::RefundRequested);
}
