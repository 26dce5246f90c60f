//! A trustless escrow-and-dispute protocol.
//!
//! Two parties (buyer, seller) place funds under custody; funds release on
//! agreement, or route into a dispute path adjudicated by a jury of staked
//! accounts selected through an injected randomness source. A staking
//! subsystem lets accounts lock a fixed bond to become jury-eligible.
//!
//! All state is explicit: the protocol core ([`Dispute`]) owns the escrow
//! records, the stake records and the jury assignments; the token ledger
//! ([`Ledger`]) and the randomness source ([`RandomnessSource`]) are modelled
//! as plain values handed in by the caller, so that every transition is a
//! pure, verified function of prior state and explicit inputs.

mod dispute;
mod errors;
mod escrow;
mod jury;
mod ledger;
mod oracle;

pub use dispute::Dispute;
pub use dispute::StakeRecord;
pub use dispute::DISPUTE_WINDOW_MS;
pub use dispute::JURY_SIZE;
pub use dispute::ONE_DAY_MS;
pub use dispute::STAKE_BOND;
pub use errors::DisputeError;
pub use escrow::Escrow;
pub use escrow::EscrowStatus;
pub use jury::EscrowArbitration;
pub use jury::JuryAssignment;
pub use ledger::AccountId;
pub use ledger::Ledger;
pub use oracle::RandomnessSource;
