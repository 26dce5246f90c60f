use vstd::prelude::*;

verus! {

/// An account identifier. Accounts are dense indices into the ledger's
/// balance table; identity management itself is outside the protocol.
pub type AccountId = usize;

/// The sum of all balances in the table.
pub open spec fn total_supply(balances: Seq<u128>) -> int
    decreases balances.len(),
{
    if balances.len() == 0 {
        0
    } else {
        total_supply(balances.drop_last()) + balances.last()
    }
}

proof fn lemma_total_supply_update(balances: Seq<u128>, i: int, v: u128)
    requires
        0 <= i < balances.len(),
    ensures
        total_supply(balances.update(i, v)) == total_supply(balances) - balances[i] + v,
    decreases balances.len(),
{
    let t = balances.update(i, v);
    if i == balances.len() - 1 {
        assert(t.drop_last() =~= balances.drop_last());
        assert(t.last() == v);
    } else {
        lemma_total_supply_update(balances.drop_last(), i, v);
        assert(t.drop_last() =~= balances.drop_last().update(i, v));
        assert(t.last() == balances.last());
    }
}

/// Law: a committed transfer moves value, it never mints or burns it — the
/// sum of all balances after the transfer equals the sum before.
pub proof fn lemma_transfer_preserves_supply(
    pre: Ledger,
    from: AccountId,
    to: AccountId,
    amount: u128,
)
    requires
        pre.can_transfer(from, to, amount),
    ensures
        total_supply(pre.transferred(from, to, amount)) == total_supply(pre.balances@),
{
    if from != to {
        let mid = pre.balances@.update(from as int, (pre.balance(from) - amount) as u128);
        lemma_total_supply_update(
            pre.balances@,
            from as int,
            (pre.balance(from) - amount) as u128,
        );
        lemma_total_supply_update(mid, to as int, (pre.balance(to) + amount) as u128);
    }
}

/// The token ledger the protocol moves value on: one balance per account.
///
/// The ledger is authoritative for balances and is handed to each operation
/// that moves funds, so every movement is explicit in the operation's
/// contract. A transfer either commits both sides or changes nothing.
pub struct Ledger {
    pub balances: Vec<u128>,
}

impl Ledger {
    /// Whether `a` is an account this ledger knows.
    pub open spec fn holds(self, a: AccountId) -> bool {
        a < self.balances@.len()
    }

    /// The balance of a known account.
    pub open spec fn balance(self, a: AccountId) -> u128 {
        self.balances@[a as int]
    }

    /// Whether moving `amount` from `from` to `to` can commit: both accounts
    /// exist, `from` covers the amount, and `to` does not overflow.
    pub open spec fn can_transfer(self, from: AccountId, to: AccountId, amount: u128) -> bool {
        &&& self.holds(from)
        &&& self.holds(to)
        &&& self.balance(from) >= amount
        &&& (from == to || self.balance(to) + amount <= u128::MAX)
    }

    /// The balance table after a committed transfer.
    pub open spec fn transferred(self, from: AccountId, to: AccountId, amount: u128) -> Seq<u128> {
        if from == to {
            self.balances@
        } else {
            self.balances@.update(from as int, (self.balance(from) - amount) as u128).update(
                to as int,
                (self.balance(to) + amount) as u128,
            )
        }
    }

    pub fn new(balances: Vec<u128>) -> (r: Ledger)
        ensures
            r.balances@ == balances@,
    {
        Ledger { balances }
    }

    /// The balance of `a`, or `0` for an account the ledger does not know.
    pub fn balance_of(&self, a: AccountId) -> (r: u128)
        ensures
            r == if self.holds(a) {
                self.balance(a)
            } else {
                0u128
            },
    {
        if a < self.balances.len() {
            self.balances[a]
        } else {
            0
        }
    }

    /// Moves `amount` from `from` to `to`. Commits exactly when
    /// [`Ledger::can_transfer`] holds; otherwise nothing changes.
    pub fn transfer_from(&mut self, from: AccountId, to: AccountId, amount: u128) -> (r: Result<
        (),
        (),
    >)
        ensures
            r is Ok <==> old(self).can_transfer(from, to, amount),
            r is Ok ==> final(self).balances@ == old(self).transferred(from, to, amount),
            r is Err ==> *final(self) == *old(self),
    {
        if from >= self.balances.len() || to >= self.balances.len() {
            return Err(());
        }
        let from_balance = self.balances[from];
        if from_balance < amount {
            return Err(());
        }
        if from == to {
            return Ok(());
        }
        let to_balance = self.balances[to];
        if to_balance > u128::MAX - amount {
            return Err(());
        }
        self.balances[from] = from_balance - amount;
        self.balances[to] = to_balance + amount;
        Ok(())
    }
}

} // verus!
