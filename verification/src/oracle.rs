use vstd::prelude::*;

verus! {

/// A fixed, injectable source of verifiable randomness.
///
/// The source holds one byte string per round, the round being its index in
/// `rounds`, and reports which round is the latest. It is the protocol's one
/// source of non-determinism; every other operation is a pure function of
/// prior state and explicit inputs, so a caller who injects a fixed source
/// makes the whole system reproducible.
pub struct RandomnessSource {
    pub rounds: Vec<Vec<u8>>,
    pub latest: u64,
}

impl RandomnessSource {
    /// The byte string published for `round`, if any.
    pub open spec fn spec_value_for_round(self, round: u64) -> Option<Seq<u8>> {
        if round < self.rounds@.len() {
            Some(self.rounds@[round as int]@)
        } else {
            None
        }
    }

    pub fn new(rounds: Vec<Vec<u8>>, latest: u64) -> (r: RandomnessSource)
        ensures
            r.rounds@ == rounds@,
            r.latest == latest,
    {
        RandomnessSource { rounds, latest }
    }

    /// The most recent round the source has published.
    pub fn latest_round(&self) -> (r: u64)
        ensures
            r == self.latest,
    {
        self.latest
    }

    /// The byte string for `round`, or `None` for a round the source has not
    /// published — the degraded mode callers must expect.
    pub fn value_for_round(&self, round: u64) -> (r: Option<Vec<u8>>)
        ensures
            match r {
                Some(v) => self.spec_value_for_round(round) == Some(v@),
                None => self.spec_value_for_round(round) is None,
            },
    {
        if round >= self.rounds.len() as u64 {
            return None;
        }
        let source = &self.rounds[round as usize];
        let mut out: Vec<u8> = Vec::new();
        let mut i: usize = 0;
        while i < source.len()
            invariant
                i <= source@.len(),
                out@ == source@.subrange(0, i as int),
            decreases source@.len() - i,
        {
            out.push(source[i]);
            i = i + 1;
        }
        proof {
            assert(out@ =~= source@);
        }
        Some(out)
    }
}

} // verus!
