//! The MiMC permutation in Feistel mode over the Goldilocks field.


use crate::goldilocks::{all_elems, fadd, field_add, field_pow, fpow, is_elem, random_elems};
use vstd::prelude::*;

verus! {

/// The number of MiMC rounds.
pub const ROUNDS: usize = 41;

/// The MiMC exponent.
pub const EXPONENT: u64 = 7;

/// A MiMC instance: one additive constant per round.
pub struct MiMC {
    pub constants: Vec<u64>,
}

/// The Feistel pair `(left, right)` after the first `n` rounds, starting from `(l, r)`.
pub open spec fn feistel(c: Seq<u64>, l: int, r: int, n: nat) -> (int, int)
    decreases n,
{
    if n == 0 {
        (l, r)
    } else {
        let (hl, hr) = feistel(c, l, r, (n - 1) as nat);
        let x = fpow(fadd(c[n - 1] as int, hl), EXPONENT as nat);
        (fadd(hr, x), hl)
    }
}

/// The MiMC hash of `(l, r)`: the left half after all rounds.
pub open spec fn mimc_spec(c: Seq<u64>, l: int, r: int) -> int {
    feistel(c, l, r, ROUNDS as nat).0
}

impl MiMC {
    /// The instance holds one canonical constant per round.
    pub open spec fn wf(&self) -> bool {
        self.constants@.len() == ROUNDS && all_elems(self.constants@)
    }

    /// Creates an instance from its round constants.
    pub fn new(constants: Vec<u64>) -> (r: Self)
        requires
            constants@.len() == ROUNDS,
            all_elems(constants@),
        ensures
            r.wf(),
            r.constants@ == constants@,
    {
        MiMC { constants }
    }

    /// Creates an instance with round constants drawn at random.
    pub fn new_from_rng() -> (r: Self)
        ensures
            r.wf(),
    {
        MiMC { constants: random_elems(ROUNDS) }
    }

    /// Runs the MiMC rounds on the pair `x` and returns the left half.
    pub fn permute_rounds(&self, x: [u64; 2]) -> (r: u64)
        requires
            self.wf(),
            is_elem(x[0]),
            is_elem(x[1]),
        ensures
            r as int == mimc_spec(self.constants@, x[0] as int, x[1] as int),
            is_elem(r),
    {
        let mut hl: u64 = x[0];
        let mut hr: u64 = x[1];
        let mut round: usize = 0;
        while round < ROUNDS
            invariant
                self.wf(),
                round <= ROUNDS,
                is_elem(hl),
                is_elem(hr),
                (hl as int, hr as int) == feistel(self.constants@, x[0] as int, x[1] as int, round as nat),
            decreases ROUNDS - round,
        {
            let c = self.constants[round];
            let t = field_add(c, hl);
            let s = field_pow(t, EXPONENT);
            let n = field_add(hr, s);
            hr = hl;
            hl = n;
            round = round + 1;
        }
        hl
    }
}

} // verus!
