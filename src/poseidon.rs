//! The Poseidon (Hades) permutation over the Goldilocks field, width 12:
//! four full rounds, twenty-two partial rounds, four full rounds.

use crate::goldilocks::{all_elems, fadd, field_add, field_mul, field_pow, fmul, fpow, is_elem};
use vstd::prelude::*;

verus! {

/// The number of lanes that take input.
pub const SPONGE_RATE: usize = 8;

/// The number of lanes reserved as capacity.
pub const SPONGE_CAPACITY: usize = 4;

/// The width of the state.
pub const SPONGE_WIDTH: usize = 12;

/// Half the number of full rounds.
pub const HALF_N_FULL_ROUNDS: usize = 4;

/// The number of partial rounds.
pub const N_PARTIAL_ROUNDS: usize = 22;

/// The total number of rounds.
pub const N_ROUNDS: usize = 30;

/// The exponent of the S-box.
pub const ALPHA: u64 = 7;

/// The Poseidon permutation with its round constants.
pub struct Poseidon {
    /// `SPONGE_WIDTH` constants per round, round by round.
    pub round_constants: Vec<u64>,
}

/// The first row of the circulant part of the MDS matrix.
pub open spec fn circ(k: int) -> int {
    if k == 0 { 17 }
    else if k == 1 { 15 }
    else if k == 2 { 41 }
    else if k == 3 { 16 }
    else if k == 4 { 2 }
    else if k == 5 { 28 }
    else if k == 6 { 13 }
    else if k == 7 { 13 }
    else if k == 8 { 39 }
    else if k == 9 { 18 }
    else if k == 10 { 34 }
    else { 20 }
}

/// Entry `(i, j)` of the MDS matrix: the circulant row rotated by `i`, plus
/// 8 on the first diagonal entry.
pub open spec fn mds_entry(i: int, j: int) -> int {
    circ((j - i + 12) % 12) + if i == 0 && j == 0 { 8int } else { 0int }
}

/// Computes [`circ`].
fn circ_exec(k: usize) -> (r: u64)
    requires
        k < 12,
    ensures
        r as int == circ(k as int),
{
    match k {
        0 => 17,
        1 => 15,
        2 => 41,
        3 => 16,
        4 => 2,
        5 => 28,
        6 => 13,
        7 => 13,
        8 => 39,
        9 => 18,
        10 => 34,
        _ => 20,
    }
}

/// Computes [`mds_entry`].
fn mds_entry_exec(i: usize, j: usize) -> (r: u64)
    requires
        i < 12,
        j < 12,
    ensures
        r as int == mds_entry(i as int, j as int),
        r < 100,
{
    let c = circ_exec((j + 12 - i) % 12);
    if i == 0 && j == 0 {
        c + 8
    } else {
        c
    }
}

/// The values of a state.
pub open spec fn gvals(s: Seq<u64>) -> Seq<int> {
    s.map_values(|x: u64| x as int)
}

/// Row `i` of the MDS matrix times the first `n` lanes.
pub open spec fn mds_dot(i: int, s: Seq<int>, n: nat) -> int
    decreases n,
{
    if n == 0 {
        0
    } else {
        fadd(mds_dot(i, s, (n - 1) as nat), fmul(s[n - 1], mds_entry(i, n - 1)))
    }
}

/// The MDS layer.
pub open spec fn mds_layer(s: Seq<int>) -> Seq<int> {
    Seq::new(12, |i: int| mds_dot(i, s, 12))
}

impl Poseidon {
    /// One constant per lane and round, all canonical.
    pub open spec fn valid(&self) -> bool {
        self.round_constants@.len() == SPONGE_WIDTH * N_ROUNDS && all_elems(self.round_constants@)
    }

    /// The constant layer of round `r`.
    pub open spec fn constants_added(&self, s: Seq<int>, r: int) -> Seq<int> {
        Seq::new(12, |i: int| fadd(s[i], self.round_constants@[i + 12 * r] as int))
    }

    /// A full round: constants, the S-box on every lane, the MDS layer.
    pub open spec fn full_round(&self, s: Seq<int>, r: int) -> Seq<int> {
        let c = self.constants_added(s, r);
        mds_layer(Seq::new(12, |i: int| fpow(c[i], 7)))
    }

    /// A partial round: constants, the S-box on lane 0, the MDS layer.
    pub open spec fn partial_round(&self, s: Seq<int>, r: int) -> Seq<int> {
        let c = self.constants_added(s, r);
        mds_layer(c.update(0, fpow(c[0], 7)))
    }

    /// Round `r`: full for the first and last four, partial in between.
    pub open spec fn round(&self, s: Seq<int>, r: int) -> Seq<int> {
        if r < 4 || r >= 26 {
            self.full_round(s, r)
        } else {
            self.partial_round(s, r)
        }
    }

    /// The state after the first `n` rounds.
    pub open spec fn rounds(&self, s: Seq<int>, n: nat) -> Seq<int>
        decreases n,
    {
        if n == 0 {
            s
        } else {
            self.round(self.rounds(s, (n - 1) as nat), n - 1)
        }
    }

    /// The hash of eight elements: the first lane of the permuted state
    /// holding them followed by four zeros.
    pub open spec fn hash_spec(&self, input: Seq<u64>) -> int {
        self.rounds(gvals(input) + seq![0int, 0int, 0int, 0int], N_ROUNDS as nat)[0]
    }

    /// Creates the permutation from its round constants.
    pub fn new(round_constants: Vec<u64>) -> (r: Self)
        requires
            round_constants@.len() == SPONGE_WIDTH * N_ROUNDS,
            all_elems(round_constants@),
        ensures
            r.valid(),
            r.round_constants@ == round_constants@,
    {
        Poseidon { round_constants }
    }

    /// Adds the constants of round `round_ctr`.
    fn constant_layer(&self, state: &mut [u64; 12], round_ctr: usize)
        requires
            self.valid(),
            round_ctr < N_ROUNDS,
            all_elems(old(state)@),
        ensures
            all_elems(final(state)@),
            gvals(final(state)@) == self.constants_added(gvals(old(state)@), round_ctr as int),
    {
        let ghost s0 = gvals(state@);
        let mut i: usize = 0;
        while i < SPONGE_WIDTH
            invariant
                0 <= i <= 12,
                self.valid(),
                round_ctr < N_ROUNDS,
                all_elems(state@),
                s0.len() == 12,
                forall|j: int|
                    0 <= j < i ==> #[trigger] state@[j] as int == fadd(
                        s0[j],
                        self.round_constants@[j + 12 * round_ctr] as int,
                    ),
                forall|j: int| i <= j < 12 ==> #[trigger] state@[j] as int == s0[j],
            decreases 12 - i,
        {
            let c = self.round_constants[i + SPONGE_WIDTH * round_ctr];
            state[i] = field_add(state[i], c);
            i = i + 1;
        }
        assert(gvals(state@) =~= self.constants_added(s0, round_ctr as int));
    }

    /// The S-box `x^7`.
    fn sbox_monomial(x: u64) -> (r: u64)
        requires
            is_elem(x),
        ensures
            r as int == fpow(x as int, 7),
            is_elem(r),
    {
        field_pow(x, ALPHA)
    }

    /// The S-box on every lane.
    fn sbox_layer(state: &mut [u64; 12])
        requires
            all_elems(old(state)@),
        ensures
            all_elems(final(state)@),
            gvals(final(state)@) == Seq::new(12, |i: int| fpow(gvals(old(state)@)[i], 7)),
    {
        let ghost s0 = gvals(state@);
        let mut i: usize = 0;
        while i < SPONGE_WIDTH
            invariant
                0 <= i <= 12,
                all_elems(state@),
                s0.len() == 12,
                forall|j: int| 0 <= j < i ==> #[trigger] state@[j] as int == fpow(s0[j], 7),
                forall|j: int| i <= j < 12 ==> #[trigger] state@[j] as int == s0[j],
            decreases 12 - i,
        {
            state[i] = Self::sbox_monomial(state[i]);
            i = i + 1;
        }
        assert(gvals(state@) =~= Seq::new(12, |i: int| fpow(s0[i], 7)));
    }

    /// The MDS layer.
    fn mds_layer(state: &[u64; 12]) -> (r: [u64; 12])
        requires
            all_elems(state@),
        ensures
            all_elems(r@),
            gvals(r@) == mds_layer(gvals(state@)),
    {
        let ghost s = gvals(state@);
        let mut out = [0u64; 12];
        let mut i: usize = 0;
        while i < SPONGE_WIDTH
            invariant
                0 <= i <= 12,
                all_elems(state@),
                all_elems(out@),
                s == gvals(state@),
                forall|k: int| 0 <= k < i ==> #[trigger] out@[k] as int == mds_dot(k, s, 12),
            decreases 12 - i,
        {
            let mut acc: u64 = 0;
            let mut j: usize = 0;
            while j < SPONGE_WIDTH
                invariant
                    0 <= i < 12,
                    0 <= j <= 12,
                    all_elems(state@),
                    s == gvals(state@),
                    is_elem(acc),
                    acc as int == mds_dot(i as int, s, j as nat),
                decreases 12 - j,
            {
                let t = field_mul(state[j], mds_entry_exec(i, j));
                acc = field_add(acc, t);
                j = j + 1;
            }
            out[i] = acc;
            i = i + 1;
        }
        assert(gvals(out@) =~= mds_layer(s));
        out
    }

    /// Runs four full rounds from round `round_ctr`, advancing it.
    fn full_rounds(&self, state: &mut [u64; 12], round_ctr: &mut usize)
        requires
            self.valid(),
            *old(round_ctr) == 0 || *old(round_ctr) == 26,
            all_elems(old(state)@),
        ensures
            all_elems(final(state)@),
            *final(round_ctr) == *old(round_ctr) + HALF_N_FULL_ROUNDS,
            forall|s: Seq<int>|
                self.rounds(s, *final(round_ctr) as nat) == self.rounds_from(
                    self.rounds(s, *old(round_ctr) as nat),
                    *old(round_ctr) as int,
                    HALF_N_FULL_ROUNDS as nat,
                ),
            gvals(final(state)@) == self.rounds_from(
                gvals(old(state)@),
                *old(round_ctr) as int,
                HALF_N_FULL_ROUNDS as nat,
            ),
    {
        let ghost start = *round_ctr;
        let ghost s0 = gvals(state@);
        let mut k: usize = 0;
        while k < HALF_N_FULL_ROUNDS
            invariant
                0 <= k <= HALF_N_FULL_ROUNDS,
                self.valid(),
                start == 0 || start == 26,
                *round_ctr == start + k,
                all_elems(state@),
                gvals(state@) == self.rounds_from(s0, start as int, k as nat),
            decreases HALF_N_FULL_ROUNDS - k,
        {
            self.constant_layer(state, *round_ctr);
            Self::sbox_layer(state);
            *state = Self::mds_layer(state);
            *round_ctr = *round_ctr + 1;
            k = k + 1;
        }
        proof {
            assert forall|s: Seq<int>|
                self.rounds(s, (start + 4) as nat) == self.rounds_from(
                    self.rounds(s, start as nat),
                    start as int,
                    4,
                ) by {
                self.lemma_rounds_split(s, start as nat, 4);
            }
        }
    }

    /// Runs the partial rounds from round `round_ctr`, advancing it.
    fn partial_rounds(&self, state: &mut [u64; 12], round_ctr: &mut usize)
        requires
            self.valid(),
            *old(round_ctr) == 4,
            all_elems(old(state)@),
        ensures
            all_elems(final(state)@),
            *final(round_ctr) == 26,
            forall|s: Seq<int>|
                self.rounds(s, 26) == self.rounds_from(self.rounds(s, 4), 4, N_PARTIAL_ROUNDS as nat),
            gvals(final(state)@) == self.rounds_from(gvals(old(state)@), 4, N_PARTIAL_ROUNDS as nat),
    {
        let ghost s0 = gvals(state@);
        let mut k: usize = 0;
        while k < N_PARTIAL_ROUNDS
            invariant
                0 <= k <= N_PARTIAL_ROUNDS,
                self.valid(),
                *round_ctr == 4 + k,
                all_elems(state@),
                gvals(state@) == self.rounds_from(s0, 4, k as nat),
            decreases N_PARTIAL_ROUNDS - k,
        {
            self.constant_layer(state, *round_ctr);
            let ghost c = gvals(state@);
            state[0] = Self::sbox_monomial(state[0]);
            assert(gvals(state@) =~= c.update(0, fpow(c[0], 7)));
            *state = Self::mds_layer(state);
            *round_ctr = *round_ctr + 1;
            k = k + 1;
        }
        proof {
            assert forall|s: Seq<int>|
                self.rounds(s, 26) == self.rounds_from(self.rounds(s, 4), 4, 22) by {
                self.lemma_rounds_split(s, 4, 22);
            }
        }
    }

    /// `n` rounds starting at round `r`.
    pub open spec fn rounds_from(&self, s: Seq<int>, r: int, n: nat) -> Seq<int>
        decreases n,
    {
        if n == 0 {
            s
        } else {
            self.round(self.rounds_from(s, r, (n - 1) as nat), r + n - 1)
        }
    }

    /// Running `a + n` rounds is running `a`, then `n` more.
    proof fn lemma_rounds_split(&self, s: Seq<int>, a: nat, n: nat)
        ensures
            self.rounds(s, a + n) == self.rounds_from(self.rounds(s, a), a as int, n),
        decreases n,
    {
        if n > 0 {
            self.lemma_rounds_split(s, a, (n - 1) as nat);
            assert((a + n - 1) as nat == (a + (n - 1)) as nat);
        }
    }

    /// The Poseidon hash of eight elements.
    pub fn poseidon_hash(&self, input: [u64; 8]) -> (r: u64)
        requires
            self.valid(),
            all_elems(input@),
        ensures
            r as int == self.hash_spec(input@),
            is_elem(r),
    {
        let mut state = [0u64; 12];
        let mut i: usize = 0;
        while i < SPONGE_RATE
            invariant
                0 <= i <= 8,
                all_elems(input@),
                all_elems(state@),
                forall|j: int| 0 <= j < i ==> #[trigger] state@[j] == input@[j],
                forall|j: int| i <= j < 12 ==> #[trigger] state@[j] == 0,
            decreases 8 - i,
        {
            state[i] = input[i];
            i = i + 1;
        }
        let ghost s0 = gvals(state@);
        assert(s0 =~= gvals(input@) + seq![0int, 0int, 0int, 0int]);
        let mut round_ctr: usize = 0;
        self.full_rounds(&mut state, &mut round_ctr);
        assert(self.rounds_from(s0, 0, 4) == self.rounds(s0, 4)) by {
            self.lemma_rounds_split(s0, 0, 4);
        }
        let ghost s4 = gvals(state@);
        self.partial_rounds(&mut state, &mut round_ctr);
        self.full_rounds(&mut state, &mut round_ctr);
        proof {
            self.lemma_rounds_split(s0, 26, 4);
        }
        state[0]
    }
}

} // verus!
