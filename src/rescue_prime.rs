//! The Rescue-Prime permutation and hash over the Goldilocks field, width 12.

use crate::gl_layers::{
    gl_add_all, gl_add_lanes, gl_mat_mul, gl_mat_vec, gl_mat_wf, gl_pow_all, gl_pow_lanes, gl_vals,
    GL_WIDTH,
};
use crate::goldilocks::all_elems;
use vstd::prelude::*;

verus! {

/// The forward exponent of the S-box.
pub const ALPHA: u64 = 7;

/// The inverse exponent: `ALPHA * ALPHA_INV = 1` modulo `p - 1`.
pub const ALPHA_INV: u64 = 10540996611094048183;

/// The number of lanes that take input.
pub const SPONGE_RATE: usize = 8;

/// The number of lanes reserved as capacity.
pub const SPONGE_CAPACITY: usize = 4;

/// The width of the state.
pub const SPONGE_WIDTH: usize = 12;

/// The number of rounds.
pub const NUMBER_OF_ROUNDS: usize = 7;

/// Rescue-Prime with its tables.
pub struct Rescue {
    /// `2 * SPONGE_WIDTH` constants per round.
    pub round_constants: Vec<u64>,
    /// The MDS matrix, by rows.
    pub mds: [[u64; GL_WIDTH]; GL_WIDTH],
}

impl Rescue {
    /// The tables are complete and canonical.
    pub open spec fn valid(&self) -> bool {
        &&& self.round_constants@.len() == 2 * SPONGE_WIDTH * NUMBER_OF_ROUNDS
        &&& all_elems(self.round_constants@)
        &&& gl_mat_wf(self.mds@)
    }

    /// One round: MDS, constants, `x^7`, MDS, constants, `x^(1/7)`.
    pub open spec fn round(&self, s: Seq<int>, r: int) -> Seq<int> {
        let a = gl_pow_lanes(gl_add_lanes(gl_mat_vec(self.mds@, s), self.round_constants@, 24 * r), 7);
        gl_pow_lanes(
            gl_add_lanes(gl_mat_vec(self.mds@, a), self.round_constants@, 24 * r + 12),
            ALPHA_INV as nat,
        )
    }

    /// The state after the first `n` rounds.
    pub open spec fn rounds(&self, s: Seq<int>, n: nat) -> Seq<int>
        decreases n,
    {
        if n == 0 {
            s
        } else {
            self.round(self.rounds(s, (n - 1) as nat), n - 1)
        }
    }

    /// The permutation.
    pub open spec fn perm(&self, s: Seq<int>) -> Seq<int> {
        self.rounds(s, NUMBER_OF_ROUNDS as nat)
    }

    /// The state after absorbing the first `n` blocks of `input`: each block
    /// overwrites the rate lanes 4 to 11, then the state is permuted.
    pub open spec fn absorb(&self, input: Seq<u64>, n: nat) -> Seq<int>
        decreases n,
    {
        if n == 0 {
            Seq::new(12, |i: int| 0int)
        } else {
            let s = self.absorb(input, (n - 1) as nat);
            let b = 8 * (n - 1);
            self.perm(Seq::new(12, |i: int| if i < 4 { s[i] } else { input[b + i - 4] as int }))
        }
    }

    /// The hash: lanes 4 to 7 after absorbing every block.
    pub open spec fn hash_spec(&self, input: Seq<u64>) -> Seq<int> {
        self.absorb(input, input.len() / 8).subrange(4, 8)
    }

    /// Creates Rescue-Prime from its tables.
    pub fn new(round_constants: Vec<u64>, mds: [[u64; GL_WIDTH]; GL_WIDTH]) -> (r: Self)
        requires
            round_constants@.len() == 2 * SPONGE_WIDTH * NUMBER_OF_ROUNDS,
            all_elems(round_constants@),
            gl_mat_wf(mds@),
        ensures
            r.valid(),
            r.round_constants@ == round_constants@,
            r.mds == mds,
    {
        Rescue { round_constants, mds }
    }

    /// Applies the permutation to the state.
    pub fn rescue_permutation(&self, state: &mut [u64; GL_WIDTH])
        requires
            self.valid(),
            all_elems(old(state)@),
        ensures
            all_elems(final(state)@),
            gl_vals(final(state)@) == self.perm(gl_vals(old(state)@)),
    {
        let ghost s0 = gl_vals(state@);
        let mut i: usize = 0;
        while i < NUMBER_OF_ROUNDS
            invariant
                0 <= i <= NUMBER_OF_ROUNDS,
                self.valid(),
                all_elems(state@),
                gl_vals(state@) == self.rounds(s0, i as nat),
            decreases NUMBER_OF_ROUNDS - i,
        {
            gl_mat_mul(state, &self.mds);
            gl_add_all(state, &self.round_constants, i * 2 * SPONGE_WIDTH);
            gl_pow_all(state, ALPHA);
            gl_mat_mul(state, &self.mds);
            gl_add_all(state, &self.round_constants, i * 2 * SPONGE_WIDTH + SPONGE_WIDTH);
            gl_pow_all(state, ALPHA_INV);
            i = i + 1;
        }
    }

    /// Hashes a whole number of 8-element blocks into 4 elements.
    pub fn rescue_hash(&self, input: &Vec<u64>) -> (r: [u64; 4])
        requires
            self.valid(),
            input@.len() > 0,
            input@.len() % 8 == 0,
            all_elems(input@),
        ensures
            all_elems(r@),
            gl_vals(r@) == self.hash_spec(input@),
    {
        let mut state = [0u64; GL_WIDTH];
        assert(gl_vals(state@) =~= self.absorb(input@, 0));
        let len = input.len();
        let n = len / SPONGE_RATE;
        let mut b: usize = 0;
        while b < n
            invariant
                0 <= b <= n,
                n == input@.len() / 8,
                len == input@.len(),
                self.valid(),
                all_elems(input@),
                all_elems(state@),
                gl_vals(state@) == self.absorb(input@, b as nat),
            decreases n - b,
        {
            let ghost s = gl_vals(state@);
            let mut i: usize = 0;
            while i < SPONGE_RATE
                invariant
                    0 <= i <= 8,
                    b < n,
                    n == input@.len() / 8,
                    len == input@.len(),
                    all_elems(input@),
                    all_elems(state@),
                    forall|j: int| 0 <= j < 4 ==> #[trigger] state@[j] as int == s[j],
                    forall|j: int| 4 <= j < 4 + i ==> #[trigger] state@[j] == input@[8 * b + j - 4],
                decreases 8 - i,
            {
                assert(8 * b + i < input@.len()) by (nonlinear_arith)
                    requires
                        b < n,
                        n == input@.len() / 8,
                        i < 8,
                ;
                state[i + SPONGE_CAPACITY] = input[b * SPONGE_RATE + i];
                i = i + 1;
            }
            assert(gl_vals(state@) =~= Seq::new(12, |j: int| if j < 4 { s[j] } else { input@[8 * b + j - 4] as int }));
            self.rescue_permutation(&mut state);
            b = b + 1;
        }
        let out = [state[4], state[5], state[6], state[7]];
        assert(gl_vals(out@) =~= self.hash_spec(input@));
        out
    }
}

} // verus!
