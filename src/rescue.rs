//! The Rescue-Prime permutation over the BLS12-381 scalar field.

use crate::bls::{
    add_all, add_lanes, all_wf, fr_add, fr_hash, limbs_value, mat_mul, mat_vals, mat_vec, mat_wf,
    pow_all, pow_lanes, quintic_all, quintic_lanes, vals, Scalar, WIDTH,
};
use crate::circuit::{
    add_all_gadget, extends, mat_mul_gadget, quintic_all_gadget, root_all_gadget, wire_vals,
    wires_exist, Circuit,
};
use crate::permutation::{GadgetPermute, Permutation};
use vstd::prelude::*;

verus! {

/// The forward exponent `alpha` of the S-box.
pub const ALPHA: u64 = 5;

/// The number of rounds at width 8.
pub const NUMBER_OF_ROUNDS: usize = 8;

/// The Rescue-Prime permutation, with its tables.
pub struct ScalarPermutation {
    /// Two rows of constants per round: row `2r` after the first MDS mix of
    /// round `r`, row `2r + 1` after the second.
    pub round_constants: Vec<[Scalar; WIDTH]>,
    /// The MDS matrix, by rows.
    pub mds: [[Scalar; WIDTH]; WIDTH],
    /// The inverse exponent `1/alpha`, as little-endian limbs.
    pub alpha_inv: [u64; 4],
}

impl ScalarPermutation {
    /// The tables are complete and canonical.
    pub open spec fn valid(&self) -> bool {
        &&& self.round_constants@.len() == 2 * NUMBER_OF_ROUNDS
        &&& forall|r: int|
            0 <= r < 2 * NUMBER_OF_ROUNDS ==> all_wf((#[trigger] self.round_constants@[r])@)
        &&& mat_wf(self.mds@)
    }

    /// The MDS mix.
    pub open spec fn mix(&self, s: Seq<int>) -> Seq<int> {
        mat_vec(mat_vals(self.mds@), s)
    }

    /// One round: MDS mix, constants, forward S-box, MDS mix, constants, inverse S-box.
    pub open spec fn round(&self, s: Seq<int>, r: int) -> Seq<int> {
        let a = quintic_lanes(add_lanes(self.mix(s), vals(self.round_constants@[2 * r]@)));
        pow_lanes(
            add_lanes(self.mix(a), vals(self.round_constants@[2 * r + 1]@)),
            limbs_value(self.alpha_inv),
        )
    }

    /// The state after the first `n` rounds.
    pub open spec fn rounds(&self, s: Seq<int>, n: nat) -> Seq<int>
        decreases n,
    {
        if n == 0 {
            s
        } else {
            self.round(self.rounds(s, (n - 1) as nat), n - 1)
        }
    }

    /// Creates the permutation from its tables.
    pub fn new(
        round_constants: Vec<[Scalar; WIDTH]>,
        mds: [[Scalar; WIDTH]; WIDTH],
        alpha_inv: [u64; 4],
    ) -> (r: Self)
        requires
            round_constants@.len() == 2 * NUMBER_OF_ROUNDS,
            forall|i: int|
                0 <= i < 2 * NUMBER_OF_ROUNDS ==> all_wf((#[trigger] round_constants@[i])@),
            mat_wf(mds@),
        ensures
            r.valid(),
            r.round_constants@ == round_constants@,
            r.mds == mds,
            r.alpha_inv == alpha_inv,
    {
        ScalarPermutation { round_constants, mds, alpha_inv }
    }

    /// Runs every round.
    fn run(&self, state: &mut [Scalar; WIDTH])
        requires
            self.valid(),
            all_wf(old(state)@),
        ensures
            all_wf(final(state)@),
            vals(final(state)@) == self.rounds(vals(old(state)@), NUMBER_OF_ROUNDS as nat),
    {
        let ghost s0 = vals(state@);
        let mut round: usize = 0;
        while round < NUMBER_OF_ROUNDS
            invariant
                0 <= round <= NUMBER_OF_ROUNDS,
                self.valid(),
                all_wf(state@),
                vals(state@) == self.rounds(s0, round as nat),
            decreases NUMBER_OF_ROUNDS - round,
        {
            assert(all_wf(self.round_constants@[2 * round as int]@));
            assert(all_wf(self.round_constants@[2 * round as int + 1]@));
            mat_mul(state, &self.mds);
            add_all(state, &self.round_constants[2 * round]);
            quintic_all(state);
            mat_mul(state, &self.mds);
            add_all(state, &self.round_constants[2 * round + 1]);
            pow_all(state, &self.alpha_inv);
            round = round + 1;
        }
    }
}

impl Permutation for ScalarPermutation {
    open spec fn wf(&self) -> bool {
        self.valid()
    }

    open spec fn spec_permute(&self, s: Seq<int>) -> Seq<int> {
        self.rounds(s, NUMBER_OF_ROUNDS as nat)
    }

    fn permute(&self, state: &mut [Scalar; WIDTH]) {
        self.run(state);
    }

    fn tag(&self, input: &[u8]) -> (r: Scalar) {
        fr_hash(input)
    }

    fn add(&self, a: &Scalar, b: &Scalar) -> (r: Scalar) {
        fr_add(a, b)
    }
}

/// The Rescue-Prime permutation in circuit mode, over the same tables.
pub struct GadgetPermutation<'a> {
    pub tables: &'a ScalarPermutation,
}

impl<'a> GadgetPermutation<'a> {
    /// Creates the circuit-mode permutation.
    pub fn new(tables: &'a ScalarPermutation) -> (r: Self)
        ensures
            r.tables == tables,
    {
        GadgetPermutation { tables }
    }

    /// Permutes the wires of `state`, appending the gates of every round to
    /// the circuit. The new wires hold exactly what the native permutation
    /// computes from the old wires' values.
    pub fn permute_wires(&self, c: &mut Circuit, state: &mut [usize; WIDTH])
        requires
            self.tables.valid(),
            old(c).inv(),
            wires_exist(old(c).values(), *old(state)),
        ensures
            final(c).inv(),
            extends(final(c).values(), old(c).values()),
            wires_exist(final(c).values(), *final(state)),
            wire_vals(final(c).values(), *final(state)) == self.tables.spec_permute(
                wire_vals(old(c).values(), *old(state)),
            ),
    {
        let t = self.tables;
        let ghost s0 = wire_vals(c.values(), *state);
        let ghost v0 = c.values();
        let mut round: usize = 0;
        while round < NUMBER_OF_ROUNDS
            invariant
                0 <= round <= NUMBER_OF_ROUNDS,
                t.valid(),
                c.inv(),
                extends(c.values(), v0),
                wires_exist(c.values(), *state),
                wire_vals(c.values(), *state) == t.rounds(s0, round as nat),
            decreases NUMBER_OF_ROUNDS - round,
        {
            assert(all_wf(t.round_constants@[2 * round as int]@));
            assert(all_wf(t.round_constants@[2 * round as int + 1]@));
            mat_mul_gadget(c, state, &t.mds);
            add_all_gadget(c, state, &t.round_constants[2 * round]);
            quintic_all_gadget(c, state);
            mat_mul_gadget(c, state, &t.mds);
            add_all_gadget(c, state, &t.round_constants[2 * round + 1]);
            root_all_gadget(c, state, &t.alpha_inv, ALPHA);
            round = round + 1;
        }
    }
}

impl<'a> GadgetPermute<ScalarPermutation> for GadgetPermutation<'a> {
    open spec fn native(&self) -> ScalarPermutation {
        *self.tables
    }

    fn permute(&self, c: &mut Circuit, state: &mut [usize; WIDTH]) {
        self.permute_wires(c, state);
    }
}

} // verus!
