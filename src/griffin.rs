//! The Griffin permutation over the BLS12-381 scalar field.

use crate::bls::{
    add_all, add_lanes, all_wf, fr_add, fr_from_u64, fr_hash, fr_mul, fr_pow, fr_quintic,
    limbs_value, mat_mul, mat_vals, mat_vec, mat_wf, quintic, radd, rmul, rpow, vals, Scalar,
    WIDTH,
};
use crate::circuit::{
    add_all_gadget, add_const, extends, mat_mul_gadget, quintic_gadget, root_gadget, scale,
    scale_add, wire_add, wire_mul, wire_vals, wires_exist, lemma_one_times, Circuit,
};
use crate::permutation::{GadgetPermute, Permutation};
use vstd::prelude::*;

verus! {

/// The forward exponent `d` of the S-box.
pub const D: u64 = 5;

/// The number of rounds at width 8.
pub const NUMBER_OF_ROUNDS: usize = 9;

/// The Griffin permutation, with its tables.
pub struct ScalarPermutation {
    /// The constants added after each round but the last.
    pub round_constants: Vec<[Scalar; WIDTH]>,
    /// The block-circulant linear layer, by rows.
    pub matrix: [[Scalar; WIDTH]; WIDTH],
    /// The linear coefficients `alpha` of the lane multipliers of lanes 2 to 7.
    pub alphas: [Scalar; 6],
    /// The constant terms `beta` of the lane multipliers of lanes 2 to 7.
    pub betas: [Scalar; 6],
    /// The inverse exponent `1/d`, as little-endian limbs.
    pub d_inv: [u64; 4],
}

/// Entry `(r, c)` of the block-circulant matrix built from `circ`: blocks of
/// 4 by 4, each a circulant matrix, whose first rows are `circ[0..4]` on the
/// diagonal blocks and `circ[4..8]` off it.
pub open spec fn block_circulant_entry(circ: Seq<u64>, r: int, c: int) -> int {
    let off = if r / 4 == c / 4 { 0int } else { 4int };
    circ[off + (c % 4 - r % 4 + 4) % 4] as int
}

/// Builds the block-circulant linear layer from its eight coefficients.
pub fn block_circulant(circ: [u64; 8]) -> (m: [[Scalar; WIDTH]; WIDTH])
    ensures
        mat_wf(m@),
        forall|r: int, c: int|
            0 <= r < WIDTH && 0 <= c < WIDTH ==> #[trigger] m@[r]@[c].val() == block_circulant_entry(
                circ@,
                r,
                c,
            ),
{
    let zero = fr_from_u64(0);
    let mut m = [[zero; WIDTH]; WIDTH];
    let mut r: usize = 0;
    while r < WIDTH
        invariant
            0 <= r <= WIDTH,
            zero.wf(),
            forall|i: int| 0 <= i < WIDTH ==> all_wf(#[trigger] m@[i]@),
            forall|i: int, j: int|
                0 <= i < r && 0 <= j < WIDTH ==> #[trigger] m@[i]@[j].val() == block_circulant_entry(
                    circ@,
                    i,
                    j,
                ),
        decreases WIDTH - r,
    {
        let mut row = [zero; WIDTH];
        let mut c: usize = 0;
        while c < WIDTH
            invariant
                0 <= c <= WIDTH,
                r < WIDTH,
                zero.wf(),
                all_wf(row@),
                forall|j: int| 0 <= j < c ==> #[trigger] row@[j].val() == block_circulant_entry(circ@, r as int, j),
            decreases WIDTH - c,
        {
            let off: usize = if r / 4 == c / 4 { 0 } else { 4 };
            row[c] = fr_from_u64(circ[off + (c % 4 + 4 - r % 4) % 4]);
            c = c + 1;
        }
        m[r] = row;
        r = r + 1;
    }
    m
}

/// The multiplier base of lane `i`: `(i - 1) * z0 + z1 + z_prev`.
pub open spec fn ell(z0: int, z1: int, z_prev: int, i: int) -> int {
    radd(radd(rmul(i - 1, z0), z1), z_prev)
}

/// The multiplier of a lane: `l^2 + alpha * l + beta`.
pub open spec fn multiplier(l: int, alpha: int, beta: int) -> int {
    radd(radd(rmul(l, l), rmul(alpha, l)), beta)
}

impl ScalarPermutation {
    /// The tables are complete and canonical.
    pub open spec fn valid(&self) -> bool {
        &&& self.round_constants@.len() == NUMBER_OF_ROUNDS - 1
        &&& forall|r: int|
            0 <= r < NUMBER_OF_ROUNDS - 1 ==> all_wf((#[trigger] self.round_constants@[r])@)
        &&& mat_wf(self.matrix@)
        &&& all_wf(self.alphas@)
        &&& all_wf(self.betas@)
    }

    /// The nonlinear layer after its first `n` lanes: lane 0 takes the inverse
    /// S-box, lane 1 the forward S-box, and each later lane `i` is multiplied
    /// by a quadratic in the new lanes 0, 1 and `i - 1`.
    pub open spec fn nonlinear_prefix(&self, s: Seq<int>, n: nat) -> Seq<int>
        decreases n,
    {
        if n <= 2 {
            s.update(0, rpow(s[0], limbs_value(self.d_inv))).update(1, quintic(s[1]))
        } else {
            let t = self.nonlinear_prefix(s, (n - 1) as nat);
            let i = n - 1;
            let l = ell(t[0], t[1], t[i - 1], i);
            t.update(
                i,
                rmul(t[i], multiplier(l, self.alphas@[i - 2].val(), self.betas@[i - 2].val())),
            )
        }
    }

    /// The nonlinear layer.
    pub open spec fn nonlinear(&self, s: Seq<int>) -> Seq<int> {
        self.nonlinear_prefix(s, WIDTH as nat)
    }

    /// The linear layer.
    pub open spec fn linear(&self, s: Seq<int>) -> Seq<int> {
        mat_vec(mat_vals(self.matrix@), s)
    }

    /// The state after the first `n` full rounds (nonlinear, linear, constants).
    pub open spec fn rounds(&self, s: Seq<int>, n: nat) -> Seq<int>
        decreases n,
    {
        if n == 0 {
            s
        } else {
            add_lanes(
                self.linear(self.nonlinear(self.rounds(s, (n - 1) as nat))),
                vals(self.round_constants@[n - 1]@),
            )
        }
    }

    /// The permutation: every round, the last one without constants.
    pub open spec fn perm(&self, s: Seq<int>) -> Seq<int> {
        self.linear(self.nonlinear(self.rounds(s, (NUMBER_OF_ROUNDS - 1) as nat)))
    }

    /// Creates the permutation from its tables.
    pub fn new(
        round_constants: Vec<[Scalar; WIDTH]>,
        matrix: [[Scalar; WIDTH]; WIDTH],
        alphas: [Scalar; 6],
        betas: [Scalar; 6],
        d_inv: [u64; 4],
    ) -> (r: Self)
        requires
            round_constants@.len() == NUMBER_OF_ROUNDS - 1,
            forall|i: int|
                0 <= i < NUMBER_OF_ROUNDS - 1 ==> all_wf((#[trigger] round_constants@[i])@),
            mat_wf(matrix@),
            all_wf(alphas@),
            all_wf(betas@),
        ensures
            r.valid(),
            r.round_constants@ == round_constants@,
            r.matrix == matrix,
            r.alphas == alphas,
            r.betas == betas,
            r.d_inv == d_inv,
    {
        ScalarPermutation { round_constants, matrix, alphas, betas, d_inv }
    }

    /// Applies the nonlinear layer to the state.
    fn apply_nonlinear(&self, state: &mut [Scalar; WIDTH])
        requires
            self.valid(),
            all_wf(old(state)@),
        ensures
            all_wf(final(state)@),
            vals(final(state)@) == self.nonlinear(vals(old(state)@)),
    {
        let ghost s = vals(state@);
        let z0 = fr_pow(&state[0], &self.d_inv);
        state[0] = z0;
        let z1 = fr_quintic(&state[1]);
        state[1] = z1;
        assert(vals(state@) =~= self.nonlinear_prefix(s, 2));
        let mut i: usize = 2;
        while i < WIDTH
            invariant
                2 <= i <= WIDTH,
                self.valid(),
                all_wf(state@),
                s.len() == WIDTH,
                vals(state@) == self.nonlinear_prefix(s, i as nat),
            decreases WIDTH - i,
        {
            let k = fr_from_u64((i - 1) as u64);
            let t = fr_mul(&k, &state[0]);
            let t = fr_add(&t, &state[1]);
            let l = fr_add(&t, &state[i - 1]);
            let l2 = fr_mul(&l, &l);
            let al = fr_mul(&self.alphas[i - 2], &l);
            let m = fr_add(&l2, &al);
            let m = fr_add(&m, &self.betas[i - 2]);
            let r = fr_mul(&state[i], &m);
            let ghost before = vals(state@);
            state[i] = r;
            assert(vals(state@) =~= before.update(i as int, r.val()));
            i = i + 1;
        }
    }

    /// Runs every round.
    fn run(&self, state: &mut [Scalar; WIDTH])
        requires
            self.valid(),
            all_wf(old(state)@),
        ensures
            all_wf(final(state)@),
            vals(final(state)@) == self.perm(vals(old(state)@)),
    {
        let ghost s0 = vals(state@);
        let mut round: usize = 0;
        while round < NUMBER_OF_ROUNDS - 1
            invariant
                0 <= round <= NUMBER_OF_ROUNDS - 1,
                self.valid(),
                all_wf(state@),
                vals(state@) == self.rounds(s0, round as nat),
            decreases NUMBER_OF_ROUNDS - 1 - round,
        {
            assert(all_wf(self.round_constants@[round as int]@));
            self.apply_nonlinear(state);
            mat_mul(state, &self.matrix);
            add_all(state, &self.round_constants[round]);
            round = round + 1;
        }
        self.apply_nonlinear(state);
        mat_mul(state, &self.matrix);
    }
}

impl Permutation for ScalarPermutation {
    open spec fn wf(&self) -> bool {
        self.valid()
    }

    open spec fn spec_permute(&self, s: Seq<int>) -> Seq<int> {
        self.perm(s)
    }

    fn permute(&self, state: &mut [Scalar; WIDTH]) {
        self.run(state);
    }

    fn tag(&self, input: &[u8]) -> (r: Scalar) {
        fr_hash(input)
    }

    fn add(&self, a: &Scalar, b: &Scalar) -> (r: Scalar) {
        fr_add(a, b)
    }
}

/// The Griffin permutation in circuit mode, over the same tables.
pub struct GadgetPermutation<'a> {
    pub tables: &'a ScalarPermutation,
}

impl<'a> GadgetPermutation<'a> {
    /// Creates the circuit-mode permutation.
    pub fn new(tables: &'a ScalarPermutation) -> (r: Self)
        ensures
            r.tables == tables,
    {
        GadgetPermutation { tables }
    }

    /// The nonlinear layer in circuit mode.
    fn non_linear_layer(&self, c: &mut Circuit, st: &mut [usize; WIDTH])
        requires
            self.tables.valid(),
            old(c).inv(),
            wires_exist(old(c).values(), *old(st)),
        ensures
            final(c).inv(),
            extends(final(c).values(), old(c).values()),
            wires_exist(final(c).values(), *final(st)),
            wire_vals(final(c).values(), *final(st)) == self.tables.nonlinear(
                wire_vals(old(c).values(), *old(st)),
            ),
    {
        let t = self.tables;
        let ghost s = wire_vals(c.values(), *st);
        let ghost v0 = c.values();
        let z0 = root_gadget(c, st[0], &t.d_inv, D);
        st[0] = z0;
        let z1 = quintic_gadget(c, st[1]);
        st[1] = z1;
        assert(wire_vals(c.values(), *st) =~= t.nonlinear_prefix(s, 2));
        let one = fr_from_u64(1);
        let mut i: usize = 2;
        while i < WIDTH
            invariant
                2 <= i <= WIDTH,
                t.valid(),
                c.inv(),
                one.wf(),
                one.val() == 1,
                extends(c.values(), v0),
                wires_exist(c.values(), *st),
                s.len() == WIDTH,
                wire_vals(c.values(), *st) == t.nonlinear_prefix(s, i as nat),
            decreases WIDTH - i,
        {
            let ghost cur = wire_vals(c.values(), *st);
            proof {
                c.lemma_values_in_field();
                lemma_one_times(c.values()[st[1] as int]);
            }
            let k = fr_from_u64((i - 1) as u64);
            let w = scale_add(c, &k, st[0], &one, st[1]);
            let l = wire_add(c, w, st[i - 1]);
            let l2 = wire_mul(c, l, l);
            let al = scale(c, &t.alphas[i - 2], l);
            let m = wire_add(c, l2, al);
            let m = add_const(c, m, &t.betas[i - 2]);
            let r = wire_mul(c, st[i], m);
            st[i] = r;
            assert(wire_vals(c.values(), *st) =~= cur.update(i as int, c.values()[r as int]));
            i = i + 1;
        }
    }

    /// Permutes the wires of `state`, appending the gates of every round to
    /// the circuit. The new wires hold exactly what the native permutation
    /// computes from the old wires' values.
    pub fn permute_wires(&self, c: &mut Circuit, state: &mut [usize; WIDTH])
        requires
            self.tables.valid(),
            old(c).inv(),
            wires_exist(old(c).values(), *old(state)),
        ensures
            final(c).inv(),
            extends(final(c).values(), old(c).values()),
            wires_exist(final(c).values(), *final(state)),
            wire_vals(final(c).values(), *final(state)) == self.tables.spec_permute(
                wire_vals(old(c).values(), *old(state)),
            ),
    {
        let t = self.tables;
        let ghost s0 = wire_vals(c.values(), *state);
        let ghost v0 = c.values();
        let mut round: usize = 0;
        while round < NUMBER_OF_ROUNDS - 1
            invariant
                0 <= round <= NUMBER_OF_ROUNDS - 1,
                t.valid(),
                self.tables == t,
                c.inv(),
                extends(c.values(), v0),
                wires_exist(c.values(), *state),
                wire_vals(c.values(), *state) == t.rounds(s0, round as nat),
            decreases NUMBER_OF_ROUNDS - 1 - round,
        {
            assert(all_wf(t.round_constants@[round as int]@));
            self.non_linear_layer(c, state);
            mat_mul_gadget(c, state, &t.matrix);
            add_all_gadget(c, state, &t.round_constants[round]);
            round = round + 1;
        }
        self.non_linear_layer(c, state);
        mat_mul_gadget(c, state, &t.matrix);
    }
}

impl<'a> GadgetPermute<ScalarPermutation> for GadgetPermutation<'a> {
    open spec fn native(&self) -> ScalarPermutation {
        *self.tables
    }

    fn permute(&self, c: &mut Circuit, state: &mut [usize; WIDTH]) {
        self.permute_wires(c, state);
    }
}

} // verus!
