//! The Griffin permutation and sponge over the Goldilocks field, width 12.

use crate::gl_layers::{gl_add_all, gl_add_lanes, gl_mat_mul, gl_mat_vec, gl_mat_wf, gl_vals, GL_WIDTH};
use crate::goldilocks::{all_elems, fadd, field_add, field_mul, field_pow, fmul, fpow, ORDER};
use vstd::prelude::*;

verus! {

/// The forward exponent of the S-box.
pub const D: u64 = 7;

/// The inverse exponent: `D * D_INV = 1` modulo `p - 1`.
pub const D_INV: u64 = 10540996611094048183;

/// The number of lanes that take input.
pub const SPONGE_RATE: usize = 8;

/// The number of rounds.
pub const NUMBER_OF_ROUNDS: usize = 8;

/// Griffin with its tables.
pub struct Griffin {
    /// `GL_WIDTH` constants after each round but the last.
    pub round_constants: Vec<u64>,
    /// The linear layer, by rows.
    pub mds: [[u64; GL_WIDTH]; GL_WIDTH],
    /// The linear coefficients of the lane multipliers of lanes 2 to 11.
    pub alphas: [u64; 10],
    /// The constant terms of the lane multipliers of lanes 2 to 11.
    pub betas: [u64; 10],
}

/// The multiplier base of lane `i`: `z0 * (i - 1) + z1 + z_prev`.
pub open spec fn ell(z0: int, z1: int, z_prev: int, i: int) -> int {
    fadd(fadd(fmul(z0, i - 1), z1), z_prev)
}

impl Griffin {
    /// The tables are complete and canonical.
    pub open spec fn valid(&self) -> bool {
        &&& self.round_constants@.len() == GL_WIDTH * (NUMBER_OF_ROUNDS - 1)
        &&& all_elems(self.round_constants@)
        &&& gl_mat_wf(self.mds@)
        &&& all_elems(self.alphas@)
        &&& all_elems(self.betas@)
    }

    /// The nonlinear layer after its first `n` lanes: lane 0 takes the inverse
    /// S-box, lane 1 the forward S-box, and each later lane `i` is multiplied
    /// by `l^2 + alpha * l + beta` with `l` built from the new lanes 0, 1 and `i - 1`.
    pub open spec fn nonlinear_prefix(&self, s: Seq<int>, n: nat) -> Seq<int>
        decreases n,
    {
        if n <= 2 {
            s.update(0, fpow(s[0], D_INV as nat)).update(1, fpow(s[1], 7))
        } else {
            let t = self.nonlinear_prefix(s, (n - 1) as nat);
            let i = n - 1;
            let l = ell(t[0], t[1], t[i - 1], i);
            t.update(
                i,
                fmul(
                    t[i],
                    fadd(fadd(fmul(l, l), fmul(self.alphas@[i - 2] as int, l)), self.betas@[i - 2] as int),
                ),
            )
        }
    }

    /// The state after the first `n` rounds with constants.
    pub open spec fn rounds(&self, s: Seq<int>, n: nat) -> Seq<int>
        decreases n,
    {
        if n == 0 {
            s
        } else {
            let t = self.rounds(s, (n - 1) as nat);
            gl_add_lanes(
                gl_mat_vec(self.mds@, self.nonlinear_prefix(t, GL_WIDTH as nat)),
                self.round_constants@,
                GL_WIDTH * (n - 1),
            )
        }
    }

    /// The permutation: every round, the last one without constants.
    pub open spec fn perm(&self, s: Seq<int>) -> Seq<int> {
        gl_mat_vec(
            self.mds@,
            self.nonlinear_prefix(self.rounds(s, (NUMBER_OF_ROUNDS - 1) as nat), GL_WIDTH as nat),
        )
    }

    /// Creates Griffin from its tables.
    pub fn new(
        round_constants: Vec<u64>,
        mds: [[u64; GL_WIDTH]; GL_WIDTH],
        alphas: [u64; 10],
        betas: [u64; 10],
    ) -> (r: Self)
        requires
            round_constants@.len() == GL_WIDTH * (NUMBER_OF_ROUNDS - 1),
            all_elems(round_constants@),
            gl_mat_wf(mds@),
            all_elems(alphas@),
            all_elems(betas@),
        ensures
            r.valid(),
            r.round_constants@ == round_constants@,
            r.mds == mds,
            r.alphas == alphas,
            r.betas == betas,
    {
        Griffin { round_constants, mds, alphas, betas }
    }

    /// Applies the nonlinear layer.
    fn non_linear_layer(&self, state: &mut [u64; GL_WIDTH])
        requires
            self.valid(),
            all_elems(old(state)@),
        ensures
            all_elems(final(state)@),
            gl_vals(final(state)@) == self.nonlinear_prefix(gl_vals(old(state)@), GL_WIDTH as nat),
    {
        let ghost s = gl_vals(state@);
        state[0] = field_pow(state[0], D_INV);
        state[1] = field_pow(state[1], D);
        assert(gl_vals(state@) =~= self.nonlinear_prefix(s, 2));
        let mut i: usize = 2;
        while i < GL_WIDTH
            invariant
                2 <= i <= GL_WIDTH,
                self.valid(),
                all_elems(state@),
                s.len() == GL_WIDTH,
                gl_vals(state@) == self.nonlinear_prefix(s, i as nat),
            decreases GL_WIDTH - i,
        {
            let t = field_mul(state[0], (i - 1) as u64);
            let t = field_add(t, state[1]);
            let l = field_add(t, state[i - 1]);
            let l2 = field_mul(l, l);
            let al = field_mul(self.alphas[i - 2], l);
            let m = field_add(l2, al);
            let m = field_add(m, self.betas[i - 2]);
            let r = field_mul(state[i], m);
            let ghost before = gl_vals(state@);
            state[i] = r;
            assert(gl_vals(state@) =~= before.update(i as int, r as int));
            i = i + 1;
        }
    }

    /// Applies the permutation to the state.
    pub fn griffin_permutation(&self, state: &mut [u64; GL_WIDTH])
        requires
            self.valid(),
            all_elems(old(state)@),
        ensures
            all_elems(final(state)@),
            gl_vals(final(state)@) == self.perm(gl_vals(old(state)@)),
    {
        let ghost s0 = gl_vals(state@);
        let mut i: usize = 0;
        while i < NUMBER_OF_ROUNDS - 1
            invariant
                0 <= i <= NUMBER_OF_ROUNDS - 1,
                self.valid(),
                all_elems(state@),
                gl_vals(state@) == self.rounds(s0, i as nat),
            decreases NUMBER_OF_ROUNDS - 1 - i,
        {
            self.non_linear_layer(state);
            gl_mat_mul(state, &self.mds);
            gl_add_all(state, &self.round_constants, i * GL_WIDTH);
            i = i + 1;
        }
        self.non_linear_layer(state);
        gl_mat_mul(state, &self.mds);
    }

    /// Absorbs one block of eight elements into the zero state, permutes, and
    /// returns the first `out_len` lanes.
    pub fn griffin_sponge(&self, input: [u64; SPONGE_RATE], out_len: usize) -> (r: Vec<u64>)
        requires
            self.valid(),
            all_elems(input@),
            out_len <= SPONGE_RATE,
        ensures
            all_elems(r@),
            gl_vals(r@) == self.perm(gl_vals(input@) + seq![0int, 0int, 0int, 0int]).subrange(
                0,
                out_len as int,
            ),
    {
        let mut state = [0u64; GL_WIDTH];
        let mut i: usize = 0;
        while i < SPONGE_RATE
            invariant
                0 <= i <= SPONGE_RATE,
                all_elems(input@),
                all_elems(state@),
                forall|j: int| 0 <= j < i ==> #[trigger] state@[j] == input@[j],
                forall|j: int| i <= j < GL_WIDTH ==> #[trigger] state@[j] == 0,
            decreases SPONGE_RATE - i,
        {
            state[i] = field_add(state[i], input[i]);
            proof {
                vstd::arithmetic::div_mod::lemma_small_mod(input@[i as int] as nat, ORDER as nat);
            }
            i = i + 1;
        }
        let ghost full = gl_vals(input@) + seq![0int, 0int, 0int, 0int];
        assert forall|j: int| 0 <= j < 12 implies #[trigger] gl_vals(state@)[j] == full[j] by {
            if j < 8 {
                assert(full[j] == gl_vals(input@)[j]);
            } else {
                assert(full[j] == seq![0int, 0int, 0int, 0int][j - 8]);
            }
        }
        assert(gl_vals(state@) =~= full);
        self.griffin_permutation(&mut state);
        let mut out: Vec<u64> = Vec::new();
        let mut k: usize = 0;
        while k < out_len
            invariant
                0 <= k <= out_len <= SPONGE_RATE,
                all_elems(state@),
                all_elems(out@),
                gl_vals(out@) == gl_vals(state@).subrange(0, k as int),
            decreases out_len - k,
        {
            let ghost before = out@;
            out.push(state[k]);
            assert(out@ =~= before.push(state@[k as int]));
            assert(gl_vals(out@) =~= gl_vals(before).push(state@[k as int] as int));
            assert(gl_vals(out@) =~= gl_vals(state@).subrange(0, k as int + 1));
            k = k + 1;
        }
        out
    }
}

} // verus!
