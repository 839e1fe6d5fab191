//! The Arion permutation and hash over the Goldilocks field, width 12.

use crate::gl_layers::{gl_add_all, gl_add_lanes, gl_vals, GL_WIDTH};
use crate::goldilocks::{
    all_elems, fadd, field_add, field_mul, field_pow, field_sub, fmul, fpow, fsub, ORDER,
};
use vstd::prelude::*;

verus! {

/// The number of rounds.
pub const NUMBER_OF_ROUNDS: usize = 8;

/// The number of lanes that take input.
pub const SPONGE_RATE: usize = 8;

/// The exponent of the GTDS lanes.
pub const D_1: u64 = 7;

/// The exponent whose root the last lane takes.
pub const D_2: u64 = 161;

/// The inverse exponent `1/D_2` modulo `p - 1`.
pub const E: u64 = 458304200482349921;

/// Arion with its tables.
pub struct Arion {
    /// Per round and lane `i < 11`, the pair `(g[i][0], g[i][1])`: 22 values per round.
    pub g: Vec<u64>,
    /// Per round and lane `i < 11`, the coefficient `h[i]`: 11 values per round.
    pub h: Vec<u64>,
    /// Per round, the twelve constants of the affine layer.
    pub affine: Vec<u64>,
}

/// The sum of the first `n` lanes.
pub open spec fn lane_sum(s: Seq<int>, n: nat) -> int
    decreases n,
{
    if n == 0 { 0 } else { fadd(lane_sum(s, (n - 1) as nat), s[n - 1]) }
}

/// The sum of the first `n` lanes, lane `i` weighted by `i`.
pub open spec fn weighted_sum(s: Seq<int>, n: nat) -> int
    decreases n,
{
    if n == 0 { 0 } else { fadd(weighted_sum(s, (n - 1) as nat), fmul(n - 1, s[n - 1])) }
}

/// Lane `i` of the linear layer: `w[0] = sigma + sum(i * s[i])`, then
/// `w[i] = w[i - 1] - sigma + 12 * s[i - 1]`.
pub open spec fn telescope(s: Seq<int>, i: nat) -> int
    decreases i,
{
    let sigma = lane_sum(s, 12);
    if i == 0 {
        fadd(sigma, weighted_sum(s, 12))
    } else {
        fadd(fsub(telescope(s, (i - 1) as nat), sigma), fmul(12, s[i - 1]))
    }
}

/// The linear layer.
pub open spec fn linear_layer(s: Seq<int>) -> Seq<int> {
    Seq::new(12, |i: int| telescope(s, i as nat))
}

impl Arion {
    /// The tables are complete and canonical.
    pub open spec fn valid(&self) -> bool {
        &&& self.g@.len() == 22 * NUMBER_OF_ROUNDS
        &&& self.h@.len() == 11 * NUMBER_OF_ROUNDS
        &&& self.affine@.len() == GL_WIDTH * NUMBER_OF_ROUNDS
        &&& all_elems(self.g@)
        &&& all_elems(self.h@)
        &&& all_elems(self.affine@)
    }

    /// The GTDS of round `r` after its first `t` steps: the outputs so far and
    /// the running sum. Step 0 takes the root of lane 11; step `t` processes lane `11 - t`.
    pub open spec fn gtds_steps(&self, s: Seq<int>, r: int, t: nat) -> (Seq<int>, int)
        decreases t,
    {
        if t == 0 {
            let last = fpow(s[11], E as nat);
            (s.update(11, last), fadd(s[11], last))
        } else {
            let (o, sigma) = self.gtds_steps(s, r, (t - 1) as nat);
            let i = 11 - t;
            let g0 = self.g@[22 * r + 2 * i] as int;
            let g1 = self.g@[22 * r + 2 * i + 1] as int;
            let h0 = self.h@[11 * r + i] as int;
            let gg = fadd(fadd(fmul(sigma, g0), fmul(sigma, sigma)), g1);
            let hh = fadd(fmul(sigma, h0), fmul(sigma, sigma));
            let lane = fadd(fmul(fpow(s[i], 7), gg), hh);
            (o.update(i, lane), fadd(fadd(sigma, lane), s[i]))
        }
    }

    /// The state after the first `n` rounds.
    pub open spec fn rounds(&self, s: Seq<int>, n: nat) -> Seq<int>
        decreases n,
    {
        if n == 0 {
            s
        } else {
            let t = self.rounds(s, (n - 1) as nat);
            gl_add_lanes(linear_layer(self.gtds_steps(t, n - 1, 11).0), self.affine@, 12 * (n - 1))
        }
    }

    /// The permutation: the linear layer twice, then every round.
    pub open spec fn perm(&self, s: Seq<int>) -> Seq<int> {
        self.rounds(linear_layer(linear_layer(s)), NUMBER_OF_ROUNDS as nat)
    }

    /// Creates Arion from its tables.
    pub fn new(g: Vec<u64>, h: Vec<u64>, affine: Vec<u64>) -> (r: Self)
        requires
            g@.len() == 22 * NUMBER_OF_ROUNDS,
            h@.len() == 11 * NUMBER_OF_ROUNDS,
            affine@.len() == GL_WIDTH * NUMBER_OF_ROUNDS,
            all_elems(g@),
            all_elems(h@),
            all_elems(affine@),
        ensures
            r.valid(),
            r.g@ == g@,
            r.h@ == h@,
            r.affine@ == affine@,
    {
        Arion { g, h, affine }
    }

    /// Applies the linear layer.
    pub fn mul_matrix(state: &mut [u64; GL_WIDTH])
        requires
            all_elems(old(state)@),
        ensures
            all_elems(final(state)@),
            gl_vals(final(state)@) == linear_layer(gl_vals(old(state)@)),
    {
        let ghost s = gl_vals(state@);
        let mut sigma: u64 = 0;
        let mut sum: u64 = 0;
        let mut i: usize = 0;
        while i < GL_WIDTH
            invariant
                0 <= i <= 12,
                all_elems(state@),
                s == gl_vals(state@),
                sigma < ORDER,
                sum < ORDER,
                sigma as int == lane_sum(s, i as nat),
                sum as int == weighted_sum(s, i as nat),
            decreases 12 - i,
        {
            sigma = field_add(sigma, state[i]);
            let t = field_mul(i as u64, state[i]);
            sum = field_add(sum, t);
            i = i + 1;
        }
        let mut w = [field_add(sigma, sum); GL_WIDTH];
        let mut i: usize = 1;
        while i < GL_WIDTH
            invariant
                1 <= i <= 12,
                all_elems(state@),
                all_elems(w@),
                s == gl_vals(state@),
                sigma < ORDER,
                sigma as int == lane_sum(s, 12),
                forall|j: int| 0 <= j < i ==> #[trigger] w@[j] as int == telescope(s, j as nat),
            decreases 12 - i,
        {
            let t = field_sub(w[i - 1], sigma);
            let u = field_mul(GL_WIDTH as u64, state[i - 1]);
            w[i] = field_add(t, u);
            i = i + 1;
        }
        *state = w;
        assert(gl_vals(state@) =~= linear_layer(s));
    }

    /// Applies the GTDS of round `r`.
    fn gtds(&self, state: &mut [u64; GL_WIDTH], r: usize)
        requires
            self.valid(),
            r < NUMBER_OF_ROUNDS,
            all_elems(old(state)@),
        ensures
            all_elems(final(state)@),
            gl_vals(final(state)@) == self.gtds_steps(gl_vals(old(state)@), r as int, 11).0,
    {
        let ghost s = gl_vals(state@);
        let mut out = *state;
        out[11] = field_pow(state[11], E);
        let mut sigma = field_add(state[11], out[11]);
        assert(gl_vals(out@) =~= self.gtds_steps(s, r as int, 0).0);
        let mut t: usize = 1;
        while t < GL_WIDTH
            invariant
                1 <= t <= 12,
                r < NUMBER_OF_ROUNDS,
                self.valid(),
                all_elems(state@),
                all_elems(out@),
                s == gl_vals(state@),
                sigma < ORDER,
                (gl_vals(out@), sigma as int) == self.gtds_steps(s, r as int, (t - 1) as nat),
            decreases 12 - t,
        {
            let i = 11 - t;
            assert(22 * r + 2 * i + 1 < 22 * NUMBER_OF_ROUNDS) by (nonlinear_arith)
                requires
                    r < NUMBER_OF_ROUNDS,
                    i < 11,
            ;
            assert(11 * r + i < 11 * NUMBER_OF_ROUNDS) by (nonlinear_arith)
                requires
                    r < NUMBER_OF_ROUNDS,
                    i < 11,
            ;
            let v = field_pow(state[i], D_1);
            let s2 = field_mul(sigma, sigma);
            let g = field_mul(sigma, self.g[22 * r + 2 * i]);
            let g = field_add(g, s2);
            let g = field_add(g, self.g[22 * r + 2 * i + 1]);
            let h = field_mul(sigma, self.h[11 * r + i]);
            let h = field_add(h, s2);
            let lane = field_mul(v, g);
            let lane = field_add(lane, h);
            let ghost before = gl_vals(out@);
            out[i] = lane;
            assert(gl_vals(out@) =~= before.update(i as int, lane as int));
            let sl = field_add(sigma, lane);
            sigma = field_add(sl, state[i]);
            t = t + 1;
        }
        *state = out;
    }

    /// Applies the permutation.
    pub fn arion_permutation(&self, state: &mut [u64; GL_WIDTH])
        requires
            self.valid(),
            all_elems(old(state)@),
        ensures
            all_elems(final(state)@),
            gl_vals(final(state)@) == self.perm(gl_vals(old(state)@)),
    {
        let ghost s0 = gl_vals(state@);
        Self::mul_matrix(state);
        Self::mul_matrix(state);
        let ghost s1 = gl_vals(state@);
        let mut r: usize = 0;
        while r < NUMBER_OF_ROUNDS
            invariant
                0 <= r <= NUMBER_OF_ROUNDS,
                self.valid(),
                all_elems(state@),
                s1 == linear_layer(linear_layer(s0)),
                gl_vals(state@) == self.rounds(s1, r as nat),
            decreases NUMBER_OF_ROUNDS - r,
        {
            self.gtds(state, r);
            Self::mul_matrix(state);
            gl_add_all(state, &self.affine, r * GL_WIDTH);
            r = r + 1;
        }
    }

    /// Absorbs eight elements into the zero state, permutes, and returns the
    /// first `out_len` lanes.
    pub fn arion_hash(&self, input: [u64; SPONGE_RATE], out_len: usize) -> (r: Vec<u64>)
        requires
            self.valid(),
            all_elems(input@),
            out_len <= GL_WIDTH,
        ensures
            all_elems(r@),
            gl_vals(r@) == self.perm(gl_vals(input@) + seq![0int, 0int, 0int, 0int]).subrange(
                0,
                out_len as int,
            ),
    {
        let mut state = [0u64; GL_WIDTH];
        let mut i: usize = 0;
        while i < SPONGE_RATE
            invariant
                0 <= i <= 8,
                all_elems(input@),
                all_elems(state@),
                forall|j: int| 0 <= j < i ==> #[trigger] state@[j] == input@[j],
                forall|j: int| i <= j < 12 ==> #[trigger] state@[j] == 0,
            decreases 8 - i,
        {
            state[i] = field_add(state[i], input[i]);
            proof {
                vstd::arithmetic::div_mod::lemma_small_mod(input@[i as int] as nat, ORDER as nat);
            }
            i = i + 1;
        }
        let ghost full = gl_vals(input@) + seq![0int, 0int, 0int, 0int];
        assert forall|j: int| 0 <= j < 12 implies #[trigger] gl_vals(state@)[j] == full[j] by {
            if j < 8 {
                assert(full[j] == gl_vals(input@)[j]);
            } else {
                assert(full[j] == seq![0int, 0int, 0int, 0int][j - 8]);
            }
        }
        assert(gl_vals(state@) =~= full);
        self.arion_permutation(&mut state);
        let mut out: Vec<u64> = Vec::new();
        let mut k: usize = 0;
        while k < out_len
            invariant
                0 <= k <= out_len <= 12,
                all_elems(state@),
                all_elems(out@),
                gl_vals(out@) == gl_vals(state@).subrange(0, k as int),
            decreases out_len - k,
        {
            let ghost before = out@;
            out.push(state[k]);
            assert(gl_vals(out@) =~= gl_vals(before).push(state@[k as int] as int));
            assert(gl_vals(out@) =~= gl_vals(state@).subrange(0, k as int + 1));
            k = k + 1;
        }
        out
    }
}

} // verus!
