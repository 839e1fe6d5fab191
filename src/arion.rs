//! The Arion permutation over the BLS12-381 scalar field.

use crate::bls::{
    add_all, add_lanes, all_wf, fr_add, fr_from_u64, fr_hash, fr_mul, fr_pow, fr_quintic, fr_sub,
    limbs_value, quintic, radd, rmul, rpow, rsub, vals, Scalar, WIDTH,
};
use crate::circuit::{
    add_all_gadget, add_const, extends, lemma_one_times, quintic_gadget, root_gadget, scale,
    scale_add, wire_add, wire_mul, wire_sub, wire_vals, wires_exist, Circuit,
};
use crate::permutation::{GadgetPermute, Permutation};
use vstd::prelude::*;

verus! {

/// The number of rounds at width 8.
pub const NUMBER_OF_ROUNDS: usize = 4;

/// The forward exponent of the GTDS lanes.
pub const D_1: u64 = 5;

/// The exponent whose root the last lane takes.
pub const D_2: u64 = 257;

/// The Arion permutation, with its tables.
pub struct ScalarPermutation {
    /// Per round, the coefficients of the quadratics `g`, two per lane.
    pub g: Vec<[Scalar; 14]>,
    /// Per round, the linear coefficients of the quadratics `h`, one per lane.
    pub h: Vec<[Scalar; 7]>,
    /// Per round, the constants of the affine layer.
    pub affine: Vec<[Scalar; WIDTH]>,
    /// The inverse exponent `1/D_2`, as little-endian limbs.
    pub e_2: [u64; 4],
}

/// The sum of the first `n` lanes.
pub open spec fn lane_sum(s: Seq<int>, n: nat) -> int
    decreases n,
{
    if n == 0 {
        0
    } else {
        radd(lane_sum(s, (n - 1) as nat), s[n - 1])
    }
}

/// The sum of the first `n` lanes, lane `i` weighted by `i`.
pub open spec fn weighted_sum(s: Seq<int>, n: nat) -> int
    decreases n,
{
    if n == 0 {
        0
    } else {
        radd(weighted_sum(s, (n - 1) as nat), rmul(n - 1, s[n - 1]))
    }
}

/// Lane `i` of the linear layer: `w[0] = sigma + sum(i * s[i])`, then
/// `w[i] = w[i - 1] - sigma + WIDTH * s[i - 1]`.
pub open spec fn telescope(s: Seq<int>, i: nat) -> int
    decreases i,
{
    let sigma = lane_sum(s, WIDTH as nat);
    if i == 0 {
        radd(sigma, weighted_sum(s, WIDTH as nat))
    } else {
        radd(rsub(telescope(s, (i - 1) as nat), sigma), rmul(WIDTH as int, s[i - 1]))
    }
}

/// The linear layer.
pub open spec fn linear_layer(s: Seq<int>) -> Seq<int> {
    Seq::new(WIDTH as nat, |i: int| telescope(s, i as nat))
}

/// The GTDS after its first `t` steps: the outputs so far and the running sum.
/// Step 0 takes the root of the last lane; step `t` processes lane `7 - t`.
pub open spec fn gtds_steps(s: Seq<int>, g: Seq<int>, h: Seq<int>, e: nat, t: nat) -> (Seq<int>, int)
    decreases t,
{
    if t == 0 {
        let last = rpow(s[7], e);
        (s.update(7, last), radd(s[7], last))
    } else {
        let (o, sigma) = gtds_steps(s, g, h, e, (t - 1) as nat);
        let i = 7 - t;
        let j = 2 * (t - 1);
        let gg = radd(radd(rmul(sigma, sigma), rmul(sigma, g[j])), g[j + 1]);
        let hh = radd(rmul(sigma, sigma), rmul(sigma, h[i]));
        let lane = radd(rmul(quintic(s[i]), gg), hh);
        (o.update(i, lane), radd(radd(sigma, lane), s[i]))
    }
}

/// The nonlinear layer.
pub open spec fn gtds(s: Seq<int>, g: Seq<int>, h: Seq<int>, e: nat) -> Seq<int> {
    gtds_steps(s, g, h, e, 7).0
}

impl ScalarPermutation {
    /// The tables are complete and canonical.
    pub open spec fn valid(&self) -> bool {
        &&& self.g@.len() == NUMBER_OF_ROUNDS
        &&& self.h@.len() == NUMBER_OF_ROUNDS
        &&& self.affine@.len() == NUMBER_OF_ROUNDS
        &&& forall|r: int| 0 <= r < NUMBER_OF_ROUNDS ==> all_wf((#[trigger] self.g@[r])@)
        &&& forall|r: int| 0 <= r < NUMBER_OF_ROUNDS ==> all_wf((#[trigger] self.h@[r])@)
        &&& forall|r: int| 0 <= r < NUMBER_OF_ROUNDS ==> all_wf((#[trigger] self.affine@[r])@)
    }

    /// One round: the GTDS, then the affine layer.
    pub open spec fn round(&self, s: Seq<int>, r: int) -> Seq<int> {
        add_lanes(
            linear_layer(
                gtds(s, vals(self.g@[r]@), vals(self.h@[r]@), limbs_value(self.e_2)),
            ),
            vals(self.affine@[r]@),
        )
    }

    /// The state after the first `n` rounds.
    pub open spec fn rounds(&self, s: Seq<int>, n: nat) -> Seq<int>
        decreases n,
    {
        if n == 0 {
            s
        } else {
            self.round(self.rounds(s, (n - 1) as nat), n - 1)
        }
    }

    /// The permutation: the linear layer, the affine layer without constants, then every round.
    pub open spec fn perm(&self, s: Seq<int>) -> Seq<int> {
        self.rounds(linear_layer(linear_layer(s)), NUMBER_OF_ROUNDS as nat)
    }

    /// Creates the permutation from its tables.
    pub fn new(
        g: Vec<[Scalar; 14]>,
        h: Vec<[Scalar; 7]>,
        affine: Vec<[Scalar; WIDTH]>,
        e_2: [u64; 4],
    ) -> (r: Self)
        requires
            g@.len() == NUMBER_OF_ROUNDS,
            h@.len() == NUMBER_OF_ROUNDS,
            affine@.len() == NUMBER_OF_ROUNDS,
            forall|i: int| 0 <= i < NUMBER_OF_ROUNDS ==> all_wf((#[trigger] g@[i])@),
            forall|i: int| 0 <= i < NUMBER_OF_ROUNDS ==> all_wf((#[trigger] h@[i])@),
            forall|i: int| 0 <= i < NUMBER_OF_ROUNDS ==> all_wf((#[trigger] affine@[i])@),
        ensures
            r.valid(),
            r.g@ == g@,
            r.h@ == h@,
            r.affine@ == affine@,
            r.e_2 == e_2,
    {
        ScalarPermutation { g, h, affine, e_2 }
    }
}

/// Applies the linear layer to the state.
pub fn apply_linear_layer(state: &mut [Scalar; WIDTH])
    requires
        all_wf(old(state)@),
    ensures
        all_wf(final(state)@),
        vals(final(state)@) == linear_layer(vals(old(state)@)),
{
    let ghost s = vals(state@);
    let mut sigma = fr_from_u64(0);
    let mut sum = fr_from_u64(0);
    let mut i: usize = 0;
    while i < WIDTH
        invariant
            0 <= i <= WIDTH,
            all_wf(state@),
            s == vals(state@),
            sigma.wf(),
            sum.wf(),
            sigma.val() == lane_sum(s, i as nat),
            sum.val() == weighted_sum(s, i as nat),
        decreases WIDTH - i,
    {
        sigma = fr_add(&sigma, &state[i]);
        let k = fr_from_u64(i as u64);
        let t = fr_mul(&k, &state[i]);
        sum = fr_add(&sum, &t);
        i = i + 1;
    }
    let width = fr_from_u64(WIDTH as u64);
    let first = fr_add(&sigma, &sum);
    let mut w = [first; WIDTH];
    let mut i: usize = 1;
    while i < WIDTH
        invariant
            1 <= i <= WIDTH,
            all_wf(state@),
            all_wf(w@),
            s == vals(state@),
            s.len() == WIDTH,
            sigma.wf(),
            sigma.val() == lane_sum(s, WIDTH as nat),
            width.wf(),
            width.val() == WIDTH,
            forall|j: int| 0 <= j < i ==> #[trigger] w@[j].val() == telescope(s, j as nat),
        decreases WIDTH - i,
    {
        let t = fr_sub(&w[i - 1], &sigma);
        let u = fr_mul(&width, &state[i - 1]);
        w[i] = fr_add(&t, &u);
        i = i + 1;
    }
    *state = w;
    assert(vals(state@) =~= linear_layer(s));
}

impl ScalarPermutation {
    /// Applies the GTDS of round `r` to the state.
    fn apply_gtds(&self, state: &mut [Scalar; WIDTH], r: usize)
        requires
            self.valid(),
            r < NUMBER_OF_ROUNDS,
            all_wf(old(state)@),
        ensures
            all_wf(final(state)@),
            vals(final(state)@) == gtds(
                vals(old(state)@),
                vals(self.g@[r as int]@),
                vals(self.h@[r as int]@),
                limbs_value(self.e_2),
            ),
    {
        let ghost s = vals(state@);
        let ghost g = vals(self.g@[r as int]@);
        let ghost h = vals(self.h@[r as int]@);
        let ghost e = limbs_value(self.e_2);
        assert(all_wf(self.g@[r as int]@));
        assert(all_wf(self.h@[r as int]@));
        let gc = &self.g[r];
        let hc = &self.h[r];
        let mut out = *state;
        let last = fr_pow(&state[7], &self.e_2);
        out[7] = last;
        let mut sigma = fr_add(&state[7], &last);
        assert(vals(out@) =~= gtds_steps(s, g, h, e, 0).0);
        let mut t: usize = 1;
        while t < WIDTH
            invariant
                1 <= t <= WIDTH,
                all_wf(state@),
                all_wf(out@),
                all_wf(gc@),
                all_wf(hc@),
                s == vals(state@),
                g == vals(gc@),
                h == vals(hc@),
                sigma.wf(),
                (vals(out@), sigma.val()) == gtds_steps(s, g, h, e, (t - 1) as nat),
            decreases WIDTH - t,
        {
            let i = 7 - t;
            let j = 2 * (t - 1);
            let v = fr_quintic(&state[i]);
            let s2 = fr_mul(&sigma, &sigma);
            let sg = fr_mul(&sigma, &gc[j]);
            let gg = fr_add(&s2, &sg);
            let gg = fr_add(&gg, &gc[j + 1]);
            let sh = fr_mul(&sigma, &hc[i]);
            let hh = fr_add(&s2, &sh);
            let lane = fr_mul(&v, &gg);
            let lane = fr_add(&lane, &hh);
            let ghost before = vals(out@);
            out[i] = lane;
            assert(vals(out@) =~= before.update(i as int, lane.val()));
            let sl = fr_add(&sigma, &lane);
            sigma = fr_add(&sl, &state[i]);
            t = t + 1;
        }
        *state = out;
    }

    /// Runs the opening layers and every round.
    fn run(&self, state: &mut [Scalar; WIDTH])
        requires
            self.valid(),
            all_wf(old(state)@),
        ensures
            all_wf(final(state)@),
            vals(final(state)@) == self.perm(vals(old(state)@)),
    {
        let ghost s0 = vals(state@);
        apply_linear_layer(state);
        apply_linear_layer(state);
        let ghost s1 = vals(state@);
        let mut round: usize = 0;
        while round < NUMBER_OF_ROUNDS
            invariant
                0 <= round <= NUMBER_OF_ROUNDS,
                self.valid(),
                all_wf(state@),
                s1 == linear_layer(linear_layer(s0)),
                vals(state@) == self.rounds(s1, round as nat),
            decreases NUMBER_OF_ROUNDS - round,
        {
            assert(all_wf(self.affine@[round as int]@));
            self.apply_gtds(state, round);
            apply_linear_layer(state);
            add_all(state, &self.affine[round]);
            round = round + 1;
        }
    }
}

impl Permutation for ScalarPermutation {
    open spec fn wf(&self) -> bool {
        self.valid()
    }

    open spec fn spec_permute(&self, s: Seq<int>) -> Seq<int> {
        self.perm(s)
    }

    fn permute(&self, state: &mut [Scalar; WIDTH]) {
        self.run(state);
    }

    fn tag(&self, input: &[u8]) -> (r: Scalar) {
        fr_hash(input)
    }

    fn add(&self, a: &Scalar, b: &Scalar) -> (r: Scalar) {
        fr_add(a, b)
    }
}

/// The Arion permutation in circuit mode, over the same tables.
pub struct GadgetPermutation<'a> {
    pub tables: &'a ScalarPermutation,
}

impl<'a> GadgetPermutation<'a> {
    /// Creates the circuit-mode permutation.
    pub fn new(tables: &'a ScalarPermutation) -> (r: Self)
        ensures
            r.tables == tables,
    {
        GadgetPermutation { tables }
    }

    /// The linear layer in circuit mode.
    pub fn linear_layer(c: &mut Circuit, st: &mut [usize; WIDTH])
        requires
            old(c).inv(),
            wires_exist(old(c).values(), *old(st)),
        ensures
            final(c).inv(),
            extends(final(c).values(), old(c).values()),
            wires_exist(final(c).values(), *final(st)),
            wire_vals(final(c).values(), *final(st)) == linear_layer(
                wire_vals(old(c).values(), *old(st)),
            ),
    {
        let ghost s = wire_vals(c.values(), *st);
        let ghost v0 = c.values();
        let one = fr_from_u64(1);
        proof {
            c.lemma_values_in_field();
        }
        let mut sigma: usize = 0;
        let mut sum: usize = 0;
        let mut i: usize = 0;
        while i < WIDTH
            invariant
                0 <= i <= WIDTH,
                c.inv(),
                one.wf(),
                one.val() == 1,
                extends(c.values(), v0),
                wires_exist(v0, *st),
                s == wire_vals(v0, *st),
                sigma < c.values().len(),
                sum < c.values().len(),
                c.values()[sigma as int] == lane_sum(s, i as nat),
                c.values()[sum as int] == weighted_sum(s, i as nat),
            decreases WIDTH - i,
        {
            sigma = wire_add(c, sigma, st[i]);
            proof {
                c.lemma_values_in_field();
                lemma_one_times(c.values()[sum as int]);
            }
            let k = fr_from_u64(i as u64);
            sum = scale_add(c, &one, sum, &k, st[i]);
            i = i + 1;
        }
        let width = fr_from_u64(WIDTH as u64);
        let first = wire_add(c, sigma, sum);
        let mut w = [first; WIDTH];
        let mut i: usize = 1;
        while i < WIDTH
            invariant
                1 <= i <= WIDTH,
                c.inv(),
                one.wf(),
                one.val() == 1,
                width.wf(),
                width.val() == WIDTH,
                extends(c.values(), v0),
                wires_exist(v0, *st),
                s == wire_vals(v0, *st),
                s.len() == WIDTH,
                sigma < c.values().len(),
                c.values()[sigma as int] == lane_sum(s, WIDTH as nat),
                forall|j: int| 0 <= j < i ==> (#[trigger] w@[j]) < c.values().len(),
                forall|j: int| 0 <= j < i ==> #[trigger] c.values()[w@[j] as int] == telescope(s, j as nat),
            decreases WIDTH - i,
        {
            let t = wire_sub(c, w[i - 1], sigma);
            proof {
                c.lemma_values_in_field();
                lemma_one_times(c.values()[t as int]);
            }
            w[i] = scale_add(c, &one, t, &width, st[i - 1]);
            i = i + 1;
        }
        *st = w;
        assert(wire_vals(c.values(), *st) =~= linear_layer(s));
    }

    /// The GTDS of round `r` in circuit mode; the root of the last lane is a
    /// hint checked by its power `D_2`.
    fn gtds(&self, c: &mut Circuit, st: &mut [usize; WIDTH], r: usize)
        requires
            self.tables.valid(),
            r < NUMBER_OF_ROUNDS,
            old(c).inv(),
            wires_exist(old(c).values(), *old(st)),
        ensures
            final(c).inv(),
            extends(final(c).values(), old(c).values()),
            wires_exist(final(c).values(), *final(st)),
            wire_vals(final(c).values(), *final(st)) == gtds(
                wire_vals(old(c).values(), *old(st)),
                vals(self.tables.g@[r as int]@),
                vals(self.tables.h@[r as int]@),
                limbs_value(self.tables.e_2),
            ),
    {
        let tb = self.tables;
        let ghost s = wire_vals(c.values(), *st);
        let ghost g = vals(tb.g@[r as int]@);
        let ghost h = vals(tb.h@[r as int]@);
        let ghost e = limbs_value(tb.e_2);
        let ghost v0 = c.values();
        assert(all_wf(tb.g@[r as int]@));
        assert(all_wf(tb.h@[r as int]@));
        let gc = &tb.g[r];
        let hc = &tb.h[r];
        let input = *st;
        let mut out = *st;
        let last = root_gadget(c, input[7], &tb.e_2, D_2);
        out[7] = last;
        let mut sigma = wire_add(c, input[7], last);
        assert(wire_vals(c.values(), out) =~= gtds_steps(s, g, h, e, 0).0);
        let mut t: usize = 1;
        while t < WIDTH
            invariant
                1 <= t <= WIDTH,
                c.inv(),
                all_wf(gc@),
                all_wf(hc@),
                g == vals(gc@),
                h == vals(hc@),
                extends(c.values(), v0),
                wires_exist(v0, input),
                s == wire_vals(v0, input),
                wires_exist(c.values(), out),
                sigma < c.values().len(),
                (wire_vals(c.values(), out), c.values()[sigma as int]) == gtds_steps(s, g, h, e, (t - 1) as nat),
            decreases WIDTH - t,
        {
            let i = 7 - t;
            let j = 2 * (t - 1);
            let ghost before = wire_vals(c.values(), out);
            let v = quintic_gadget(c, input[i]);
            let s2 = wire_mul(c, sigma, sigma);
            let sg = scale(c, &gc[j], sigma);
            let gg = wire_add(c, s2, sg);
            let gg = add_const(c, gg, &gc[j + 1]);
            let sh = scale(c, &hc[i], sigma);
            let hh = wire_add(c, s2, sh);
            let lane = wire_mul(c, v, gg);
            let lane = wire_add(c, lane, hh);
            proof {
                let sv = c.values()[sigma as int];
                vstd::arithmetic::mul::lemma_mul_is_commutative(sv, g[j as int]);
                vstd::arithmetic::mul::lemma_mul_is_commutative(sv, h[i as int]);
            }
            out[i] = lane;
            assert(wire_vals(c.values(), out) =~= before.update(i as int, c.values()[lane as int]));
            let sl = wire_add(c, sigma, lane);
            sigma = wire_add(c, sl, input[i]);
            t = t + 1;
        }
        *st = out;
    }

    /// Permutes the wires of `state`, appending the gates of every layer to
    /// the circuit. The new wires hold exactly what the native permutation
    /// computes from the old wires' values.
    pub fn permute_wires(&self, c: &mut Circuit, state: &mut [usize; WIDTH])
        requires
            self.tables.valid(),
            old(c).inv(),
            wires_exist(old(c).values(), *old(state)),
        ensures
            final(c).inv(),
            extends(final(c).values(), old(c).values()),
            wires_exist(final(c).values(), *final(state)),
            wire_vals(final(c).values(), *final(state)) == self.tables.spec_permute(
                wire_vals(old(c).values(), *old(state)),
            ),
    {
        let t = self.tables;
        let ghost s0 = wire_vals(c.values(), *state);
        let ghost v0 = c.values();
        Self::linear_layer(c, state);
        Self::linear_layer(c, state);
        let ghost s1 = wire_vals(c.values(), *state);
        let mut round: usize = 0;
        while round < NUMBER_OF_ROUNDS
            invariant
                0 <= round <= NUMBER_OF_ROUNDS,
                t.valid(),
                self.tables == t,
                c.inv(),
                extends(c.values(), v0),
                wires_exist(c.values(), *state),
                s1 == linear_layer(linear_layer(s0)),
                wire_vals(c.values(), *state) == t.rounds(s1, round as nat),
            decreases NUMBER_OF_ROUNDS - round,
        {
            assert(all_wf(t.affine@[round as int]@));
            self.gtds(c, state, round);
            Self::linear_layer(c, state);
            add_all_gadget(c, state, &t.affine[round]);
            round = round + 1;
        }
    }
}

impl<'a> GadgetPermute<ScalarPermutation> for GadgetPermutation<'a> {
    open spec fn native(&self) -> ScalarPermutation {
        *self.tables
    }

    fn permute(&self, c: &mut Circuit, state: &mut [usize; WIDTH]) {
        self.permute_wires(c, state);
    }
}

} // verus!
