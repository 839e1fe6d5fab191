//! The Anemoi permutation (Flystel construction) over the BLS12-381 scalar field.
//!
//! The state splits into two halves `x = state[0..4]` and `y = state[4..8]`,
//! one pair `(x[i], y[i])` per column.

use crate::bls::{
    add_all, add_lanes, all_wf, fr_add, fr_from_u64, fr_hash, fr_mul, fr_pow, fr_sub, limbs_value, radd,
    rmul, rpow, rsub, vals, Scalar, WIDTH,
};
use crate::circuit::{
    add_all_gadget, add_const, extends, lemma_one_times, mul_scaled, root_gadget, scale,
    scale_add, wire_add, wire_sub, wire_vals, wires_exist, Circuit,
};
use crate::permutation::{GadgetPermute, Permutation};
use vstd::prelude::*;

verus! {

/// The number of columns: half the width.
pub const NUM_COLUMNS: usize = 4;

/// The number of rounds at width 8.
pub const NUMBER_OF_ROUNDS: usize = 10;

/// The forward exponent `alpha` of the Flystel.
pub const ALPHA: u64 = 5;

/// The multiplier of the Flystel's quadratic, and of the linear mix.
pub const BETA: u64 = 7;

/// The Anemoi permutation, with its tables.
pub struct ScalarPermutation {
    /// Per round, the constants `C[round]` added to `x` followed by `D[round]` added to `y`.
    pub round_constants: Vec<[Scalar; WIDTH]>,
    /// The constant `delta` of the Flystel.
    pub delta: Scalar,
    /// The inverse exponent `1/alpha`, as little-endian limbs.
    pub alpha_inv: [u64; 4],
}

/// The mix of one half: the width-8 Anemoi MDS matrix applied to four values.
pub open spec fn mix4(v: Seq<int>) -> Seq<int> {
    let a0 = radd(v[0], v[1]);
    let a2 = radd(v[2], v[3]);
    let a3 = radd(v[3], rmul(7, a0));
    let a1 = rmul(7, radd(v[1], a2));
    let b0 = radd(a0, a1);
    let b2 = radd(a2, rmul(7, a3));
    let b1 = radd(a1, b2);
    let b3 = radd(a3, b0);
    seq![b0, b1, b2, b3]
}

/// The linear layer: mix `x`, mix `y` rotated by one column, then the
/// pseudo-Hadamard transform `y += x; x += y`.
pub open spec fn linear_layer(s: Seq<int>) -> Seq<int> {
    let x = mix4(s.subrange(0, 4));
    let y = mix4(seq![s[5], s[6], s[7], s[4]]);
    let y2 = Seq::new(4, |i: int| radd(y[i], x[i]));
    let x2 = Seq::new(4, |i: int| radd(x[i], y2[i]));
    x2 + y2
}

/// The Flystel on one column `(x, y)`.
pub open spec fn flystel(x: int, y: int, delta: int, alpha_inv: nat) -> (int, int) {
    let x1 = rsub(x, rmul(rmul(7, y), y));
    let y1 = rsub(y, rpow(x1, alpha_inv));
    let x2 = radd(x1, radd(rmul(rmul(7, y1), y1), delta));
    (x2, y1)
}

/// The S-box layer: the Flystel on every column.
pub open spec fn sbox_layer(s: Seq<int>, delta: int, alpha_inv: nat) -> Seq<int> {
    Seq::new(
        8,
        |i: int|
            if i < 4 {
                flystel(s[i], s[i + 4], delta, alpha_inv).0
            } else {
                flystel(s[i - 4], s[i], delta, alpha_inv).1
            },
    )
}

impl ScalarPermutation {
    /// The tables are complete and canonical.
    pub open spec fn valid(&self) -> bool {
        &&& self.round_constants@.len() == NUMBER_OF_ROUNDS
        &&& forall|r: int|
            0 <= r < NUMBER_OF_ROUNDS ==> all_wf((#[trigger] self.round_constants@[r])@)
        &&& self.delta.wf()
    }

    /// The values of the constants of round `r`.
    pub open spec fn constants(&self, r: int) -> Seq<int> {
        vals(self.round_constants@[r]@)
    }

    /// One round: constants, linear layer, S-box layer.
    pub open spec fn round(&self, s: Seq<int>, r: int) -> Seq<int> {
        sbox_layer(
            linear_layer(add_lanes(s, self.constants(r))),
            self.delta.val(),
            limbs_value(self.alpha_inv),
        )
    }

    /// The state after the first `n` rounds.
    pub open spec fn rounds(&self, s: Seq<int>, n: nat) -> Seq<int>
        decreases n,
    {
        if n == 0 {
            s
        } else {
            self.round(self.rounds(s, (n - 1) as nat), n - 1)
        }
    }

    /// The permutation: all rounds, then a closing linear layer.
    pub open spec fn perm(&self, s: Seq<int>) -> Seq<int> {
        linear_layer(self.rounds(s, NUMBER_OF_ROUNDS as nat))
    }

    /// Creates the permutation from its tables.
    pub fn new(round_constants: Vec<[Scalar; WIDTH]>, delta: Scalar, alpha_inv: [u64; 4]) -> (r:
        Self)
        requires
            round_constants@.len() == NUMBER_OF_ROUNDS,
            forall|i: int| 0 <= i < NUMBER_OF_ROUNDS ==> all_wf((#[trigger] round_constants@[i])@),
            delta.wf(),
        ensures
            r.valid(),
            r.round_constants@ == round_constants@,
            r.delta == delta,
            r.alpha_inv == alpha_inv,
    {
        ScalarPermutation { round_constants, delta, alpha_inv }
    }
}

/// Applies the mix of one half to four scalars.
fn mix(v: [Scalar; 4]) -> (r: [Scalar; 4])
    requires
        all_wf(v@),
    ensures
        all_wf(r@),
        vals(r@) == mix4(vals(v@)),
{
    let seven = fr_from_u64(BETA);
    let a0 = fr_add(&v[0], &v[1]);
    let a2 = fr_add(&v[2], &v[3]);
    let t = fr_mul(&seven, &a0);
    let a3 = fr_add(&v[3], &t);
    let t = fr_add(&v[1], &a2);
    let a1 = fr_mul(&seven, &t);
    let b0 = fr_add(&a0, &a1);
    let t = fr_mul(&seven, &a3);
    let b2 = fr_add(&a2, &t);
    let b1 = fr_add(&a1, &b2);
    let b3 = fr_add(&a3, &b0);
    let r = [b0, b1, b2, b3];
    assert(vals(r@) =~= mix4(vals(v@)));
    r
}

/// Applies the linear layer to the state.
pub fn apply_linear_layer(state: &mut [Scalar; WIDTH])
    requires
        all_wf(old(state)@),
    ensures
        all_wf(final(state)@),
        vals(final(state)@) == linear_layer(vals(old(state)@)),
{
    let ghost s = vals(state@);
    let xin = [state[0], state[1], state[2], state[3]];
    let yin = [state[5], state[6], state[7], state[4]];
    assert(vals(xin@) =~= s.subrange(0, 4));
    assert(vals(yin@) =~= seq![s[5], s[6], s[7], s[4]]);
    let x = mix(xin);
    let y = mix(yin);
    let mut i: usize = 0;
    while i < NUM_COLUMNS
        invariant
            0 <= i <= NUM_COLUMNS,
            all_wf(state@),
            all_wf(x@),
            all_wf(y@),
            s.len() == WIDTH,
            vals(x@) == mix4(s.subrange(0, 4)),
            vals(y@) == mix4(seq![s[5], s[6], s[7], s[4]]),
            forall|j: int|
                0 <= j < i ==> #[trigger] state@[j + 4].val() == radd(
                    vals(y@)[j],
                    vals(x@)[j],
                ),
            forall|j: int|
                0 <= j < i ==> #[trigger] state@[j].val() == radd(
                    vals(x@)[j],
                    radd(vals(y@)[j], vals(x@)[j]),
                ),
        decreases NUM_COLUMNS - i,
    {
        let yi = fr_add(&y[i], &x[i]);
        let xi = fr_add(&x[i], &yi);
        state[i + 4] = yi;
        state[i] = xi;
        i = i + 1;
    }
    assert forall|j: int| 0 <= j < 8 implies #[trigger] vals(state@)[j] == linear_layer(s)[j] by {
        if j >= 4 {
            assert(state@[(j - 4) + 4].val() == radd(vals(y@)[j - 4], vals(x@)[j - 4]));
        }
    }
    assert(vals(state@) =~= linear_layer(s));
}

impl ScalarPermutation {
    /// Applies the S-box layer to the state.
    fn apply_sbox_layer(&self, state: &mut [Scalar; WIDTH])
        requires
            self.valid(),
            all_wf(old(state)@),
        ensures
            all_wf(final(state)@),
            vals(final(state)@) == sbox_layer(
                vals(old(state)@),
                self.delta.val(),
                limbs_value(self.alpha_inv),
            ),
    {
        let ghost s = vals(state@);
        let ghost d = self.delta.val();
        let ghost e = limbs_value(self.alpha_inv);
        let beta = fr_from_u64(BETA);
        let mut i: usize = 0;
        while i < NUM_COLUMNS
            invariant
                0 <= i <= NUM_COLUMNS,
                self.valid(),
                beta.wf(),
                beta.val() == 7,
                all_wf(state@),
                s.len() == WIDTH,
                d == self.delta.val(),
                e == limbs_value(self.alpha_inv),
                forall|j: int|
                    0 <= j < i ==> #[trigger] state@[j].val() == flystel(s[j], s[j + 4], d, e).0,
                forall|j: int|
                    0 <= j < i ==> #[trigger] state@[j + 4].val() == flystel(s[j], s[j + 4], d, e).1,
                forall|j: int| i <= j < 4 ==> #[trigger] state@[j].val() == s[j],
                forall|j: int| i <= j < 4 ==> #[trigger] state@[j + 4].val() == s[j + 4],
            decreases NUM_COLUMNS - i,
        {
            let x = state[i];
            let y = state[i + 4];
            let t = fr_mul(&beta, &y);
            let t = fr_mul(&t, &y);
            let x1 = fr_sub(&x, &t);
            let p = fr_pow(&x1, &self.alpha_inv);
            let y1 = fr_sub(&y, &p);
            let t = fr_mul(&beta, &y1);
            let t = fr_mul(&t, &y1);
            let t = fr_add(&t, &self.delta);
            let x2 = fr_add(&x1, &t);
            state[i] = x2;
            state[i + 4] = y1;
            i = i + 1;
        }
        assert forall|j: int| 0 <= j < 8 implies #[trigger] vals(state@)[j] == sbox_layer(
            s,
            d,
            e,
        )[j] by {
            if j >= 4 {
                assert(state@[(j - 4) + 4].val() == flystel(s[j - 4], s[(j - 4) + 4], d, e).1);
            }
        }
        assert(vals(state@) =~= sbox_layer(s, d, e));
    }

    /// Runs every round and the closing linear layer.
    fn run(&self, state: &mut [Scalar; WIDTH])
        requires
            self.valid(),
            all_wf(old(state)@),
        ensures
            all_wf(final(state)@),
            vals(final(state)@) == self.perm(vals(old(state)@)),
    {
        let ghost s0 = vals(state@);
        let mut round: usize = 0;
        while round < NUMBER_OF_ROUNDS
            invariant
                0 <= round <= NUMBER_OF_ROUNDS,
                self.valid(),
                all_wf(state@),
                vals(state@) == self.rounds(s0, round as nat),
            decreases NUMBER_OF_ROUNDS - round,
        {
            assert(all_wf(self.round_constants@[round as int]@));
            add_all(state, &self.round_constants[round]);
            apply_linear_layer(state);
            self.apply_sbox_layer(state);
            round = round + 1;
        }
        apply_linear_layer(state);
    }
}

impl Permutation for ScalarPermutation {
    open spec fn wf(&self) -> bool {
        self.valid()
    }

    open spec fn spec_permute(&self, s: Seq<int>) -> Seq<int> {
        self.perm(s)
    }

    fn permute(&self, state: &mut [Scalar; WIDTH]) {
        self.run(state);
    }

    fn tag(&self, input: &[u8]) -> (r: Scalar) {
        fr_hash(input)
    }

    fn add(&self, a: &Scalar, b: &Scalar) -> (r: Scalar) {
        fr_add(a, b)
    }
}

/// The values on four wires.
pub open spec fn wire_vals4(v: Seq<int>, w: [usize; 4]) -> Seq<int> {
    Seq::new(4, |i: int| v[w@[i] as int])
}

/// Applies the mix of one half to four wires.
fn mix_gadget(c: &mut Circuit, v: [usize; 4]) -> (r: [usize; 4])
    requires
        old(c).inv(),
        forall|i: int| 0 <= i < 4 ==> (#[trigger] v@[i]) < old(c).values().len(),
    ensures
        final(c).inv(),
        extends(final(c).values(), old(c).values()),
        forall|i: int| 0 <= i < 4 ==> (#[trigger] r@[i]) < final(c).values().len(),
        wire_vals4(final(c).values(), r) == mix4(wire_vals4(old(c).values(), v)),
{
    let ghost x = wire_vals4(c.values(), v);
    let seven = fr_from_u64(BETA);
    let one = fr_from_u64(1);
    let a0 = wire_add(c, v[0], v[1]);
    let a2 = wire_add(c, v[2], v[3]);
    proof {
        c.lemma_values_in_field();
        lemma_one_times(c.values()[v[3] as int]);
    }
    let a3 = scale_add(c, &one, v[3], &seven, a0);
    let t = wire_add(c, v[1], a2);
    let a1 = scale(c, &seven, t);
    let b0 = wire_add(c, a0, a1);
    proof {
        c.lemma_values_in_field();
        lemma_one_times(c.values()[a2 as int]);
    }
    let b2 = scale_add(c, &one, a2, &seven, a3);
    let b1 = wire_add(c, a1, b2);
    let b3 = wire_add(c, a3, b0);
    let r = [b0, b1, b2, b3];
    assert(wire_vals4(c.values(), r) =~= mix4(x));
    r
}

/// The Anemoi permutation in circuit mode, over the same tables.
pub struct GadgetPermutation<'a> {
    pub tables: &'a ScalarPermutation,
}

impl<'a> GadgetPermutation<'a> {
    /// Creates the circuit-mode permutation.
    pub fn new(tables: &'a ScalarPermutation) -> (r: Self)
        ensures
            r.tables == tables,
    {
        GadgetPermutation { tables }
    }

    /// The linear layer in circuit mode.
    pub fn linear_layer(c: &mut Circuit, st: &mut [usize; WIDTH])
        requires
            old(c).inv(),
            wires_exist(old(c).values(), *old(st)),
        ensures
            final(c).inv(),
            extends(final(c).values(), old(c).values()),
            wires_exist(final(c).values(), *final(st)),
            wire_vals(final(c).values(), *final(st)) == linear_layer(
                wire_vals(old(c).values(), *old(st)),
            ),
    {
        let ghost s = wire_vals(c.values(), *st);
        let xin = [st[0], st[1], st[2], st[3]];
        let yin = [st[5], st[6], st[7], st[4]];
        assert(wire_vals4(c.values(), xin) =~= s.subrange(0, 4));
        assert(wire_vals4(c.values(), yin) =~= seq![s[5], s[6], s[7], s[4]]);
        let x = mix_gadget(c, xin);
        let y = mix_gadget(c, yin);
        let ghost vx = wire_vals4(c.values(), x);
        let ghost vy = wire_vals4(c.values(), y);
        let ghost v1 = c.values();
        let mut i: usize = 0;
        while i < NUM_COLUMNS
            invariant
                0 <= i <= NUM_COLUMNS,
                c.inv(),
                extends(c.values(), v1),
                forall|j: int| 0 <= j < 4 ==> (#[trigger] x@[j]) < v1.len(),
                forall|j: int| 0 <= j < 4 ==> (#[trigger] y@[j]) < v1.len(),
                vx == wire_vals4(v1, x),
                vy == wire_vals4(v1, y),
                vx == mix4(s.subrange(0, 4)),
                vy == mix4(seq![s[5], s[6], s[7], s[4]]),
                s.len() == WIDTH,
                wires_exist(c.values(), *st),
                forall|j: int| 0 <= j < i ==> #[trigger] c.values()[st@[j + 4] as int] == radd(vy[j], vx[j]),
                forall|j: int| 0 <= j < i ==> #[trigger] c.values()[st@[j] as int] == radd(vx[j], radd(vy[j], vx[j])),
            decreases NUM_COLUMNS - i,
        {
            let yi = wire_add(c, y[i], x[i]);
            let xi = wire_add(c, x[i], yi);
            st[i + 4] = yi;
            st[i] = xi;
            i = i + 1;
        }
        assert forall|j: int| 0 <= j < 8 implies #[trigger] wire_vals(c.values(), *st)[j] == linear_layer(s)[j] by {
            if j >= 4 {
                assert(c.values()[st@[(j - 4) + 4] as int] == radd(vy[j - 4], vx[j - 4]));
            }
        }
        assert(wire_vals(c.values(), *st) =~= linear_layer(s));
    }

    /// The S-box layer in circuit mode: the Flystel on every column, with the
    /// root of each column supplied as a hint and checked by its fifth power.
    fn evaluate_sbox_layer(&self, c: &mut Circuit, st: &mut [usize; WIDTH])
        requires
            self.tables.valid(),
            old(c).inv(),
            wires_exist(old(c).values(), *old(st)),
        ensures
            final(c).inv(),
            extends(final(c).values(), old(c).values()),
            wires_exist(final(c).values(), *final(st)),
            wire_vals(final(c).values(), *final(st)) == sbox_layer(
                wire_vals(old(c).values(), *old(st)),
                self.tables.delta.val(),
                limbs_value(self.tables.alpha_inv),
            ),
    {
        let t = self.tables;
        let ghost s = wire_vals(c.values(), *st);
        let ghost d = t.delta.val();
        let ghost e = limbs_value(t.alpha_inv);
        let ghost v0 = c.values();
        let beta = fr_from_u64(BETA);
        let mut i: usize = 0;
        while i < NUM_COLUMNS
            invariant
                0 <= i <= NUM_COLUMNS,
                t.valid(),
                c.inv(),
                beta.wf(),
                beta.val() == 7,
                extends(c.values(), v0),
                wires_exist(c.values(), *st),
                s.len() == WIDTH,
                d == t.delta.val(),
                e == limbs_value(t.alpha_inv),
                forall|j: int|
                    0 <= j < i ==> #[trigger] c.values()[st@[j] as int] == flystel(s[j], s[j + 4], d, e).0,
                forall|j: int|
                    0 <= j < i ==> #[trigger] c.values()[st@[j + 4] as int] == flystel(s[j], s[j + 4], d, e).1,
                forall|j: int| i <= j < 4 ==> #[trigger] c.values()[st@[j] as int] == s[j],
                forall|j: int| i <= j < 4 ==> #[trigger] c.values()[st@[j + 4] as int] == s[j + 4],
            decreases NUM_COLUMNS - i,
        {
            let x = st[i];
            let y = st[i + 4];
            let q = mul_scaled(c, &beta, y, y);
            let x1 = wire_sub(c, x, q);
            let p = root_gadget(c, x1, &t.alpha_inv, ALPHA);
            let y1 = wire_sub(c, y, p);
            let q = mul_scaled(c, &beta, y1, y1);
            let q = add_const(c, q, &t.delta);
            let x2 = wire_add(c, x1, q);
            st[i] = x2;
            st[i + 4] = y1;
            i = i + 1;
        }
        assert forall|j: int| 0 <= j < 8 implies #[trigger] wire_vals(c.values(), *st)[j] == sbox_layer(
            s,
            d,
            e,
        )[j] by {
            if j >= 4 {
                assert(c.values()[st@[(j - 4) + 4] as int] == flystel(s[j - 4], s[(j - 4) + 4], d, e).1);
            }
        }
        assert(wire_vals(c.values(), *st) =~= sbox_layer(s, d, e));
    }

    /// Permutes the wires of `state`, appending the gates of every round to
    /// the circuit. The new wires hold exactly what the native permutation
    /// computes from the old wires' values.
    pub fn permute_wires(&self, c: &mut Circuit, state: &mut [usize; WIDTH])
        requires
            self.tables.valid(),
            old(c).inv(),
            wires_exist(old(c).values(), *old(state)),
        ensures
            final(c).inv(),
            extends(final(c).values(), old(c).values()),
            wires_exist(final(c).values(), *final(state)),
            wire_vals(final(c).values(), *final(state)) == self.tables.spec_permute(
                wire_vals(old(c).values(), *old(state)),
            ),
    {
        let t = self.tables;
        let ghost s0 = wire_vals(c.values(), *state);
        let ghost v0 = c.values();
        let mut round: usize = 0;
        while round < NUMBER_OF_ROUNDS
            invariant
                0 <= round <= NUMBER_OF_ROUNDS,
                t.valid(),
                self.tables == t,
                c.inv(),
                extends(c.values(), v0),
                wires_exist(c.values(), *state),
                wire_vals(c.values(), *state) == t.rounds(s0, round as nat),
            decreases NUMBER_OF_ROUNDS - round,
        {
            assert(all_wf(t.round_constants@[round as int]@));
            add_all_gadget(c, state, &t.round_constants[round]);
            Self::linear_layer(c, state);
            self.evaluate_sbox_layer(c, state);
            round = round + 1;
        }
        Self::linear_layer(c, state);
    }
}

impl<'a> GadgetPermute<ScalarPermutation> for GadgetPermutation<'a> {
    open spec fn native(&self) -> ScalarPermutation {
        *self.tables
    }

    fn permute(&self, c: &mut Circuit, state: &mut [usize; WIDTH]) {
        self.permute_wires(c, state);
    }
}

} // verus!
