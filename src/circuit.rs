//! Circuit mode: values bound into a PLONK constraint system as witnesses.
//!
//! A [`Circuit`] owns a dusk-plonk `Composer`, the witnesses it has appended,
//! and their values. A wire is the position of a witness in that list.

use crate::hash::truncation_modulus;
use crate::bls::{
    add_lanes, dot, mat_vals, mat_vec, mat_wf, pow_lanes, quintic_lanes, WIDTH,
    all_wf, fr_from_u64, lemma_le_nonneg, fr_pow, fr_sub, limbs_value, quintic, radd, rmul, rpow, rsub, vals,
    Scalar, q,
};
use dusk_bls12_381::BlsScalar;
use dusk_plonk::prelude::{Composer, Constraint, Witness};
use vstd::prelude::*;

verus! {

#[verifier::external_type_specification]
#[verifier::external_body]
pub struct ExComposer(Composer);

#[verifier::external_type_specification]
#[verifier::external_body]
pub struct ExWitness(Witness);

/// A constraint system under construction, with the values of its witnesses.
pub struct Circuit {
    composer: Composer,
    wires: Vec<Witness>,
    values: Vec<Scalar>,
}

/// `new` keeps every value of `old` at its position.
pub open spec fn extends(new: Seq<int>, old: Seq<int>) -> bool {
    &&& old.len() <= new.len()
    &&& forall|i: int| 0 <= i < old.len() ==> #[trigger] new[i] == old[i]
}

impl Circuit {
    /// The values of the wires, in order.
    pub closed spec fn values(&self) -> Seq<int> {
        vals(self.values@)
    }

    /// The wires and their values correspond, every value is canonical, and
    /// wires 0 and 1 hold the constants 0 and 1.
    pub closed spec fn inv(&self) -> bool {
        &&& self.wires@.len() == self.values@.len()
        &&& all_wf(self.values@)
        &&& self.values@.len() >= 2
        &&& self.values@[0].val() == 0
        &&& self.values@[1].val() == 1
    }

    /// Relies on `Composer::initialized`, which appends the witnesses 0 and 1
    /// at positions 0 and 1.
    #[verifier::external_body]
    pub fn new() -> (r: Self)
        ensures
            r.inv(),
            r.values() == seq![0int, 1int],
    {
        let composer = Composer::initialized();
        let zero = Scalar { bytes: composer[Composer::ZERO].to_bytes() };
        let one = Scalar { bytes: composer[Composer::ONE].to_bytes() };
        Circuit { composer, wires: vec![Composer::ZERO, Composer::ONE], values: vec![zero, one] }
    }

    /// Every wire holds a field value.
    pub proof fn lemma_values_in_field(&self)
        requires
            self.inv(),
        ensures
            forall|i: int| 0 <= i < self.values().len() ==> 0 <= #[trigger] self.values()[i] < q(),
            self.values().len() >= 2,
            self.values()[0] == 0,
            self.values()[1] == 1,
    {
        assert forall|i: int| 0 <= i < self.values().len() implies 0 <= #[trigger] self.values()[i]
            < q() by {
            assert(self.values@[i].wf());
            lemma_le_nonneg(self.values@[i].bytes@);
        }
    }

    /// Relies on dusk-plonk's `Composer`: outside the crate every composer
    /// comes from `Composer::initialized`, which appends the witnesses 0 and 1
    /// first, and witnesses are only ever appended after. Takes over such a
    /// composer; its earlier witnesses other than these two get no wire.
    #[verifier::external_body]
    pub fn adopt(composer: Composer) -> (r: Self)
        ensures
            r.inv(),
            r.values() == seq![0int, 1int],
    {
        let zero = Scalar { bytes: composer[Composer::ZERO].to_bytes() };
        let one = Scalar { bytes: composer[Composer::ONE].to_bytes() };
        Circuit { composer, wires: vec![Composer::ZERO, Composer::ONE], values: vec![zero, one] }
    }

    /// Relies on `Composer::assert_equal_constant` with a public input: a gate
    /// that the proof satisfies only if wire `a` holds the public value `v`;
    /// no witness is added.
    #[verifier::external_body]
    pub fn assert_public(&mut self, a: usize, v: &Scalar)
        requires
            old(self).inv(),
            a < old(self).values().len(),
            v.wf(),
        ensures
            final(self).inv(),
            final(self).values() == old(self).values(),
    {
        let p = BlsScalar::from_bytes(&v.bytes).unwrap();
        self.composer.assert_equal_constant(self.wires[a], BlsScalar::zero(), Some(p));
    }

    /// Hands back the constraint system.
    pub fn into_composer(self) -> Composer {
        self.composer
    }

    /// The value of wire `w`.
    pub fn value(&self, w: usize) -> (r: Scalar)
        requires
            self.inv(),
            w < self.values().len(),
        ensures
            r.wf(),
            r.val() == self.values()[w as int],
    {
        self.values[w]
    }

    /// Relies on `Composer::append_witness`: a new witness holding `v`.
    #[verifier::external_body]
    pub fn append_witness(&mut self, v: &Scalar) -> (r: usize)
        requires
            old(self).inv(),
            v.wf(),
        ensures
            final(self).inv(),
            final(self).values() == old(self).values().push(v.val()),
            r == old(self).values().len(),
    {
        let w = self.composer.append_witness(BlsScalar::from_bytes(&v.bytes).unwrap());
        self.wires.push(w);
        self.values.push(*v);
        self.wires.len() - 1
    }

    /// Relies on `Composer::append_constant`: a new witness holding `v`, with
    /// a gate that constrains it to the public constant `v`.
    #[verifier::external_body]
    pub fn append_constant(&mut self, v: &Scalar) -> (r: usize)
        requires
            old(self).inv(),
            v.wf(),
        ensures
            final(self).inv(),
            final(self).values() == old(self).values().push(v.val()),
            r == old(self).values().len(),
    {
        let w = self.composer.append_constant(BlsScalar::from_bytes(&v.bytes).unwrap());
        self.wires.push(w);
        self.values.push(*v);
        self.wires.len() - 1
    }

    /// Relies on `Composer::append_logic_xor::<125>` with the zero witness: a
    /// new witness holding the low 250 bits of `a`, that is `a mod 2^250`,
    /// constrained by its bit decomposition.
    #[verifier::external_body]
    pub fn truncate_to_250_bits(&mut self, a: usize) -> (r: usize)
        requires
            old(self).inv(),
            a < old(self).values().len(),
        ensures
            final(self).inv(),
            final(self).values() == old(self).values().push(
                old(self).values()[a as int] % truncation_modulus(),
            ),
            r == old(self).values().len(),
    {
        let w = self.composer.append_logic_xor::<125>(self.wires[a], Composer::ZERO);
        self.values.push(Scalar { bytes: self.composer[w].to_bytes() });
        self.wires.push(w);
        self.wires.len() - 1
    }

    /// Relies on `Composer::gate_add`: a new witness holding
    /// `ql * a + qr * b + qf * d + qc`, constrained to that value.
    #[verifier::external_body]
    pub fn gate_add(
        &mut self,
        ql: &Scalar,
        a: usize,
        qr: &Scalar,
        b: usize,
        qf: &Scalar,
        d: usize,
        qc: &Scalar,
    ) -> (r: usize)
        requires
            old(self).inv(),
            ql.wf(),
            qr.wf(),
            qf.wf(),
            qc.wf(),
            a < old(self).values().len(),
            b < old(self).values().len(),
            d < old(self).values().len(),
        ensures
            final(self).inv(),
            final(self).values() == old(self).values().push(
                radd(
                    radd(
                        radd(rmul(ql.val(), old(self).values()[a as int]), rmul(qr.val(), old(self).values()[b as int])),
                        rmul(qf.val(), old(self).values()[d as int]),
                    ),
                    qc.val(),
                ),
            ),
            r == old(self).values().len(),
    {
        let f = |s: &Scalar| BlsScalar::from_bytes(&s.bytes).unwrap();
        let (wa, wb, wd) = (self.wires[a], self.wires[b], self.wires[d]);
        let s = Constraint::new().left(f(ql)).a(wa).right(f(qr)).b(wb).fourth(f(qf)).d(wd).constant(f(qc));
        let w = self.composer.gate_add(s);
        self.values.push(Scalar { bytes: self.composer[w].to_bytes() });
        self.wires.push(w);
        self.wires.len() - 1
    }

    /// Relies on `Composer::gate_mul`: a new witness holding `qm * a * b + qc`,
    /// constrained to that value.
    #[verifier::external_body]
    pub fn gate_mul(&mut self, qm: &Scalar, a: usize, b: usize, qc: &Scalar) -> (r: usize)
        requires
            old(self).inv(),
            qm.wf(),
            qc.wf(),
            a < old(self).values().len(),
            b < old(self).values().len(),
        ensures
            final(self).inv(),
            final(self).values() == old(self).values().push(
                radd(rmul(rmul(qm.val(), old(self).values()[a as int]), old(self).values()[b as int]), qc.val()),
            ),
            r == old(self).values().len(),
    {
        let f = |s: &Scalar| BlsScalar::from_bytes(&s.bytes).unwrap();
        let s = Constraint::new().mult(f(qm)).a(self.wires[a]).b(self.wires[b]).constant(f(qc));
        let w = self.composer.gate_mul(s);
        self.values.push(Scalar { bytes: self.composer[w].to_bytes() });
        self.wires.push(w);
        self.wires.len() - 1
    }

    /// Relies on `Composer::assert_equal`: a gate that the proof satisfies
    /// only if wires `a` and `b` hold the same value; no witness is added.
    #[verifier::external_body]
    pub fn assert_equal(&mut self, a: usize, b: usize)
        requires
            old(self).inv(),
            a < old(self).values().len(),
            b < old(self).values().len(),
        ensures
            final(self).inv(),
            final(self).values() == old(self).values(),
    {
        self.composer.assert_equal(self.wires[a], self.wires[b]);
    }
}

pub proof fn lemma_small(x: int)
    requires
        0 <= x < q(),
    ensures
        x % q() == x,
{
    vstd::arithmetic::div_mod::lemma_small_mod(x as nat, q() as nat);
}

pub proof fn lemma_one_times(x: int)
    requires
        0 <= x < q(),
    ensures
        rmul(1, x) == x,
        rmul(0, x) == 0,
        radd(x, 0) == x,
{
    lemma_small(x);
    assert(0 * x == 0);
}

/// A new wire holding `a + b`.
pub fn wire_add(c: &mut Circuit, a: usize, b: usize) -> (r: usize)
    requires
        old(c).inv(),
        a < old(c).values().len(),
        b < old(c).values().len(),
    ensures
        final(c).inv(),
        extends(final(c).values(), old(c).values()),
        r == old(c).values().len(),
        final(c).values().len() == r + 1,
        final(c).values()[r as int] == radd(old(c).values()[a as int], old(c).values()[b as int]),
{
    proof {
        c.lemma_values_in_field();
        lemma_one_times(c.values()[a as int]);
        lemma_one_times(c.values()[b as int]);
    }
    scale_add(c, &fr_from_u64(1), a, &fr_from_u64(1), b)
}

/// A new wire holding `ka * a + kb * b`.
pub fn scale_add(c: &mut Circuit, ka: &Scalar, a: usize, kb: &Scalar, b: usize) -> (r: usize)
    requires
        old(c).inv(),
        ka.wf(),
        kb.wf(),
        a < old(c).values().len(),
        b < old(c).values().len(),
    ensures
        final(c).inv(),
        extends(final(c).values(), old(c).values()),
        r == old(c).values().len(),
        final(c).values().len() == r + 1,
        final(c).values()[r as int] == radd(
            rmul(ka.val(), old(c).values()[a as int]),
            rmul(kb.val(), old(c).values()[b as int]),
        ),
{
    let zero = fr_from_u64(0);
    let ghost v = c.values();
    proof {
        c.lemma_values_in_field();
    }
    let r = c.gate_add(ka, a, kb, b, &zero, 0, &zero);
    proof {
        lemma_small(radd(rmul(ka.val(), v[a as int]), rmul(kb.val(), v[b as int])));
        lemma_one_times(v[0]);
    }
    r
}

/// A new wire holding `k * a`.
pub fn scale(c: &mut Circuit, k: &Scalar, a: usize) -> (r: usize)
    requires
        old(c).inv(),
        k.wf(),
        a < old(c).values().len(),
    ensures
        final(c).inv(),
        extends(final(c).values(), old(c).values()),
        r == old(c).values().len(),
        final(c).values().len() == r + 1,
        final(c).values()[r as int] == rmul(k.val(), old(c).values()[a as int]),
{
    let zero = fr_from_u64(0);
    let ghost v = c.values();
    proof {
        c.lemma_values_in_field();
        lemma_one_times(v[0]);
        lemma_small(rmul(k.val(), v[a as int]));
    }
    scale_add(c, k, a, &zero, 0)
}

/// A new wire holding `a + k`.
pub fn add_const(c: &mut Circuit, a: usize, k: &Scalar) -> (r: usize)
    requires
        old(c).inv(),
        k.wf(),
        a < old(c).values().len(),
    ensures
        final(c).inv(),
        extends(final(c).values(), old(c).values()),
        r == old(c).values().len(),
        final(c).values().len() == r + 1,
        final(c).values()[r as int] == radd(old(c).values()[a as int], k.val()),
{
    let zero = fr_from_u64(0);
    let one = fr_from_u64(1);
    let ghost v = c.values();
    proof {
        c.lemma_values_in_field();
    }
    let r = c.gate_add(&one, a, &zero, 0, &zero, 0, k);
    proof {
        lemma_one_times(v[a as int]);
        lemma_one_times(v[0]);
    }
    r
}

/// A new wire holding `a - b`.
pub fn wire_sub(c: &mut Circuit, a: usize, b: usize) -> (r: usize)
    requires
        old(c).inv(),
        a < old(c).values().len(),
        b < old(c).values().len(),
    ensures
        final(c).inv(),
        extends(final(c).values(), old(c).values()),
        r == old(c).values().len(),
        final(c).values().len() == r + 1,
        final(c).values()[r as int] == rsub(old(c).values()[a as int], old(c).values()[b as int]),
{
    let one = fr_from_u64(1);
    let minus_one = fr_sub(&fr_from_u64(0), &one);
    let ghost v = c.values();
    proof {
        c.lemma_values_in_field();
    }
    let r = scale_add(c, &one, a, &minus_one, b);
    proof {
        let x = v[a as int];
        let y = v[b as int];
        lemma_one_times(x);
        assert(minus_one.val() == q() - 1) by {
            vstd::arithmetic::div_mod::lemma_mod_add_multiples_vanish(-1, q());
            lemma_small(q() - 1);
        }
        vstd::arithmetic::div_mod::lemma_add_mod_noop(x, (q() - 1) * y, q());
        assert((q() - 1) * y == q() * y - y) by (nonlinear_arith);
        vstd::arithmetic::div_mod::lemma_mod_multiples_vanish(y, x - y, q());
        lemma_small(x);
    }
    r
}

/// A new wire holding `a * b`.
pub fn wire_mul(c: &mut Circuit, a: usize, b: usize) -> (r: usize)
    requires
        old(c).inv(),
        a < old(c).values().len(),
        b < old(c).values().len(),
    ensures
        final(c).inv(),
        extends(final(c).values(), old(c).values()),
        r == old(c).values().len(),
        final(c).values().len() == r + 1,
        final(c).values()[r as int] == rmul(old(c).values()[a as int], old(c).values()[b as int]),
{
    let zero = fr_from_u64(0);
    let one = fr_from_u64(1);
    let ghost v = c.values();
    proof {
        c.lemma_values_in_field();
    }
    let r = c.gate_mul(&one, a, b, &zero);
    proof {
        lemma_one_times(v[a as int]);
        lemma_small(rmul(v[a as int], v[b as int]));
    }
    r
}

/// A new wire holding `k * a * b`.
pub fn mul_scaled(c: &mut Circuit, k: &Scalar, a: usize, b: usize) -> (r: usize)
    requires
        old(c).inv(),
        k.wf(),
        a < old(c).values().len(),
        b < old(c).values().len(),
    ensures
        final(c).inv(),
        extends(final(c).values(), old(c).values()),
        r == old(c).values().len(),
        final(c).values().len() == r + 1,
        final(c).values()[r as int] == rmul(rmul(k.val(), old(c).values()[a as int]), old(c).values()[b as int]),
{
    let zero = fr_from_u64(0);
    let ghost v = c.values();
    proof {
        c.lemma_values_in_field();
    }
    let r = c.gate_mul(k, a, b, &zero);
    proof {
        lemma_small(rmul(rmul(k.val(), v[a as int]), v[b as int]));
    }
    r
}

/// A new wire holding `a^5`, computed as `((a^2)^2) * a`.
pub fn quintic_gadget(c: &mut Circuit, a: usize) -> (r: usize)
    requires
        old(c).inv(),
        a < old(c).values().len(),
    ensures
        final(c).inv(),
        extends(final(c).values(), old(c).values()),
        old(c).values().len() <= r < final(c).values().len(),
        final(c).values()[r as int] == quintic(old(c).values()[a as int]),
{
    let x2 = wire_mul(c, a, a);
    let x4 = wire_mul(c, x2, x2);
    wire_mul(c, x4, a)
}

/// A new wire `y` holding `a^e`, supplied as a hint from the value of `a`,
/// and a check that `y` raised to the forward exponent `d` equals `a`. The
/// check is emitted by square and multiply over the bits of `d`.
pub fn root_gadget(c: &mut Circuit, a: usize, e: &[u64; 4], d: u64) -> (r: usize)
    requires
        old(c).inv(),
        a < old(c).values().len(),
    ensures
        final(c).inv(),
        extends(final(c).values(), old(c).values()),
        old(c).values().len() <= r < final(c).values().len(),
        final(c).values()[r as int] == rpow(old(c).values()[a as int], limbs_value(*e)),
{
    let x = c.value(a);
    let y = fr_pow(&x, e);
    let ghost v0 = c.values();
    let w = c.append_witness(&y);
    let ghost v1 = c.values();
    let mut acc: usize = 1;
    let mut base: usize = w;
    let mut k: u64 = d;
    while k > 0
        invariant
            c.inv(),
            extends(c.values(), v1),
            v1.len() == w + 1,
            v1[w as int] == y.val(),
            acc < c.values().len(),
            base < c.values().len(),
        decreases k,
    {
        if k % 2 == 1 {
            acc = wire_mul(c, acc, base);
        }
        if k > 1 {
            base = wire_mul(c, base, base);
        }
        k = k / 2;
    }
    c.assert_equal(acc, a);
    w
}

/// The values on the wires of a state.
pub open spec fn wire_vals(v: Seq<int>, st: [usize; WIDTH]) -> Seq<int> {
    Seq::new(WIDTH as nat, |i: int| v[st@[i] as int])
}

/// Every wire of a state exists.
pub open spec fn wires_exist(v: Seq<int>, st: [usize; WIDTH]) -> bool {
    forall|i: int| 0 <= i < WIDTH ==> (#[trigger] st@[i]) < v.len()
}

/// Lanes below `i` hold their `target` values, the others still their
/// starting values `s0`; the loop invariant of the lane-wise layers below.
pub open spec fn lanes_done(v: Seq<int>, st: [usize; WIDTH], s0: Seq<int>, target: Seq<int>, i: int) -> bool {
    &&& forall|j: int| 0 <= j < i ==> #[trigger] v[st@[j] as int] == target[j]
    &&& forall|j: int| i <= j < WIDTH ==> #[trigger] v[st@[j] as int] == s0[j]
}

/// Adds `k[i]` to lane `i`.
pub fn add_all_gadget(c: &mut Circuit, st: &mut [usize; WIDTH], k: &[Scalar; WIDTH])
    requires
        old(c).inv(),
        wires_exist(old(c).values(), *old(st)),
        all_wf(k@),
    ensures
        final(c).inv(),
        extends(final(c).values(), old(c).values()),
        wires_exist(final(c).values(), *final(st)),
        wire_vals(final(c).values(), *final(st)) == add_lanes(wire_vals(old(c).values(), *old(st)), vals(k@)),
{
    let ghost s0 = wire_vals(c.values(), *st);
    let ghost target = add_lanes(s0, vals(k@));
    let ghost v0 = c.values();
    let mut i: usize = 0;
    while i < WIDTH
        invariant
            0 <= i <= WIDTH,
            c.inv(),
            all_wf(k@),
            extends(c.values(), v0),
            wires_exist(c.values(), *st),
            s0.len() == WIDTH,
            target == add_lanes(s0, vals(k@)),
            lanes_done(c.values(), *st, s0, target, i as int),
        decreases WIDTH - i,
    {
        let ghost before = c.values();
        let w = add_const(c, st[i], &k[i]);
        st[i] = w;
        i = i + 1;
    }
    assert(wire_vals(c.values(), *st) =~= target);
}

/// Replaces every lane by its fifth power.
pub fn quintic_all_gadget(c: &mut Circuit, st: &mut [usize; WIDTH])
    requires
        old(c).inv(),
        wires_exist(old(c).values(), *old(st)),
    ensures
        final(c).inv(),
        extends(final(c).values(), old(c).values()),
        wires_exist(final(c).values(), *final(st)),
        wire_vals(final(c).values(), *final(st)) == quintic_lanes(wire_vals(old(c).values(), *old(st))),
{
    let ghost s0 = wire_vals(c.values(), *st);
    let ghost target = quintic_lanes(s0);
    let ghost v0 = c.values();
    let mut i: usize = 0;
    while i < WIDTH
        invariant
            0 <= i <= WIDTH,
            c.inv(),
            extends(c.values(), v0),
            wires_exist(c.values(), *st),
            s0.len() == WIDTH,
            target == quintic_lanes(s0),
            lanes_done(c.values(), *st, s0, target, i as int),
        decreases WIDTH - i,
    {
        let w = quintic_gadget(c, st[i]);
        st[i] = w;
        i = i + 1;
    }
    assert(wire_vals(c.values(), *st) =~= target);
}

/// Replaces every lane by its root: the power `e`, checked by the forward power `d`.
pub fn root_all_gadget(c: &mut Circuit, st: &mut [usize; WIDTH], e: &[u64; 4], d: u64)
    requires
        old(c).inv(),
        wires_exist(old(c).values(), *old(st)),
    ensures
        final(c).inv(),
        extends(final(c).values(), old(c).values()),
        wires_exist(final(c).values(), *final(st)),
        wire_vals(final(c).values(), *final(st)) == pow_lanes(wire_vals(old(c).values(), *old(st)), limbs_value(*e)),
{
    let ghost s0 = wire_vals(c.values(), *st);
    let ghost target = pow_lanes(s0, limbs_value(*e));
    let ghost v0 = c.values();
    let mut i: usize = 0;
    while i < WIDTH
        invariant
            0 <= i <= WIDTH,
            c.inv(),
            extends(c.values(), v0),
            wires_exist(c.values(), *st),
            s0.len() == WIDTH,
            target == pow_lanes(s0, limbs_value(*e)),
            lanes_done(c.values(), *st, s0, target, i as int),
        decreases WIDTH - i,
    {
        let w = root_gadget(c, st[i], e, d);
        st[i] = w;
        i = i + 1;
    }
    assert(wire_vals(c.values(), *st) =~= target);
}

/// Replaces the state by the product of the matrix `m` with it.
pub fn mat_mul_gadget(c: &mut Circuit, st: &mut [usize; WIDTH], m: &[[Scalar; WIDTH]; WIDTH])
    requires
        old(c).inv(),
        wires_exist(old(c).values(), *old(st)),
        mat_wf(m@),
    ensures
        final(c).inv(),
        extends(final(c).values(), old(c).values()),
        wires_exist(final(c).values(), *final(st)),
        wire_vals(final(c).values(), *final(st)) == mat_vec(mat_vals(m@), wire_vals(old(c).values(), *old(st))),
{
    let ghost s0 = wire_vals(c.values(), *st);
    let ghost v0 = c.values();
    let inputs = *st;
    let one = fr_from_u64(1);
    let mut out = [0usize; WIDTH];
    let mut k: usize = 0;
    while k < WIDTH
        invariant
            0 <= k <= WIDTH,
            c.inv(),
            mat_wf(m@),
            one.wf(),
            one.val() == 1,
            extends(c.values(), v0),
            wires_exist(v0, inputs),
            s0 == wire_vals(v0, inputs),
            forall|j: int| 0 <= j < k ==> (#[trigger] out@[j]) < c.values().len(),
            forall|j: int| 0 <= j < k ==> #[trigger] c.values()[out@[j] as int] == dot(mat_vals(m@)[j], s0, WIDTH as nat),
        decreases WIDTH - k,
    {
        assert(all_wf(m@[k as int]@));
        let ghost vk = c.values();
        let mut acc: usize = 0;
        let mut j: usize = 0;
        while j < WIDTH
            invariant
                0 <= j <= WIDTH,
                k < WIDTH,
                c.inv(),
                mat_wf(m@),
                all_wf(m@[k as int]@),
                one.wf(),
                one.val() == 1,
                extends(c.values(), vk),
                extends(vk, v0),
                wires_exist(v0, inputs),
                s0 == wire_vals(v0, inputs),
                acc < c.values().len(),
                c.values()[acc as int] == dot(mat_vals(m@)[k as int], s0, j as nat),
            decreases WIDTH - j,
        {
            proof {
                c.lemma_values_in_field();
            }
            let ghost va = c.values()[acc as int];
            acc = scale_add(c, &one, acc, &m[k][j], inputs[j]);
            proof {
                lemma_one_times(va);
            }
            j = j + 1;
        }
        out[k] = acc;
        k = k + 1;
    }
    *st = out;
    assert(wire_vals(c.values(), *st) =~= mat_vec(mat_vals(m@), s0));
}

} // verus!
