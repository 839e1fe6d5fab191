//! The scalar field of BLS12-381 and the layers that the permutations over it share.
//!
//! A [`Scalar`] holds the canonical little-endian encoding of a field element.
//! Its arithmetic is that of dusk-bls12_381's `BlsScalar`, stated as the modular
//! formula each operation computes.

use dusk_bls12_381::BlsScalar;
use vstd::arithmetic::power::pow;
use vstd::prelude::*;

verus! {

/// The number of lanes of every permutation state over this field.
pub const WIDTH: usize = 8;

/// The BLS12-381 scalar field modulus.
pub open spec fn q() -> int {
    (0xffff_ffff_0000_0001 + 0x1_0000_0000_0000_0000 * (0x53bd_a402_fffe_5bfe
        + 0x1_0000_0000_0000_0000 * (0x3339_d808_09a1_d805 + 0x1_0000_0000_0000_0000
        * 0x73ed_a753_299d_7d48))) as int
}

/// The integer that a little-endian byte string encodes.
pub open spec fn le_value(s: Seq<u8>) -> int
    decreases s.len(),
{
    if s.len() == 0 {
        0
    } else {
        s[0] as int + 256 * le_value(s.drop_first())
    }
}

/// A little-endian value is never negative.
pub proof fn lemma_le_nonneg(s: Seq<u8>)
    ensures
        le_value(s) >= 0,
    decreases s.len(),
{
    if s.len() > 0 {
        lemma_le_nonneg(s.drop_first());
    }
}

/// The integer that four little-endian 64-bit limbs encode.
pub open spec fn limbs_value(e: [u64; 4]) -> nat {
    (e[0] as nat) + 0x1_0000_0000_0000_0000 * ((e[1] as nat) + 0x1_0000_0000_0000_0000 * ((
    e[2] as nat) + 0x1_0000_0000_0000_0000 * (e[3] as nat)))
}

/// Field addition.
pub open spec fn radd(a: int, b: int) -> int {
    (a + b) % q()
}

/// Field subtraction.
pub open spec fn rsub(a: int, b: int) -> int {
    (a - b) % q()
}

/// Field multiplication.
pub open spec fn rmul(a: int, b: int) -> int {
    (a * b) % q()
}

/// Exponentiation by a public exponent.
pub open spec fn rpow(a: int, e: nat) -> int {
    pow(a, e) % q()
}

/// A field element, as its canonical 32-byte little-endian encoding.
#[derive(Clone, Copy, Debug, PartialEq, Eq)]
pub struct Scalar {
    pub bytes: [u8; 32],
}

impl Scalar {
    /// The element's value.
    pub open spec fn val(&self) -> int {
        le_value(self.bytes@)
    }

    /// The encoding is canonical: its value is below the modulus.
    pub open spec fn wf(&self) -> bool {
        self.val() < q()
    }
}

/// The values of a sequence of scalars.
pub open spec fn vals(s: Seq<Scalar>) -> Seq<int> {
    s.map_values(|x: Scalar| x.val())
}

/// Every scalar of a sequence is canonical.
pub open spec fn all_wf(s: Seq<Scalar>) -> bool {
    forall|i: int| 0 <= i < s.len() ==> (#[trigger] s[i]).wf()
}

/// Relies on `BlsScalar::from_bytes`, which accepts exactly the canonical
/// little-endian encodings: the element these bytes encode, if they are canonical.
#[verifier::external_body]
pub fn fr_from_bytes(bytes: [u8; 32]) -> (r: Option<Scalar>)
    ensures
        r is Some <==> le_value(bytes@) < q(),
        r matches Some(s) ==> s.bytes == bytes,
{
    Option::<BlsScalar>::from(BlsScalar::from_bytes(&bytes)).map(|_| Scalar { bytes })
}

/// Relies on `BlsScalar::from(u64)` and `to_bytes`: the element with value `v`.
#[verifier::external_body]
pub fn fr_from_u64(v: u64) -> (r: Scalar)
    ensures
        r.val() == v as int,
        r.wf(),
{
    Scalar { bytes: BlsScalar::from(v).to_bytes() }
}

/// Relies on `BlsScalar`'s `Add`, with `from_bytes` and `to_bytes`: the sum modulo `q`.
#[verifier::external_body]
pub fn fr_add(a: &Scalar, b: &Scalar) -> (r: Scalar)
    requires
        a.wf(),
        b.wf(),
    ensures
        r.val() == radd(a.val(), b.val()),
        r.wf(),
{
    let x = BlsScalar::from_bytes(&a.bytes).unwrap();
    let y = BlsScalar::from_bytes(&b.bytes).unwrap();
    Scalar { bytes: (x + y).to_bytes() }
}

/// Relies on `BlsScalar`'s `Sub`, with `from_bytes` and `to_bytes`: the difference modulo `q`.
#[verifier::external_body]
pub fn fr_sub(a: &Scalar, b: &Scalar) -> (r: Scalar)
    requires
        a.wf(),
        b.wf(),
    ensures
        r.val() == rsub(a.val(), b.val()),
        r.wf(),
{
    let x = BlsScalar::from_bytes(&a.bytes).unwrap();
    let y = BlsScalar::from_bytes(&b.bytes).unwrap();
    Scalar { bytes: (x - y).to_bytes() }
}

/// Relies on `BlsScalar`'s `Mul`, with `from_bytes` and `to_bytes`: the product modulo `q`.
#[verifier::external_body]
pub fn fr_mul(a: &Scalar, b: &Scalar) -> (r: Scalar)
    requires
        a.wf(),
        b.wf(),
    ensures
        r.val() == rmul(a.val(), b.val()),
        r.wf(),
{
    let x = BlsScalar::from_bytes(&a.bytes).unwrap();
    let y = BlsScalar::from_bytes(&b.bytes).unwrap();
    Scalar { bytes: (x * y).to_bytes() }
}

/// Relies on `BlsScalar::pow`: `a` to the power of the little-endian exponent `e`, modulo `q`.
#[verifier::external_body]
pub fn fr_pow(a: &Scalar, e: &[u64; 4]) -> (r: Scalar)
    requires
        a.wf(),
    ensures
        r.val() == rpow(a.val(), limbs_value(*e)),
        r.wf(),
{
    let x = BlsScalar::from_bytes(&a.bytes).unwrap();
    Scalar { bytes: x.pow(e).to_bytes() }
}

/// What `BlsScalar::hash_to_scalar` maps a byte string to (BLAKE2b-512, reduced modulo `q`).
pub uninterp spec fn hash_to_field(input: Seq<u8>) -> int;

/// Relies on `BlsScalar::hash_to_scalar`: a field element that depends on the bytes alone.
#[verifier::external_body]
pub fn fr_hash(input: &[u8]) -> (r: Scalar)
    ensures
        r.val() == hash_to_field(input@),
        r.wf(),
{
    Scalar { bytes: BlsScalar::hash_to_scalar(input).to_bytes() }
}

/// `x^5`, the forward S-box shared by all families over this field.
pub open spec fn quintic(x: int) -> int {
    rmul(rmul(rmul(x, x), rmul(x, x)), x)
}

/// Computes `x^5` as `((x^2)^2) * x`.
pub fn fr_quintic(x: &Scalar) -> (r: Scalar)
    requires
        x.wf(),
    ensures
        r.val() == quintic(x.val()),
        r.wf(),
{
    let x2 = fr_mul(x, x);
    let x4 = fr_mul(&x2, &x2);
    fr_mul(&x4, x)
}

/// Each lane raised to the exponent `e`.
pub open spec fn pow_lanes(s: Seq<int>, e: nat) -> Seq<int> {
    Seq::new(s.len(), |i: int| rpow(s[i], e))
}

/// Each lane replaced by its fifth power.
pub open spec fn quintic_lanes(s: Seq<int>) -> Seq<int> {
    Seq::new(s.len(), |i: int| quintic(s[i]))
}

/// Each lane plus the constant at the same position of `c`.
pub open spec fn add_lanes(s: Seq<int>, c: Seq<int>) -> Seq<int> {
    Seq::new(s.len(), |i: int| radd(s[i], c[i]))
}

/// The sum `row[0]*s[0] + ... + row[n-1]*s[n-1]`, reduced after each step.
pub open spec fn dot(row: Seq<int>, s: Seq<int>, n: nat) -> int
    decreases n,
{
    if n == 0 {
        0
    } else {
        radd(dot(row, s, (n - 1) as nat), rmul(row[n - 1], s[n - 1]))
    }
}

/// The product of the matrix `m` (rows of values) with the column `s`.
pub open spec fn mat_vec(m: Seq<Seq<int>>, s: Seq<int>) -> Seq<int> {
    Seq::new(m.len(), |k: int| dot(m[k], s, s.len()))
}

/// The values of the rows of a matrix of scalars.
pub open spec fn mat_vals(m: Seq<[Scalar; WIDTH]>) -> Seq<Seq<int>> {
    m.map_values(|row: [Scalar; WIDTH]| vals(row@))
}

/// Every entry of a matrix is canonical.
pub open spec fn mat_wf(m: Seq<[Scalar; WIDTH]>) -> bool {
    forall|k: int| 0 <= k < m.len() ==> all_wf((#[trigger] m[k])@)
}

/// Raises every lane of `state` to the power `e`.
pub fn pow_all(state: &mut [Scalar; WIDTH], e: &[u64; 4])
    requires
        all_wf(old(state)@),
    ensures
        all_wf(final(state)@),
        vals(final(state)@) == pow_lanes(vals(old(state)@), limbs_value(*e)),
{
    let ghost s0 = vals(state@);
    let mut i: usize = 0;
    while i < WIDTH
        invariant
            0 <= i <= WIDTH,
            all_wf(state@),
            s0.len() == WIDTH,
            forall|j: int| 0 <= j < i ==> #[trigger] state@[j].val() == rpow(s0[j], limbs_value(*e)),
            forall|j: int| i <= j < WIDTH ==> #[trigger] state@[j].val() == s0[j],
        decreases WIDTH - i,
    {
        let r = fr_pow(&state[i], e);
        state[i] = r;
        i = i + 1;
    }
    assert(vals(state@) =~= pow_lanes(s0, limbs_value(*e)));
}

/// Replaces every lane of `state` by its fifth power.
pub fn quintic_all(state: &mut [Scalar; WIDTH])
    requires
        all_wf(old(state)@),
    ensures
        all_wf(final(state)@),
        vals(final(state)@) == quintic_lanes(vals(old(state)@)),
{
    let ghost s0 = vals(state@);
    let mut i: usize = 0;
    while i < WIDTH
        invariant
            0 <= i <= WIDTH,
            all_wf(state@),
            s0.len() == WIDTH,
            forall|j: int| 0 <= j < i ==> #[trigger] state@[j].val() == quintic(s0[j]),
            forall|j: int| i <= j < WIDTH ==> #[trigger] state@[j].val() == s0[j],
        decreases WIDTH - i,
    {
        let r = fr_quintic(&state[i]);
        state[i] = r;
        i = i + 1;
    }
    assert(vals(state@) =~= quintic_lanes(s0));
}

/// Adds `c[i]` to lane `i` of `state`.
pub fn add_all(state: &mut [Scalar; WIDTH], c: &[Scalar; WIDTH])
    requires
        all_wf(old(state)@),
        all_wf(c@),
    ensures
        all_wf(final(state)@),
        vals(final(state)@) == add_lanes(vals(old(state)@), vals(c@)),
{
    let ghost s0 = vals(state@);
    let mut i: usize = 0;
    while i < WIDTH
        invariant
            0 <= i <= WIDTH,
            all_wf(state@),
            all_wf(c@),
            s0.len() == WIDTH,
            forall|j: int| 0 <= j < i ==> #[trigger] state@[j].val() == radd(s0[j], vals(c@)[j]),
            forall|j: int| i <= j < WIDTH ==> #[trigger] state@[j].val() == s0[j],
        decreases WIDTH - i,
    {
        let r = fr_add(&state[i], &c[i]);
        state[i] = r;
        i = i + 1;
    }
    assert(vals(state@) =~= add_lanes(s0, vals(c@)));
}

/// The dot product of one matrix row with the state.
fn row_dot(row: &[Scalar; WIDTH], s: &[Scalar; WIDTH]) -> (r: Scalar)
    requires
        all_wf(row@),
        all_wf(s@),
    ensures
        r.val() == dot(vals(row@), vals(s@), WIDTH as nat),
        r.wf(),
{
    let mut acc = fr_from_u64(0);
    let mut j: usize = 0;
    while j < WIDTH
        invariant
            0 <= j <= WIDTH,
            all_wf(row@),
            all_wf(s@),
            acc.wf(),
            acc.val() == dot(vals(row@), vals(s@), j as nat),
        decreases WIDTH - j,
    {
        let t = fr_mul(&row[j], &s[j]);
        acc = fr_add(&acc, &t);
        j = j + 1;
    }
    acc
}

/// Replaces `state` by the product of the matrix `m` with it.
pub fn mat_mul(state: &mut [Scalar; WIDTH], m: &[[Scalar; WIDTH]; WIDTH])
    requires
        all_wf(old(state)@),
        mat_wf(m@),
    ensures
        all_wf(final(state)@),
        vals(final(state)@) == mat_vec(mat_vals(m@), vals(old(state)@)),
{
    let ghost s0 = vals(state@);
    let old_state = *state;
    let mut k: usize = 0;
    while k < WIDTH
        invariant
            0 <= k <= WIDTH,
            all_wf(state@),
            all_wf(old_state@),
            mat_wf(m@),
            vals(old_state@) == s0,
            s0.len() == WIDTH,
            forall|j: int| 0 <= j < k ==> #[trigger] state@[j].val() == dot(mat_vals(m@)[j], s0, WIDTH as nat),
        decreases WIDTH - k,
    {
        assert(all_wf(m@[k as int]@));
        let r = row_dot(&m[k], &old_state);
        state[k] = r;
        k = k + 1;
    }
    assert(vals(state@) =~= mat_vec(mat_vals(m@), s0));
}

} // verus!
