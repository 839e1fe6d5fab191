//! Arithmetic in the Goldilocks field, `p = 2^64 - 2^32 + 1`.
//!
//! A field element is a `u64` below [`ORDER`]. Each operation is proved to
//! compute its modular formula.

use vstd::arithmetic::div_mod::{lemma_mod_add_multiples_vanish, lemma_mul_mod_noop_general};
use vstd::arithmetic::power::{
    lemma_pow0, lemma_pow1, lemma_pow_adds, lemma_pow_mod_noop, lemma_pow_multiplies,
    lemma_square_is_pow2, pow,
};
use vstd::prelude::*;

verus! {

/// The order of the Goldilocks field.
pub const ORDER: u64 = 0xFFFF_FFFF_0000_0001;

/// The prime modulus as an integer.
pub open spec fn p() -> int {
    ORDER as int
}

/// A canonical field element.
pub open spec fn is_elem(x: u64) -> bool {
    x < ORDER
}

/// All values of a sequence are canonical field elements.
pub open spec fn all_elems(s: Seq<u64>) -> bool {
    forall|i: int| 0 <= i < s.len() ==> #[trigger] s[i] < ORDER
}

/// Field addition.
pub open spec fn fadd(a: int, b: int) -> int {
    (a + b) % p()
}

/// Field subtraction.
pub open spec fn fsub(a: int, b: int) -> int {
    (a - b) % p()
}

/// Field multiplication.
pub open spec fn fmul(a: int, b: int) -> int {
    (a * b) % p()
}

/// Exponentiation by a public exponent.
pub open spec fn fpow(a: int, e: nat) -> int {
    pow(a, e) % p()
}

/// The sum of two field elements.
pub fn field_add(a: u64, b: u64) -> (r: u64)
    requires
        is_elem(a),
        is_elem(b),
    ensures
        r as int == fadd(a as int, b as int),
        is_elem(r),
{
    let s: u128 = (a as u128) + (b as u128);
    (s % (ORDER as u128)) as u64
}

/// The difference of two field elements.
pub fn field_sub(a: u64, b: u64) -> (r: u64)
    requires
        is_elem(a),
        is_elem(b),
    ensures
        r as int == fsub(a as int, b as int),
        is_elem(r),
{
    let s: u128 = (a as u128) + (ORDER as u128) - (b as u128);
    proof {
        lemma_mod_add_multiples_vanish(a - b, p());
    }
    (s % (ORDER as u128)) as u64
}

/// The product of two field elements.
pub fn field_mul(a: u64, b: u64) -> (r: u64)
    requires
        is_elem(a),
        is_elem(b),
    ensures
        r as int == fmul(a as int, b as int),
        is_elem(r),
{
    assert((a as int) * (b as int) <= (u64::MAX as int) * (u64::MAX as int)) by (nonlinear_arith)
        requires
            a <= u64::MAX,
            b <= u64::MAX,
    ;
    let s: u128 = (a as u128) * (b as u128);
    (s % (ORDER as u128)) as u64
}

proof fn lemma_square_step(r: int, b: int, k: nat)
    requires
        k > 0,
    ensures
        k % 2 == 1 ==> (fmul(r, b) * pow(fmul(b, b), k / 2)) % p() == (r * pow(b, k)) % p(),
        k % 2 == 0 ==> (r * pow(fmul(b, b), k / 2)) % p() == (r * pow(b, k)) % p(),
{
    let q: nat = k / 2;
    let bb = b * b;
    lemma_pow_mod_noop(bb, q, p());
    lemma_square_is_pow2(b);
    lemma_pow_multiplies(b, 2, q);
    assert(pow(bb, q) == pow(b, 2 * q));
    let x = pow(fmul(b, b), q);
    let y = pow(bb, q);
    assert(x % p() == y % p());
    if k % 2 == 1 {
        lemma_pow_adds(b, 2 * q, 1);
        lemma_pow1(b);
        assert(pow(b, k) == y * b);
        lemma_mul_mod_noop_general(r * b, x, p());
        lemma_mul_mod_noop_general(r * b, y, p());
        assert((fmul(r, b) * x) % p() == ((r * b) * (x % p())) % p());
        assert((r * b) * y == r * (y * b)) by (nonlinear_arith);
    } else {
        assert(k == 2 * q);
        lemma_mul_mod_noop_general(r, x, p());
        lemma_mul_mod_noop_general(r, y, p());
    }
}

/// `a` raised to the public exponent `e`, by square and multiply.
pub fn field_pow(a: u64, e: u64) -> (r: u64)
    requires
        is_elem(a),
    ensures
        r as int == fpow(a as int, e as nat),
        is_elem(r),
{
    let mut result: u64 = 1;
    let mut base: u64 = a;
    let mut k: u64 = e;
    proof {
        lemma_pow0(a as int);
    }
    while k > 0
        invariant
            is_elem(result),
            is_elem(base),
            (result * pow(base as int, k as nat)) % p() == pow(a as int, e as nat) % p(),
        decreases k,
    {
        proof {
            lemma_square_step(result as int, base as int, k as nat);
        }
        if k % 2 == 1 {
            result = field_mul(result, base);
        }
        base = field_mul(base, base);
        k = k / 2;
    }
    proof {
        lemma_pow0(base as int);
        vstd::arithmetic::div_mod::lemma_small_mod(result as nat, p() as nat);
    }
    result
}

/// Relies on rand's `Rng::gen_range` on the thread-local generator: a value below `bound`.
#[verifier::external_body]
fn random_below(bound: u64) -> (r: u64)
    requires
        bound > 0,
    ensures
        r < bound,
{
    rand::Rng::gen_range(&mut rand::thread_rng(), 0..bound)
}

/// `n` field elements drawn at random.
pub fn random_elems(n: usize) -> (r: Vec<u64>)
    ensures
        r@.len() == n,
        all_elems(r@),
{
    let mut v: Vec<u64> = Vec::new();
    let mut i: usize = 0;
    while i < n
        invariant
            i <= n,
            v@.len() == i,
            all_elems(v@),
        decreases n - i,
    {
        v.push(random_below(ORDER));
        i = i + 1;
    }
    v
}

} // verus!
