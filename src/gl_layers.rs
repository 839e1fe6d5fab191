//! Layers shared by the width-12 permutations over the Goldilocks field.

use crate::goldilocks::{all_elems, fadd, field_add, field_mul, field_pow, fmul, fpow};
use vstd::prelude::*;

verus! {

/// The width of the state.
pub const GL_WIDTH: usize = 12;

/// The values of a state.
pub open spec fn gl_vals(s: Seq<u64>) -> Seq<int> {
    s.map_values(|x: u64| x as int)
}

/// Each lane plus the constant `c[off + i]`.
pub open spec fn gl_add_lanes(s: Seq<int>, c: Seq<u64>, off: int) -> Seq<int> {
    Seq::new(s.len(), |i: int| fadd(s[i], c[off + i] as int))
}

/// Each lane raised to the power `e`.
pub open spec fn gl_pow_lanes(s: Seq<int>, e: nat) -> Seq<int> {
    Seq::new(s.len(), |i: int| fpow(s[i], e))
}

/// The sum `row[0]*s[0] + ... + row[n-1]*s[n-1]`, lane value first, reduced after each step.
pub open spec fn gl_dot(row: Seq<u64>, s: Seq<int>, n: nat) -> int
    decreases n,
{
    if n == 0 {
        0
    } else {
        fadd(gl_dot(row, s, (n - 1) as nat), fmul(s[n - 1], row[n - 1] as int))
    }
}

/// The product of the matrix `m` with the column `s`.
pub open spec fn gl_mat_vec(m: Seq<[u64; GL_WIDTH]>, s: Seq<int>) -> Seq<int> {
    Seq::new(m.len(), |k: int| gl_dot(m[k]@, s, s.len()))
}

/// Every entry of a matrix is canonical.
pub open spec fn gl_mat_wf(m: Seq<[u64; GL_WIDTH]>) -> bool {
    forall|k: int| 0 <= k < m.len() ==> all_elems((#[trigger] m[k])@)
}

/// Adds `c[off + i]` to lane `i`.
pub fn gl_add_all(state: &mut [u64; GL_WIDTH], c: &Vec<u64>, off: usize)
    requires
        all_elems(old(state)@),
        all_elems(c@),
        off + GL_WIDTH <= c@.len(),
    ensures
        all_elems(final(state)@),
        gl_vals(final(state)@) == gl_add_lanes(gl_vals(old(state)@), c@, off as int),
{
    let ghost s0 = gl_vals(state@);
    let len = c.len();
    let mut i: usize = 0;
    while i < GL_WIDTH
        invariant
            0 <= i <= GL_WIDTH,
            len == c@.len(),
            all_elems(state@),
            all_elems(c@),
            off + GL_WIDTH <= c@.len(),
            s0.len() == GL_WIDTH,
            forall|j: int| 0 <= j < i ==> #[trigger] state@[j] as int == fadd(s0[j], c@[off + j] as int),
            forall|j: int| i <= j < GL_WIDTH ==> #[trigger] state@[j] as int == s0[j],
        decreases GL_WIDTH - i,
    {
        state[i] = field_add(state[i], c[off + i]);
        i = i + 1;
    }
    assert(gl_vals(state@) =~= gl_add_lanes(s0, c@, off as int));
}

/// Raises every lane to the power `e`.
pub fn gl_pow_all(state: &mut [u64; GL_WIDTH], e: u64)
    requires
        all_elems(old(state)@),
    ensures
        all_elems(final(state)@),
        gl_vals(final(state)@) == gl_pow_lanes(gl_vals(old(state)@), e as nat),
{
    let ghost s0 = gl_vals(state@);
    let mut i: usize = 0;
    while i < GL_WIDTH
        invariant
            0 <= i <= GL_WIDTH,
            all_elems(state@),
            s0.len() == GL_WIDTH,
            forall|j: int| 0 <= j < i ==> #[trigger] state@[j] as int == fpow(s0[j], e as nat),
            forall|j: int| i <= j < GL_WIDTH ==> #[trigger] state@[j] as int == s0[j],
        decreases GL_WIDTH - i,
    {
        state[i] = field_pow(state[i], e);
        i = i + 1;
    }
    assert(gl_vals(state@) =~= gl_pow_lanes(s0, e as nat));
}

/// Replaces `state` by the product of the matrix `m` with it.
pub fn gl_mat_mul(state: &mut [u64; GL_WIDTH], m: &[[u64; GL_WIDTH]; GL_WIDTH])
    requires
        all_elems(old(state)@),
        gl_mat_wf(m@),
    ensures
        all_elems(final(state)@),
        gl_vals(final(state)@) == gl_mat_vec(m@, gl_vals(old(state)@)),
{
    let ghost s = gl_vals(state@);
    let input = *state;
    let mut k: usize = 0;
    while k < GL_WIDTH
        invariant
            0 <= k <= GL_WIDTH,
            all_elems(state@),
            all_elems(input@),
            gl_mat_wf(m@),
            gl_vals(input@) == s,
            forall|j: int| 0 <= j < k ==> #[trigger] state@[j] as int == gl_dot(m@[j]@, s, GL_WIDTH as nat),
        decreases GL_WIDTH - k,
    {
        assert(all_elems(m@[k as int]@));
        let mut acc: u64 = 0;
        let mut j: usize = 0;
        while j < GL_WIDTH
            invariant
                0 <= j <= GL_WIDTH,
                k < GL_WIDTH,
                all_elems(input@),
                all_elems(m@[k as int]@),
                gl_vals(input@) == s,
                acc < crate::goldilocks::ORDER,
                acc as int == gl_dot(m@[k as int]@, s, j as nat),
            decreases GL_WIDTH - j,
        {
            let t = field_mul(input[j], m[k][j]);
            acc = field_add(acc, t);
            j = j + 1;
        }
        state[k] = acc;
        k = k + 1;
    }
    assert(gl_vals(state@) =~= gl_mat_vec(m@, s));
}

} // verus!
