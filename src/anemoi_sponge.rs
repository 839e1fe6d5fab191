//! The Anemoi permutation and hash over the Goldilocks field, width 12: six
//! columns, `x = state[0..6]` and `y = state[6..12]`.

use crate::gl_layers::{gl_add_all, gl_add_lanes, gl_vals, GL_WIDTH};
use crate::goldilocks::{
    all_elems, fadd, field_add, field_mul, field_pow, field_sub, fmul, fpow, fsub, is_elem, ORDER,
};
use vstd::prelude::*;

verus! {

/// The number of columns.
pub const NUM_COLUMNS: usize = 6;

/// The number of rounds.
pub const NUMBER_OF_ROUNDS: usize = 10;

/// The number of lanes that take input.
pub const SPONGE_RATE: usize = 8;

/// The inverse exponent `1/7` modulo `p - 1`.
pub const ALPHA_INV: u64 = 10540996611094048183;

/// The coefficient of the Flystel's quadratic.
pub const BETA: u64 = 7;

/// The constant added by the Flystel.
pub const DELTA: u64 = 2635249152773512046;

/// Anemoi with its round constants.
pub struct Anemoi {
    /// Per round, the six constants `C` added to `x`, then the six `D` added to `y`.
    pub round_constants: Vec<u64>,
}

/// The first row of the 6 by 6 MDS matrix; row `i` is it rotated right by `i`.
pub open spec fn mds_row0(k: int) -> int {
    if k == 0 { 1 } else if k == 1 { 1 } else if k == 2 { 3 } else if k == 3 { 4 } else if k == 4 { 5 } else { 6 }
}

/// Entry `(i, j)` of the MDS matrix.
pub open spec fn mds6(i: int, j: int) -> int {
    mds_row0((j - i + 6) % 6)
}

fn mds6_exec(i: usize, j: usize) -> (r: u64)
    requires
        i < 6,
        j < 6,
    ensures
        r as int == mds6(i as int, j as int),
{
    match (j + 6 - i) % 6 {
        0 => 1,
        1 => 1,
        2 => 3,
        3 => 4,
        4 => 5,
        _ => 6,
    }
}

/// Row `i` of the MDS matrix times the first `n` values.
pub open spec fn mix_dot(i: int, v: Seq<int>, n: nat) -> int
    decreases n,
{
    if n == 0 {
        0
    } else {
        fadd(mix_dot(i, v, (n - 1) as nat), fmul(v[n - 1], mds6(i, n - 1)))
    }
}

/// The MDS matrix applied to six values.
pub open spec fn mix6(v: Seq<int>) -> Seq<int> {
    Seq::new(6, |i: int| mix_dot(i, v, 6))
}

/// The linear layer: mix `x`, mix `y` rotated by one column, then `y += x; x += y`.
pub open spec fn linear_layer(s: Seq<int>) -> Seq<int> {
    let x = mix6(s.subrange(0, 6));
    let y = mix6(Seq::new(6, |i: int| if i < 5 { s[7 + i] } else { s[6] }));
    let y2 = Seq::new(6, |i: int| fadd(y[i], x[i]));
    let x2 = Seq::new(6, |i: int| fadd(x[i], y2[i]));
    x2 + y2
}

/// The Flystel on one column.
pub open spec fn flystel(x: int, y: int) -> (int, int) {
    let x1 = fsub(x, fmul(7, fmul(y, y)));
    let y1 = fsub(y, fpow(x1, ALPHA_INV as nat));
    let x2 = fadd(x1, fadd(fmul(7, fmul(y1, y1)), DELTA as int));
    (x2, y1)
}

/// The S-box layer.
pub open spec fn sbox_layer(s: Seq<int>) -> Seq<int> {
    Seq::new(12, |i: int| if i < 6 { flystel(s[i], s[i + 6]).0 } else { flystel(s[i - 6], s[i]).1 })
}

fn mix(v: &[u64; NUM_COLUMNS]) -> (r: [u64; NUM_COLUMNS])
    requires
        all_elems(v@),
    ensures
        all_elems(r@),
        gl_vals(r@) == mix6(gl_vals(v@)),
{
    let ghost g = gl_vals(v@);
    let mut out = [0u64; NUM_COLUMNS];
    let mut i: usize = 0;
    while i < NUM_COLUMNS
        invariant
            0 <= i <= 6,
            all_elems(v@),
            all_elems(out@),
            g == gl_vals(v@),
            forall|k: int| 0 <= k < i ==> #[trigger] out@[k] as int == mix_dot(k, g, 6),
        decreases 6 - i,
    {
        let mut acc: u64 = 0;
        let mut j: usize = 0;
        while j < NUM_COLUMNS
            invariant
                0 <= j <= 6,
                i < 6,
                all_elems(v@),
                g == gl_vals(v@),
                is_elem(acc),
                acc as int == mix_dot(i as int, g, j as nat),
            decreases 6 - j,
        {
            let t = field_mul(v[j], mds6_exec(i, j));
            acc = field_add(acc, t);
            j = j + 1;
        }
        out[i] = acc;
        i = i + 1;
    }
    assert(gl_vals(out@) =~= mix6(g));
    out
}

impl Anemoi {
    /// Ten rounds of twelve canonical constants.
    pub open spec fn valid(&self) -> bool {
        self.round_constants@.len() == GL_WIDTH * NUMBER_OF_ROUNDS && all_elems(self.round_constants@)
    }

    /// The state after the first `n` rounds.
    pub open spec fn rounds(&self, s: Seq<int>, n: nat) -> Seq<int>
        decreases n,
    {
        if n == 0 {
            s
        } else {
            let t = self.rounds(s, (n - 1) as nat);
            sbox_layer(linear_layer(gl_add_lanes(t, self.round_constants@, 12 * (n - 1))))
        }
    }

    /// The permutation: every round, then a closing linear layer.
    pub open spec fn perm(&self, s: Seq<int>) -> Seq<int> {
        linear_layer(self.rounds(s, NUMBER_OF_ROUNDS as nat))
    }

    /// Squeezes `n` elements from position `pos`, permuting after each eight.
    pub open spec fn squeeze(&self, s: Seq<int>, pos: int, n: nat) -> (Seq<int>, int, Seq<int>)
        decreases n,
    {
        if n == 0 {
            (s, pos, seq![])
        } else {
            let (t, p, o) = self.squeeze(s, pos, (n - 1) as nat);
            let o2 = o.push(t[p]);
            if p + 1 == 8 {
                (self.perm(t), 0, o2)
            } else {
                (t, p + 1, o2)
            }
        }
    }

    /// The hash of eight elements into `h` elements: absorb them into the rate,
    /// permute, add 1 to the last lane, then squeeze.
    pub open spec fn hash_spec(&self, input: Seq<u64>, h: nat) -> Seq<int> {
        let s = self.perm(gl_vals(input) + seq![0int, 0int, 0int, 0int]);
        self.squeeze(s.update(11, fadd(s[11], 1)), 0, h).2
    }

    /// Creates Anemoi from its round constants.
    pub fn new(round_constants: Vec<u64>) -> (r: Self)
        requires
            round_constants@.len() == GL_WIDTH * NUMBER_OF_ROUNDS,
            all_elems(round_constants@),
        ensures
            r.valid(),
            r.round_constants@ == round_constants@,
    {
        Anemoi { round_constants }
    }

    /// Applies the linear layer.
    pub fn linear_layer(state: &mut [u64; GL_WIDTH])
        requires
            all_elems(old(state)@),
        ensures
            all_elems(final(state)@),
            gl_vals(final(state)@) == linear_layer(gl_vals(old(state)@)),
    {
        let ghost s = gl_vals(state@);
        let xin = [state[0], state[1], state[2], state[3], state[4], state[5]];
        let yin = [state[7], state[8], state[9], state[10], state[11], state[6]];
        assert(gl_vals(xin@) =~= s.subrange(0, 6));
        assert(gl_vals(yin@) =~= Seq::new(6, |i: int| if i < 5 { s[7 + i] } else { s[6] }));
        let x = mix(&xin);
        let y = mix(&yin);
        let mut i: usize = 0;
        while i < NUM_COLUMNS
            invariant
                0 <= i <= 6,
                all_elems(state@),
                all_elems(x@),
                all_elems(y@),
                s.len() == 12,
                gl_vals(x@) == mix6(s.subrange(0, 6)),
                gl_vals(y@) == mix6(Seq::new(6, |i: int| if i < 5 { s[7 + i] } else { s[6] })),
                forall|j: int| 0 <= j < i ==> #[trigger] state@[j + 6] as int == fadd(y@[j] as int, x@[j] as int),
                forall|j: int|
                    0 <= j < i ==> #[trigger] state@[j] as int == fadd(x@[j] as int, fadd(y@[j] as int, x@[j] as int)),
            decreases 6 - i,
        {
            let yi = field_add(y[i], x[i]);
            let xi = field_add(x[i], yi);
            state[i + 6] = yi;
            state[i] = xi;
            i = i + 1;
        }
        assert forall|j: int| 0 <= j < 12 implies #[trigger] gl_vals(state@)[j] == linear_layer(s)[j] by {
            if j >= 6 {
                assert(state@[(j - 6) + 6] as int == fadd(y@[j - 6] as int, x@[j - 6] as int));
            }
        }
        assert(gl_vals(state@) =~= linear_layer(s));
    }

    /// Applies the S-box layer.
    fn evaluate_sbox(state: &mut [u64; GL_WIDTH])
        requires
            all_elems(old(state)@),
        ensures
            all_elems(final(state)@),
            gl_vals(final(state)@) == sbox_layer(gl_vals(old(state)@)),
    {
        let ghost s = gl_vals(state@);
        let mut i: usize = 0;
        while i < NUM_COLUMNS
            invariant
                0 <= i <= 6,
                all_elems(state@),
                s.len() == 12,
                forall|j: int| 0 <= j < i ==> #[trigger] state@[j] as int == flystel(s[j], s[j + 6]).0,
                forall|j: int| 0 <= j < i ==> #[trigger] state@[j + 6] as int == flystel(s[j], s[j + 6]).1,
                forall|j: int| i <= j < 6 ==> #[trigger] state@[j] as int == s[j],
                forall|j: int| i <= j < 6 ==> #[trigger] state@[j + 6] as int == s[j + 6],
            decreases 6 - i,
        {
            let y = state[i + 6];
            let y2 = field_mul(y, y);
            let t = field_mul(BETA, y2);
            let x1 = field_sub(state[i], t);
            let p = field_pow(x1, ALPHA_INV);
            let y1 = field_sub(y, p);
            let y12 = field_mul(y1, y1);
            let t = field_mul(BETA, y12);
            let t = field_add(t, DELTA);
            state[i] = field_add(x1, t);
            state[i + 6] = y1;
            i = i + 1;
        }
        assert forall|j: int| 0 <= j < 12 implies #[trigger] gl_vals(state@)[j] == sbox_layer(s)[j] by {
            if j >= 6 {
                assert(state@[(j - 6) + 6] as int == flystel(s[j - 6], s[(j - 6) + 6]).1);
            }
        }
        assert(gl_vals(state@) =~= sbox_layer(s));
    }

    /// Applies the permutation.
    pub fn anemoi_permutation(&self, state: &mut [u64; GL_WIDTH])
        requires
            self.valid(),
            all_elems(old(state)@),
        ensures
            all_elems(final(state)@),
            gl_vals(final(state)@) == self.perm(gl_vals(old(state)@)),
    {
        let ghost s0 = gl_vals(state@);
        let mut j: usize = 0;
        while j < NUMBER_OF_ROUNDS
            invariant
                0 <= j <= NUMBER_OF_ROUNDS,
                self.valid(),
                all_elems(state@),
                gl_vals(state@) == self.rounds(s0, j as nat),
            decreases NUMBER_OF_ROUNDS - j,
        {
            gl_add_all(state, &self.round_constants, j * GL_WIDTH);
            Self::linear_layer(state);
            Self::evaluate_sbox(state);
            j = j + 1;
        }
        Self::linear_layer(state);
    }

    /// Hashes eight elements into `h` elements.
    pub fn anemoi_hash(&self, input: [u64; SPONGE_RATE], h: usize) -> (r: Vec<u64>)
        requires
            self.valid(),
            all_elems(input@),
        ensures
            all_elems(r@),
            gl_vals(r@) == self.hash_spec(input@, h as nat),
    {
        let mut state = [0u64; GL_WIDTH];
        let mut i: usize = 0;
        while i < SPONGE_RATE
            invariant
                0 <= i <= 8,
                all_elems(input@),
                all_elems(state@),
                forall|j: int| 0 <= j < i ==> #[trigger] state@[j] == input@[j],
                forall|j: int| i <= j < 12 ==> #[trigger] state@[j] == 0,
            decreases 8 - i,
        {
            state[i] = field_add(state[i], input[i]);
            proof {
                vstd::arithmetic::div_mod::lemma_small_mod(input@[i as int] as nat, ORDER as nat);
            }
            i = i + 1;
        }
        let ghost full = gl_vals(input@) + seq![0int, 0int, 0int, 0int];
        assert forall|j: int| 0 <= j < 12 implies #[trigger] gl_vals(state@)[j] == full[j] by {
            if j < 8 {
                assert(full[j] == gl_vals(input@)[j]);
            } else {
                assert(full[j] == seq![0int, 0int, 0int, 0int][j - 8]);
            }
        }
        assert(gl_vals(state@) =~= full);
        self.anemoi_permutation(&mut state);
        let ghost p = gl_vals(state@);
        state[11] = field_add(state[11], 1);
        assert(gl_vals(state@) =~= p.update(11, fadd(p[11], 1)));
        let ghost s1 = gl_vals(state@);
        let mut digest: Vec<u64> = Vec::new();
        let mut pos: usize = 0;
        let mut k: usize = 0;
        while k < h
            invariant
                0 <= k <= h,
                self.valid(),
                all_elems(state@),
                all_elems(digest@),
                pos < 8,
                ({
                    let (t, q, o) = self.squeeze(s1, 0, k as nat);
                    &&& gl_vals(state@) == t
                    &&& pos as int == q
                    &&& gl_vals(digest@) == o
                }),
            decreases h - k,
        {
            let ghost before = digest@;
            digest.push(state[pos]);
            assert(gl_vals(digest@) =~= gl_vals(before).push(state@[pos as int] as int));
            pos = pos + 1;
            if pos == SPONGE_RATE {
                pos = 0;
                self.anemoi_permutation(&mut state);
            }
            k = k + 1;
        }
        digest
    }
}

} // verus!
