//! The Hades (Poseidon-style) permutation over the BLS12-381 scalar field,
//! width 8: four full rounds, fifty-seven partial rounds, four full rounds.
//! Every round adds constants, applies `x^5` (to every lane in a full round,
//! to lane 0 in a partial round) and mixes with the MDS matrix.

use crate::bls::{
    add_all, add_lanes, all_wf, fr_add, fr_from_u64, fr_hash, fr_quintic, le_value, mat_mul,
    mat_vals, mat_vec, mat_wf, quintic, quintic_all, quintic_lanes, radd, rmul, vals, Scalar, q,
    WIDTH,
};
use crate::circuit::{
    add_all_gadget, extends, mat_mul_gadget, quintic_all_gadget, quintic_gadget, wire_vals,
    wires_exist, Circuit,
};
use crate::permutation::{GadgetPermute, Permutation};
use dusk_bls12_381::BlsScalar;
use sha2::Digest;
use vstd::prelude::*;

verus! {

/// The number of full rounds at each end.
pub const HALF_FULL_ROUNDS: usize = 4;

/// The number of partial rounds.
pub const PARTIAL_ROUNDS: usize = 57;

/// The total number of rounds.
pub const ROUNDS: usize = 65;

/// Hades with its tables.
pub struct ScalarPermutation {
    /// One row of constants per round.
    pub round_constants: Vec<[Scalar; WIDTH]>,
    /// The MDS matrix, by rows.
    pub mds: [[Scalar; WIDTH]; WIDTH],
}

/// Whether round `r` is a full round.
pub open spec fn is_full(r: int) -> bool {
    r < HALF_FULL_ROUNDS || r >= HALF_FULL_ROUNDS + PARTIAL_ROUNDS
}

impl ScalarPermutation {
    /// The tables are complete and canonical.
    pub open spec fn valid(&self) -> bool {
        &&& self.round_constants@.len() == ROUNDS
        &&& forall|r: int| 0 <= r < ROUNDS ==> all_wf((#[trigger] self.round_constants@[r])@)
        &&& mat_wf(self.mds@)
    }

    /// Round `r`.
    pub open spec fn round(&self, s: Seq<int>, r: int) -> Seq<int> {
        let c = add_lanes(s, vals(self.round_constants@[r]@));
        let b = if is_full(r) { quintic_lanes(c) } else { c.update(0, quintic(c[0])) };
        mat_vec(mat_vals(self.mds@), b)
    }

    /// The state after the first `n` rounds.
    pub open spec fn rounds(&self, s: Seq<int>, n: nat) -> Seq<int>
        decreases n,
    {
        if n == 0 {
            s
        } else {
            self.round(self.rounds(s, (n - 1) as nat), n - 1)
        }
    }

    /// Creates Hades from its tables.
    pub fn new(round_constants: Vec<[Scalar; WIDTH]>, mds: [[Scalar; WIDTH]; WIDTH]) -> (r: Self)
        requires
            round_constants@.len() == ROUNDS,
            forall|i: int| 0 <= i < ROUNDS ==> all_wf((#[trigger] round_constants@[i])@),
            mat_wf(mds@),
        ensures
            r.valid(),
            r.round_constants@ == round_constants@,
            r.mds == mds,
    {
        ScalarPermutation { round_constants, mds }
    }

    /// Runs every round.
    fn run(&self, state: &mut [Scalar; WIDTH])
        requires
            self.valid(),
            all_wf(old(state)@),
        ensures
            all_wf(final(state)@),
            vals(final(state)@) == self.rounds(vals(old(state)@), ROUNDS as nat),
    {
        let ghost s0 = vals(state@);
        let mut r: usize = 0;
        while r < ROUNDS
            invariant
                0 <= r <= ROUNDS,
                self.valid(),
                all_wf(state@),
                vals(state@) == self.rounds(s0, r as nat),
            decreases ROUNDS - r,
        {
            assert(all_wf(self.round_constants@[r as int]@));
            add_all(state, &self.round_constants[r]);
            if r < HALF_FULL_ROUNDS || r >= HALF_FULL_ROUNDS + PARTIAL_ROUNDS {
                quintic_all(state);
            } else {
                let ghost c = vals(state@);
                let x = fr_quintic(&state[0]);
                state[0] = x;
                assert(vals(state@) =~= c.update(0, quintic(c[0])));
            }
            mat_mul(state, &self.mds);
            r = r + 1;
        }
    }
}

impl Permutation for ScalarPermutation {
    open spec fn wf(&self) -> bool {
        self.valid()
    }

    open spec fn spec_permute(&self, s: Seq<int>) -> Seq<int> {
        self.rounds(s, ROUNDS as nat)
    }

    fn permute(&self, state: &mut [Scalar; WIDTH]) {
        self.run(state);
    }

    fn tag(&self, input: &[u8]) -> (r: Scalar) {
        fr_hash(input)
    }

    fn add(&self, a: &Scalar, b: &Scalar) -> (r: Scalar) {
        fr_add(a, b)
    }
}

/// Hades in circuit mode, over the same tables.
pub struct GadgetPermutation<'a> {
    pub tables: &'a ScalarPermutation,
}

impl<'a> GadgetPermutation<'a> {
    /// Creates the circuit-mode permutation.
    pub fn new(tables: &'a ScalarPermutation) -> (r: Self)
        ensures
            r.tables == tables,
    {
        GadgetPermutation { tables }
    }

    /// Permutes the wires of `state`, appending the gates of every round to
    /// the circuit. The new wires hold exactly what the native permutation
    /// computes from the old wires' values.
    pub fn permute_wires(&self, c: &mut Circuit, state: &mut [usize; WIDTH])
        requires
            self.tables.valid(),
            old(c).inv(),
            wires_exist(old(c).values(), *old(state)),
        ensures
            final(c).inv(),
            extends(final(c).values(), old(c).values()),
            wires_exist(final(c).values(), *final(state)),
            wire_vals(final(c).values(), *final(state)) == self.tables.spec_permute(
                wire_vals(old(c).values(), *old(state)),
            ),
    {
        let t = self.tables;
        let ghost s0 = wire_vals(c.values(), *state);
        let ghost v0 = c.values();
        let mut r: usize = 0;
        while r < ROUNDS
            invariant
                0 <= r <= ROUNDS,
                t.valid(),
                c.inv(),
                extends(c.values(), v0),
                wires_exist(c.values(), *state),
                wire_vals(c.values(), *state) == t.rounds(s0, r as nat),
            decreases ROUNDS - r,
        {
            assert(all_wf(t.round_constants@[r as int]@));
            add_all_gadget(c, state, &t.round_constants[r]);
            if r < HALF_FULL_ROUNDS || r >= HALF_FULL_ROUNDS + PARTIAL_ROUNDS {
                quintic_all_gadget(c, state);
            } else {
                let ghost cur = wire_vals(c.values(), *state);
                let w = quintic_gadget(c, state[0]);
                state[0] = w;
                assert(wire_vals(c.values(), *state) =~= cur.update(0, quintic(cur[0])));
            }
            mat_mul_gadget(c, state, &t.mds);
            r = r + 1;
        }
    }
}

impl<'a> GadgetPermute<ScalarPermutation> for GadgetPermutation<'a> {
    open spec fn native(&self) -> ScalarPermutation {
        *self.tables
    }

    fn permute(&self, c: &mut Circuit, state: &mut [usize; WIDTH]) {
        self.permute_wires(c, state);
    }
}

/// What SHA-512 maps a byte string to.
pub uninterp spec fn sha512_of(input: Seq<u8>) -> Seq<u8>;

/// Relies on sha2's `Sha512::digest`: the 64-byte digest of the input.
#[verifier::external_body]
fn sha512(input: &[u8]) -> (r: Vec<u8>)
    ensures
        r@ == sha512_of(input@),
        r@.len() == 64,
{
    sha2::Sha512::digest(input).to_vec()
}

/// Relies on `BlsScalar::from_bytes_wide`: the 512-bit little-endian integer
/// reduced modulo `q`.
#[verifier::external_body]
fn fr_from_bytes_wide(bytes: &[u8; 64]) -> (r: Scalar)
    ensures
        r.wf(),
        r.val() == le_value(bytes@) % q(),
{
    Scalar { bytes: BlsScalar::from_bytes_wide(bytes).to_bytes() }
}

/// Relies on `BlsScalar::invert`, which fails exactly on zero: the inverse.
#[verifier::external_body]
fn fr_invert(a: &Scalar) -> (r: Option<Scalar>)
    requires
        a.wf(),
    ensures
        r is Some <==> a.val() != 0,
        r matches Some(x) ==> x.wf() && rmul(a.val(), x.val()) == 1,
{
    let x = BlsScalar::from_bytes(&a.bytes).unwrap();
    x.invert().map(|y| Scalar { bytes: y.to_bytes() })
}

/// The `k`-th hash of the seed: SHA-512 applied `k` times.
pub open spec fn hash_chain(seed: Seq<u8>, k: nat) -> Seq<u8>
    decreases k,
{
    if k == 0 { seed } else { sha512_of(hash_chain(seed, (k - 1) as nat)) }
}

/// The `k`-th round constant: the `(k + 1)`-th hash of the seed read as a
/// 512-bit little-endian integer, plus the previous constant, starting from 1.
pub open spec fn constant_of(seed: Seq<u8>, k: nat) -> int
    decreases k,
{
    let prev = if k == 0 { 1 } else { constant_of(seed, (k - 1) as nat) };
    radd(le_value(hash_chain(seed, k + 1)) % q(), prev)
}

/// The seed of the round constants.
pub open spec fn constants_seed() -> Seq<u8> {
    seq![112u8, 111, 115, 101, 105, 100, 111, 110, 45, 102, 111, 114, 45, 112, 108, 111, 110, 107]
}

/// Generates the `WIDTH * ROUNDS` round constants from the seed
/// `"poseidon-for-plonk"`, grouped by round.
pub fn constants() -> (r: Vec<[Scalar; WIDTH]>)
    ensures
        r@.len() == ROUNDS,
        forall|i: int| 0 <= i < ROUNDS ==> all_wf(#[trigger] r@[i]@),
        forall|i: int, j: int|
            0 <= i < ROUNDS && 0 <= j < WIDTH ==> #[trigger] r@[i]@[j].val() == constant_of(
                constants_seed(),
                (i * WIDTH + j) as nat,
            ),
{
    let seed: Vec<u8> = vec![112u8, 111, 115, 101, 105, 100, 111, 110, 45, 102, 111, 114, 45, 112, 108, 111, 110, 107];
    assert(seed@ =~= constants_seed());
    let mut bytes = seed;
    let mut prev = fr_from_u64(1);
    let mut rows: Vec<[Scalar; WIDTH]> = Vec::new();
    let mut r: usize = 0;
    while r < ROUNDS
        invariant
            0 <= r <= ROUNDS,
            rows@.len() == r,
            prev.wf(),
            bytes@ == hash_chain(constants_seed(), (r * WIDTH) as nat),
            r == 0 ==> prev.val() == 1,
            r > 0 ==> prev.val() == constant_of(constants_seed(), (r * WIDTH - 1) as nat),
            forall|i: int| 0 <= i < r ==> all_wf(#[trigger] rows@[i]@),
            forall|i: int, j: int|
                0 <= i < r && 0 <= j < WIDTH ==> #[trigger] rows@[i]@[j].val() == constant_of(
                    constants_seed(),
                    (i * WIDTH + j) as nat,
                ),
        decreases ROUNDS - r,
    {
        let mut row = [prev; WIDTH];
        let mut j: usize = 0;
        while j < WIDTH
            invariant
                0 <= j <= WIDTH,
                r < ROUNDS,
                prev.wf(),
                all_wf(row@),
                bytes@ == hash_chain(constants_seed(), (r * WIDTH + j) as nat),
                r == 0 && j == 0 ==> prev.val() == 1,
                r > 0 || j > 0 ==> prev.val() == constant_of(constants_seed(), (r * WIDTH + j - 1) as nat),
                forall|k: int| 0 <= k < j ==> #[trigger] row@[k].val() == constant_of(
                    constants_seed(),
                    (r * WIDTH + k) as nat,
                ),
            decreases WIDTH - j,
        {
            let h = sha512(bytes.as_slice());
            let wide: [u8; 64] = [
                h[0], h[1], h[2], h[3], h[4], h[5], h[6], h[7], h[8], h[9], h[10], h[11], h[12], h[13], h[14], h[15],
                h[16], h[17], h[18], h[19], h[20], h[21], h[22], h[23], h[24], h[25], h[26], h[27], h[28], h[29], h[30], h[31],
                h[32], h[33], h[34], h[35], h[36], h[37], h[38], h[39], h[40], h[41], h[42], h[43], h[44], h[45], h[46], h[47],
                h[48], h[49], h[50], h[51], h[52], h[53], h[54], h[55], h[56], h[57], h[58], h[59], h[60], h[61], h[62], h[63],
            ];
            assert(wide@ =~= h@);
            let v = fr_from_bytes_wide(&wide);
            let c = fr_add(&v, &prev);
            proof {
                let k = (r * WIDTH + j) as nat;
                assert(hash_chain(constants_seed(), k + 1) == sha512_of(hash_chain(constants_seed(), k)));
                if k > 0 {
                    assert((k - 1) as nat == (r * WIDTH + j - 1) as nat);
                }
            }
            row[j] = c;
            prev = c;
            bytes = h;
            j = j + 1;
        }
        rows.push(row);
        r = r + 1;
    }
    rows
}

/// Entry `(i, j)` of the Cauchy MDS matrix: the inverse of `i + j + WIDTH`.
pub open spec fn is_cauchy_entry(x: int, i: int, j: int) -> bool {
    rmul(i + j + WIDTH, x) == 1
}

/// Generates the Cauchy MDS matrix `1 / (x_i + y_j)` with `x_i = i` and `y_j = j + WIDTH`.
pub fn mds() -> (m: [[Scalar; WIDTH]; WIDTH])
    ensures
        mat_wf(m@),
        forall|i: int, j: int| 0 <= i < WIDTH && 0 <= j < WIDTH ==> is_cauchy_entry(#[trigger] m@[i]@[j].val(), i, j),
{
    let one = fr_from_u64(1);
    let mut m = [[one; WIDTH]; WIDTH];
    let mut i: usize = 0;
    while i < WIDTH
        invariant
            0 <= i <= WIDTH,
            one.wf(),
            forall|a: int| 0 <= a < WIDTH ==> all_wf(#[trigger] m@[a]@),
            forall|a: int, b: int| 0 <= a < i && 0 <= b < WIDTH ==> is_cauchy_entry(#[trigger] m@[a]@[b].val(), a, b),
        decreases WIDTH - i,
    {
        let mut row = [one; WIDTH];
        let mut j: usize = 0;
        while j < WIDTH
            invariant
                0 <= j <= WIDTH,
                i < WIDTH,
                one.wf(),
                all_wf(row@),
                forall|b: int| 0 <= b < j ==> is_cauchy_entry(#[trigger] row@[b].val(), i as int, b),
            decreases WIDTH - j,
        {
            let d = fr_from_u64((i + j + WIDTH) as u64);
            match fr_invert(&d) {
                Some(x) => {
                    row[j] = x;
                },
                None => {
                    assert(false);
                },
            }
            j = j + 1;
        }
        m[i] = row;
        i = i + 1;
    }
    m
}

} // verus!
