//! The hash facade: collects input chunks, derives the io-pattern from a
//! domain, and drives a sponge over any permutation.

use crate::bls::{all_wf, le_value, vals, Scalar};
use crate::permutation::Permutation;
use crate::sponge::{
    absorb_run, be64, encode_runs, initial_state, runs, runs_fit, squeeze_run, tag_bytes,
    valid_pattern, Call, Error, Sponge, RATE,
};
use crate::bls::hash_to_field;
use vstd::arithmetic::power::pow;
use vstd::prelude::*;

verus! {

/// The domain that a hash is computed for.
#[derive(Clone, Copy, Debug, PartialEq, Eq, Structural)]
pub enum Domain {
    /// A level of a 4-ary Merkle tree: exactly 4 input elements, 1 output.
    Merkle4,
    /// A level of a 2-ary Merkle tree: exactly 2 input elements, 1 output.
    Merkle2,
    /// Hashing for encryption.
    Encryption,
    /// Any other use.
    Other,
}

/// The 64-bit domain separator of a domain.
pub open spec fn domain_value(d: Domain) -> u64 {
    match d {
        Domain::Merkle4 => 0xf,
        Domain::Merkle2 => 0x3,
        Domain::Encryption => 0x1_0000_0000,
        Domain::Other => 0,
    }
}

impl Domain {
    /// The 64-bit domain separator that seeds the sponge's tag.
    pub fn separator(&self) -> (r: u64)
        ensures
            r == domain_value(*self),
    {
        match self {
            Domain::Merkle4 => 0x0000_0000_0000_000f,
            Domain::Merkle2 => 0x0000_0000_0000_0003,
            Domain::Encryption => 0x0000_0001_0000_0000,
            Domain::Other => 0x0000_0000_0000_0000,
        }
    }
}

impl From<Domain> for u64 {
    fn from(domain: Domain) -> (r: u64) {
        domain.separator()
    }
}

impl vstd::std_specs::convert::FromSpecImpl<Domain> for u64 {
    open spec fn obeys_from_spec() -> bool {
        true
    }

    open spec fn from_spec(domain: Domain) -> u64 {
        domain_value(domain)
    }
}

/// The total number of elements in the chunks.
pub open spec fn total_len<T>(chunks: Seq<Seq<T>>) -> int
    decreases chunks.len(),
{
    if chunks.len() == 0 {
        0
    } else {
        total_len(chunks.drop_last()) + chunks.last().len()
    }
}

/// Whether a domain admits this many input and output elements.
pub open spec fn shape_ok(d: Domain, input_len: int, output_len: int) -> bool {
    match d {
        Domain::Merkle2 => input_len == 2 && output_len == 1,
        Domain::Merkle4 => input_len == 4 && output_len == 1,
        _ => true,
    }
}

/// The io-pattern of a hash: one absorb per chunk, then one squeeze.
pub open spec fn hash_pattern<T>(chunks: Seq<Seq<T>>, output_len: usize) -> Seq<Call> {
    Seq::new(chunks.len(), |i: int| Call::Absorb(chunks[i].len() as usize)).push(
        Call::Squeeze(output_len),
    )
}

/// Absorbs the chunks one after the other.
pub open spec fn absorb_chunks<P: Permutation>(perm: P, s: Seq<int>, pos: int, chunks: Seq<Seq<int>>) -> (Seq<int>, int)
    decreases chunks.len(),
{
    if chunks.len() == 0 {
        (s, pos)
    } else {
        let (s1, p1) = absorb_chunks(perm, s, pos, chunks.drop_last());
        absorb_run(perm, s1, p1, chunks.last())
    }
}

/// The values of every chunk.
pub open spec fn chunk_vals(chunks: Seq<Seq<Scalar>>) -> Seq<Seq<int>> {
    chunks.map_values(|c: Seq<Scalar>| vals(c))
}

/// The digest of the chunks: seed the capacity with the tag of the
/// io-pattern and the domain, absorb every chunk, then squeeze `output_len`
/// elements.
pub open spec fn hash_output<P: Permutation>(perm: P, d: Domain, chunks: Seq<Seq<Scalar>>, output_len: usize) -> Seq<int> {
    sponge_digest(perm, d, chunk_vals(chunks), output_len)
}

/// The digest of chunks of values, as [`hash_output`] describes it.
pub open spec fn sponge_digest<P: Permutation>(perm: P, d: Domain, chunks: Seq<Seq<int>>, output_len: usize) -> Seq<int> {
    let s0 = initial_state(hash_to_field(tag_bytes(hash_pattern(chunks, output_len), domain_value(d))));
    let (s1, a1) = absorb_chunks(perm, s0, 0, chunks);
    squeeze_run(perm, s1, RATE as int, a1, output_len as nat).3
}

/// The modulus of the truncation: `2^250`.
pub open spec fn truncation_modulus() -> int {
    4 * pow(256, 31)
}

/// The order of the Jubjub scalar field.
pub open spec fn jubjub_order() -> int {
    (0xd097_0e5e_d6f7_2cb7 + 0x1_0000_0000_0000_0000 * (0xa668_2093_ccc8_1082
        + 0x1_0000_0000_0000_0000 * (0x0667_3b01_0134_3b00 + 0x1_0000_0000_0000_0000
        * 0x0e7d_b4ea_6533_afa9))) as int
}

/// An element of the Jubjub scalar field, as its canonical 32-byte little-endian encoding.
#[derive(Clone, Copy, Debug, PartialEq, Eq)]
pub struct JubJubScalar {
    pub bytes: [u8; 32],
}

impl JubJubScalar {
    /// The element's value.
    pub open spec fn val(&self) -> int {
        le_value(self.bytes@)
    }
}

/// A little-endian value splits at any byte position.
proof fn lemma_le_split(s: Seq<u8>, n: int)
    requires
        0 <= n <= s.len(),
    ensures
        le_value(s) == le_value(s.subrange(0, n)) + pow(256, n as nat) * le_value(
            s.subrange(n, s.len() as int),
        ),
    decreases n,
{
    vstd::arithmetic::power::lemma_pow0(256);
    if n == 0 {
        assert(s.subrange(0, 0) =~= Seq::<u8>::empty());
        assert(s.subrange(0, s.len() as int) =~= s);
    } else {
        let t = s.drop_first();
        lemma_le_split(t, n - 1);
        assert(t.subrange(0, n - 1) =~= s.subrange(0, n).drop_first());
        assert(t.subrange(n - 1, t.len() as int) =~= s.subrange(n, s.len() as int));
        vstd::arithmetic::power::lemma_pow_adds(256, 1, (n - 1) as nat);
        vstd::arithmetic::power::lemma_pow1(256);
        let a = le_value(t.subrange(0, n - 1));
        let b = le_value(s.subrange(n, s.len() as int));
        let m = pow(256, (n - 1) as nat);
        assert(256 * (a + m * b) == 256 * a + (256 * m) * b) by (nonlinear_arith);
    }
}

/// A little-endian value is below `256^len`.
proof fn lemma_le_bound(s: Seq<u8>)
    ensures
        0 <= le_value(s) < pow(256, s.len()),
    decreases s.len(),
{
    vstd::arithmetic::power::lemma_pow0(256);
    if s.len() > 0 {
        lemma_le_bound(s.drop_first());
        vstd::arithmetic::power::lemma_pow_adds(256, 1, (s.len() - 1) as nat);
        vstd::arithmetic::power::lemma_pow1(256);
        let v = le_value(s.drop_first());
        let m = pow(256, (s.len() - 1) as nat);
        assert(s[0] + 256 * v < 256 * m) by (nonlinear_arith)
            requires
                0 <= s[0] < 256,
                0 <= v < m,
        ;
    }
}

/// Clearing the top six bits of a 32-byte encoding reduces its value modulo `2^250`.
proof fn lemma_mask_top_bits(s: Seq<u8>)
    requires
        s.len() == 32,
    ensures
        le_value(s.update(31, s[31] & 3)) == le_value(s) % truncation_modulus(),
        le_value(s.update(31, s[31] & 3)) < truncation_modulus(),
{
    let m = s.update(31, s[31] & 3);
    let b = s[31];
    assert(b & 3 == b % 4) by (bit_vector);
    lemma_le_split(s, 31);
    lemma_le_split(m, 31);
    assert(m.subrange(0, 31) =~= s.subrange(0, 31));
    let low = le_value(s.subrange(0, 31));
    lemma_le_bound(s.subrange(0, 31));
    let hs = s.subrange(31, 32);
    let hm = m.subrange(31, 32);
    assert(hs.drop_first() =~= Seq::<u8>::empty());
    assert(hm.drop_first() =~= Seq::<u8>::empty());
    reveal_with_fuel(le_value, 2);
    assert(le_value(hs) == b as int);
    assert(le_value(hm) == (b % 4) as int);
    let k = pow(256, 31);
    vstd::arithmetic::power::lemma_pow_positive(256, 31);
    assert(le_value(s) == low + k * (b % 4) + (4 * k) * (b / 4)) by (nonlinear_arith)
        requires
            le_value(s) == low + k * b,
            b == 4 * (b / 4) + b % 4,
    ;
    assert(low + k * (b % 4) < 4 * k) by (nonlinear_arith)
        requires
            0 <= low < k,
            0 <= b % 4 <= 3,
    ;
    vstd::arithmetic::div_mod::lemma_mod_multiples_vanish((b / 4) as int, low + k * (b % 4), 4 * k);
    vstd::arithmetic::div_mod::lemma_small_mod((low + k * (b % 4)) as nat, (4 * k) as nat);
    assert((4 * k) * (b / 4) + (low + k * (b % 4)) == le_value(s));
}

/// `2^250` is below the Jubjub order.
pub proof fn lemma_truncation_fits()
    ensures
        truncation_modulus() < jubjub_order(),
{
    reveal_with_fuel(pow, 32);
    assert(pow(256, 31) == 0x1_0000_0000_0000_0000 * 0x1_0000_0000_0000_0000 * 0x1_0000_0000_0000_0000
        * 0x100_0000_0000_0000);
}

/// Truncates a BLS12-381 scalar to its low 250 bits, a Jubjub scalar.
pub fn truncate(x: &Scalar) -> (r: JubJubScalar)
    ensures
        r.val() == x.val() % truncation_modulus(),
        r.val() < jubjub_order(),
{
    let mut bytes = x.bytes;
    bytes[31] = bytes[31] & 0x03;
    proof {
        assert(bytes@ =~= x.bytes@.update(31, x.bytes@[31] & 3));
        lemma_mask_top_bits(x.bytes@);
        lemma_truncation_fits();
    }
    JubJubScalar { bytes }
}

/// The sum of the chunk lengths, saturated at `usize::MAX`.
fn input_len<T>(input: &Vec<Vec<T>>) -> (r: usize)
    ensures
        r as int == total_len(input@.map_values(|c: Vec<T>| c@)) || (r == usize::MAX && total_len(
            input@.map_values(|c: Vec<T>| c@),
        ) >= usize::MAX),
{
    let ghost chunks = input@.map_values(|c: Vec<T>| c@);
    let mut total: usize = 0;
    let mut i: usize = 0;
    while i < input.len()
        invariant
            0 <= i <= input@.len(),
            chunks == input@.map_values(|c: Vec<T>| c@),
            total as int == total_len(chunks.subrange(0, i as int)) || (total == usize::MAX
                && total_len(chunks.subrange(0, i as int)) >= usize::MAX),
        decreases input@.len() - i,
    {
        assert(chunks.subrange(0, i as int + 1).drop_last() =~= chunks.subrange(0, i as int));
        let n = input[i].len();
        if total > usize::MAX - n {
            total = usize::MAX;
        } else {
            total = total + n;
        }
        i = i + 1;
    }
    assert(chunks.subrange(0, input@.len() as int) =~= chunks);
    total
}

/// The io-pattern of a hash over `input` with `output_len` outputs, if the
/// domain admits that shape.
pub fn io_pattern<T>(domain: Domain, input: &Vec<Vec<T>>, output_len: usize) -> (r: Result<
    Vec<Call>,
    Error,
>)
    ensures
        match r {
            Ok(p) => shape_ok(domain, total_len(input@.map_values(|c: Vec<T>| c@)), output_len as int)
                && p@ == hash_pattern(input@.map_values(|c: Vec<T>| c@), output_len),
            Err(e) => !shape_ok(domain, total_len(input@.map_values(|c: Vec<T>| c@)), output_len as int)
                && e == Error::IOPatternViolation,
        },
{
    let ghost chunks = input@.map_values(|c: Vec<T>| c@);
    let n = input_len(input);
    match domain {
        Domain::Merkle2 => {
            if n != 2 || output_len != 1 {
                return Err(Error::IOPatternViolation);
            }
        },
        Domain::Merkle4 => {
            if n != 4 || output_len != 1 {
                return Err(Error::IOPatternViolation);
            }
        },
        _ => {},
    }
    let mut p: Vec<Call> = Vec::new();
    let mut i: usize = 0;
    while i < input.len()
        invariant
            0 <= i <= input@.len(),
            chunks == input@.map_values(|c: Vec<T>| c@),
            p@ == Seq::new(i as nat, |j: int| Call::Absorb(chunks[j].len() as usize)),
        decreases input@.len() - i,
    {
        p.push(Call::Absorb(input[i].len()));
        assert(p@ =~= Seq::new((i + 1) as nat, |j: int| Call::Absorb(chunks[j].len() as usize)));
        i = i + 1;
    }
    p.push(Call::Squeeze(output_len));
    assert(p@ =~= hash_pattern(chunks, output_len));
    Ok(p)
}

/// A hash in progress: a domain, the input chunks in order, and the output length.
pub struct Hash {
    domain: Domain,
    input: Vec<Vec<Scalar>>,
    output_len: usize,
}

impl Hash {
    /// The domain.
    pub closed spec fn domain(&self) -> Domain {
        self.domain
    }

    /// The chunks recorded so far.
    pub closed spec fn chunks(&self) -> Seq<Seq<Scalar>> {
        self.input@.map_values(|c: Vec<Scalar>| c@)
    }

    /// The number of output elements.
    pub closed spec fn out_len(&self) -> usize {
        self.output_len
    }

    /// Every recorded element is canonical.
    pub open spec fn wf(&self) -> bool {
        forall|i: int| 0 <= i < self.chunks().len() ==> all_wf(#[trigger] self.chunks()[i])
    }

    /// Creates a hash for `domain`, with no input and one output element.
    pub fn new(domain: Domain) -> (r: Self)
        ensures
            r.domain() == domain,
            r.chunks() == Seq::<Seq<Scalar>>::empty(),
            r.out_len() == 1,
            r.wf(),
    {
        let h = Hash { domain, input: Vec::new(), output_len: 1 };
        assert(h.chunks() =~= Seq::<Seq<Scalar>>::empty());
        h
    }

    /// Sets the number of output elements; this takes effect only in the
    /// domain `Other` and for a positive length.
    pub fn output_len(&mut self, output_len: usize)
        ensures
            final(self).domain() == old(self).domain(),
            final(self).chunks() == old(self).chunks(),
            final(self).out_len() == if old(self).domain() == Domain::Other && output_len > 0 {
                output_len
            } else {
                old(self).out_len()
            },
    {
        if self.domain == Domain::Other && output_len > 0 {
            self.output_len = output_len;
        }
    }

    /// Appends a chunk of input.
    pub fn update(&mut self, input: &[Scalar])
        requires
            old(self).wf(),
            all_wf(input@),
        ensures
            final(self).wf(),
            final(self).domain() == old(self).domain(),
            final(self).out_len() == old(self).out_len(),
            final(self).chunks() == old(self).chunks().push(input@),
    {
        let mut chunk: Vec<Scalar> = Vec::new();
        let mut i: usize = 0;
        while i < input.len()
            invariant
                0 <= i <= input@.len(),
                chunk@ == input@.subrange(0, i as int),
            decreases input@.len() - i,
        {
            chunk.push(input[i]);
            assert(chunk@ =~= input@.subrange(0, i as int + 1));
            i = i + 1;
        }
        assert(chunk@ =~= input@);
        let ghost before = self.chunks();
        self.input.push(chunk);
        assert(self.chunks() =~= before.push(input@));
    }

    /// Computes the digest.
    ///
    /// Fails with `IOPatternViolation` when the domain does not admit the
    /// shape, and with `InvalidIOPattern` when the io-pattern cannot drive a
    /// sponge (no input, an empty chunk, or a length of `2^31` or more).
    pub fn finalize<P: Permutation>(&self, perm: &P) -> (r: Result<Vec<Scalar>, Error>)
        requires
            self.wf(),
            perm.wf(),
        ensures
            !shape_ok(self.domain(), total_len(self.chunks()), self.out_len() as int) ==> r
                == Err::<Vec<Scalar>, Error>(Error::IOPatternViolation),
            shape_ok(self.domain(), total_len(self.chunks()), self.out_len() as int) && !valid_pattern(
                hash_pattern(self.chunks(), self.out_len()),
            ) ==> r == Err::<Vec<Scalar>, Error>(Error::InvalidIOPattern),
            shape_ok(self.domain(), total_len(self.chunks()), self.out_len() as int) && valid_pattern(
                hash_pattern(self.chunks(), self.out_len()),
            ) ==> r is Ok,
            r matches Ok(v) ==> all_wf(v@) && vals(v@) == hash_output(
                *perm,
                self.domain(),
                self.chunks(),
                self.out_len(),
            ),
    {
        let ghost chunks = self.chunks();
        let ghost pat = hash_pattern(chunks, self.output_len);
        assert(hash_pattern(chunk_vals(chunks), self.output_len) =~= pat);
        let pattern = match io_pattern(self.domain, &self.input, self.output_len) {
            Ok(p) => p,
            Err(e) => {
                return Err(e);
            },
        };
        let mut sponge = match Sponge::start(perm, pattern, self.domain.separator()) {
            Ok(s) => s,
            Err(e) => {
                return Err(e);
            },
        };
        let ghost s0 = sponge.state();
        let mut i: usize = 0;
        while i < self.input.len()
            invariant
                0 <= i <= self.input@.len(),
                self.wf(),
                chunks == self.chunks(),
                pat == hash_pattern(chunks, self.output_len),
                sponge.inv(),
                !sponge.failed(),
                sponge.pattern() == pat,
                sponge.permutation() == *perm,
                sponge.io_count() == i,
                sponge.output() == Seq::<int>::empty(),
                i > 0 ==> sponge.pos_squeeze() == RATE,
                (sponge.state(), sponge.pos_absorb()) == absorb_chunks(
                    *perm,
                    s0,
                    0,
                    chunk_vals(chunks).subrange(0, i as int),
                ),
            decreases self.input@.len() - i,
        {
            assert(all_wf(chunks[i as int]));
            assert(chunks[i as int] == self.input@[i as int]@);
            assert(pat[i as int] == Call::Absorb(self.input@[i as int]@.len() as usize));
            let ghost cv = chunk_vals(chunks);
            assert(cv.subrange(0, i as int + 1).drop_last() =~= cv.subrange(0, i as int));
            assert(self.input@[i as int]@.subrange(0, self.input@[i as int]@.len() as int)
                =~= self.input@[i as int]@);
            let r = sponge.absorb(self.input[i].len(), self.input[i].as_slice());
            assert(r is Ok);
            i = i + 1;
        }
        assert(chunk_vals(chunks).subrange(0, self.input@.len() as int) =~= chunk_vals(chunks));
        assert(pat[self.input@.len() as int] == Call::Squeeze(self.output_len));
        let r = sponge.squeeze(self.output_len);
        assert(r is Ok);
        assert(Seq::<int>::empty() + squeeze_run(
            *perm,
            sponge.state(),
            sponge.pos_squeeze(),
            sponge.pos_absorb(),
            0,
        ).3 =~= Seq::<int>::empty());
        sponge.finish()
    }

    /// Computes the digest and truncates each element to a Jubjub scalar.
    pub fn finalize_truncated<P: Permutation>(&self, perm: &P) -> (r: Result<Vec<JubJubScalar>, Error>)
        requires
            self.wf(),
            perm.wf(),
        ensures
            !shape_ok(self.domain(), total_len(self.chunks()), self.out_len() as int) ==> r
                == Err::<Vec<JubJubScalar>, Error>(Error::IOPatternViolation),
            shape_ok(self.domain(), total_len(self.chunks()), self.out_len() as int) && !valid_pattern(
                hash_pattern(self.chunks(), self.out_len()),
            ) ==> r == Err::<Vec<JubJubScalar>, Error>(Error::InvalidIOPattern),
            shape_ok(self.domain(), total_len(self.chunks()), self.out_len() as int) && valid_pattern(
                hash_pattern(self.chunks(), self.out_len()),
            ) ==> r is Ok,
            r matches Ok(v) ==> {
                let h = hash_output(*perm, self.domain(), self.chunks(), self.out_len());
                &&& v@.len() == h.len()
                &&& forall|i: int|
                    0 <= i < v@.len() ==> #[trigger] v@[i].val() == h[i] % truncation_modulus()
                        && v@[i].val() < jubjub_order()
            },
    {
        let full = match self.finalize(perm) {
            Ok(v) => v,
            Err(e) => {
                return Err(e);
            },
        };
        let ghost h = vals(full@);
        let mut out: Vec<JubJubScalar> = Vec::new();
        let mut i: usize = 0;
        while i < full.len()
            invariant
                0 <= i <= full@.len(),
                h == vals(full@),
                out@.len() == i,
                forall|j: int|
                    0 <= j < i ==> #[trigger] out@[j].val() == h[j] % truncation_modulus()
                        && out@[j].val() < jubjub_order(),
            decreases full@.len() - i,
        {
            let t = truncate(&full[i]);
            out.push(t);
            i = i + 1;
        }
        Ok(out)
    }

    /// Hashes one input at once.
    pub fn digest<P: Permutation>(domain: Domain, perm: &P, input: &[Scalar]) -> (r: Result<
        Vec<Scalar>,
        Error,
    >)
        requires
            perm.wf(),
            all_wf(input@),
        ensures
            !shape_ok(domain, input@.len() as int, 1) ==> r == Err::<Vec<Scalar>, Error>(
                Error::IOPatternViolation,
            ),
            shape_ok(domain, input@.len() as int, 1) && !valid_pattern(
                hash_pattern(seq![input@], 1),
            ) ==> r == Err::<Vec<Scalar>, Error>(Error::InvalidIOPattern),
            shape_ok(domain, input@.len() as int, 1) && valid_pattern(hash_pattern(seq![input@], 1))
                ==> r is Ok,
            r matches Ok(v) ==> all_wf(v@) && vals(v@) == hash_output(
                *perm,
                domain,
                seq![input@],
                1,
            ),
    {
        let mut hash = Hash::new(domain);
        hash.update(input);
        assert(hash.chunks() =~= seq![input@]);
        assert(total_len(seq![input@]) == input@.len()) by {
            reveal_with_fuel(total_len, 2);
            assert(seq![input@].drop_last() =~= Seq::<Seq<Scalar>>::empty());
        }
        hash.finalize(perm)
    }

    /// Hashes one input at once and truncates each element to a Jubjub scalar.
    pub fn digest_truncated<P: Permutation>(domain: Domain, perm: &P, input: &[Scalar]) -> (r:
        Result<Vec<JubJubScalar>, Error>)
        requires
            perm.wf(),
            all_wf(input@),
        ensures
            !shape_ok(domain, input@.len() as int, 1) ==> r == Err::<Vec<JubJubScalar>, Error>(
                Error::IOPatternViolation,
            ),
            shape_ok(domain, input@.len() as int, 1) && !valid_pattern(
                hash_pattern(seq![input@], 1),
            ) ==> r == Err::<Vec<JubJubScalar>, Error>(Error::InvalidIOPattern),
            shape_ok(domain, input@.len() as int, 1) && valid_pattern(hash_pattern(seq![input@], 1))
                ==> r is Ok,
            r matches Ok(v) ==> {
                let h = hash_output(*perm, domain, seq![input@], 1);
                &&& v@.len() == h.len()
                &&& forall|i: int|
                    0 <= i < v@.len() ==> #[trigger] v@[i].val() == h[i] % truncation_modulus()
                        && v@[i].val() < jubjub_order()
            },
    {
        let mut hash = Hash::new(domain);
        hash.update(input);
        assert(hash.chunks() =~= seq![input@]);
        assert(total_len(seq![input@]) == input@.len()) by {
            reveal_with_fuel(total_len, 2);
            assert(seq![input@].drop_last() =~= Seq::<Seq<Scalar>>::empty());
        }
        hash.finalize_truncated(perm)
    }
}

/// Hashing is deterministic: two digests of the same input, in the same
/// domain and with the same permutation, are equal.
pub proof fn lemma_digest_deterministic<P: Permutation>(
    perm: P,
    domain: Domain,
    input: Seq<Scalar>,
    first: Seq<int>,
    second: Seq<int>,
)
    requires
        first == hash_output(perm, domain, seq![input], 1),
        second == hash_output(perm, domain, seq![input], 1),
    ensures
        first == second,
{
}

/// The Merkle domains admit exactly their arity, and an input of 2 or 4
/// elements gives an io-pattern that a sponge accepts.
pub proof fn lemma_merkle_arity(input: Seq<Scalar>)
    ensures
        shape_ok(Domain::Merkle2, input.len() as int, 1) <==> input.len() == 2,
        shape_ok(Domain::Merkle4, input.len() as int, 1) <==> input.len() == 4,
        input.len() == 2 || input.len() == 4 ==> valid_pattern(hash_pattern(seq![input], 1)),
{
    if input.len() == 2 || input.len() == 4 {
        let p = hash_pattern(seq![input], 1);
        let n = input.len() as usize;
        assert(p =~= seq![Call::Absorb(n), Call::Squeeze(1)]);
        assert(p.drop_last() =~= seq![Call::Absorb(n)]);
        assert(p.drop_last().drop_last() =~= Seq::<Call>::empty());
        reveal_with_fuel(runs, 3);
        reveal_with_fuel(runs_fit, 3);
        assert(runs(p.drop_last()) =~= seq![(true, n as int)]);
        assert(runs(p) =~= seq![(true, n as int), (false, 1int)]);
    }
}

/// Hashing in `Merkle2` and in `Other` seeds the capacity from different
/// bytes: the tag inputs differ in their domain separator.
pub proof fn lemma_domain_separation(input: Seq<Scalar>)
    ensures
        tag_bytes(hash_pattern(seq![input], 1), domain_value(Domain::Merkle2)) != tag_bytes(
            hash_pattern(seq![input], 1),
            domain_value(Domain::Other),
        ),
{
    let e = encode_runs(runs(hash_pattern(seq![input], 1)));
    let a = e + be64(3);
    let b = e + be64(0);
    assert(a[a.len() - 1] == 3u8);
    assert(b[b.len() - 1] == 0u8);
}

} // verus!
