//! A duplex sponge over any [`Permutation`], driven by a declared io-pattern.
//!
//! The state's first lane is the capacity, seeded with a tag that commits to
//! the io-pattern and a domain separator; the other lanes are the rate.

use crate::bls::{all_wf, fr_from_u64, hash_to_field, radd, vals, Scalar, WIDTH};
use crate::permutation::Permutation;
use vstd::prelude::*;

verus! {

/// The number of capacity lanes.
pub const CAPACITY: usize = 1;

/// The number of rate lanes.
pub const RATE: usize = 7;

/// The bit that marks a run of absorb calls in the tag input.
pub const ABSORB_MASK: u32 = 0x8000_0000;

/// One step of an io-pattern.
#[derive(Clone, Copy, Debug, PartialEq, Eq, Structural)]
pub enum Call {
    /// Absorb this many elements.
    Absorb(usize),
    /// Squeeze this many elements.
    Squeeze(usize),
}

/// The ways in which driving a sponge can fail.
#[derive(Clone, Copy, Debug, PartialEq, Eq, Structural)]
pub enum Error {
    /// The calls do not follow the io-pattern, or the shape does not suit the domain.
    IOPatternViolation,
    /// The io-pattern cannot be used: it does not start with an absorb, end
    /// with a squeeze, or has a length of zero or of `2^31` or more.
    InvalidIOPattern,
    /// An absorb was handed fewer elements than it declared.
    TooFewInputElements,
}

/// Whether a call absorbs.
pub open spec fn is_absorb(c: Call) -> bool {
    c is Absorb
}

/// The length of a call.
pub open spec fn call_len(c: Call) -> int {
    match c {
        Call::Absorb(n) => n as int,
        Call::Squeeze(n) => n as int,
    }
}

/// The runs of an io-pattern: consecutive calls of one kind merged, as
/// `(absorbs, total length)`, starting from an empty absorb run.
pub open spec fn runs(p: Seq<Call>) -> Seq<(bool, int)>
    decreases p.len(),
{
    if p.len() == 0 {
        seq![(true, 0int)]
    } else {
        let r = runs(p.drop_last());
        let c = p.last();
        let last = r.last();
        if last.0 == is_absorb(c) {
            r.update(r.len() - 1, (last.0, last.1 + call_len(c)))
        } else {
            r.push((is_absorb(c), call_len(c)))
        }
    }
}

/// An io-pattern has at least one run.
proof fn lemma_runs_nonempty(p: Seq<Call>)
    ensures
        runs(p).len() >= 1,
    decreases p.len(),
{
    if p.len() > 0 {
        lemma_runs_nonempty(p.drop_last());
    }
}

/// Every run stays below `2^31` as it accumulates.
pub open spec fn runs_fit(p: Seq<Call>) -> bool
    decreases p.len(),
{
    p.len() == 0 || (runs_fit(p.drop_last()) && runs(p).last().1 < 0x8000_0000)
}

/// An io-pattern that a sponge can start with.
pub open spec fn valid_pattern(p: Seq<Call>) -> bool {
    &&& p.len() > 0
    &&& p[0] is Absorb
    &&& p.last() is Squeeze
    &&& forall|i: int| 0 <= i < p.len() ==> 0 < call_len(#[trigger] p[i]) < 0x8000_0000
    &&& runs_fit(p)
}

/// The big-endian bytes of a 32-bit word.
pub open spec fn be32(x: int) -> Seq<u8> {
    seq![
        ((x / 0x100_0000) % 256) as u8,
        ((x / 0x1_0000) % 256) as u8,
        ((x / 0x100) % 256) as u8,
        (x % 256) as u8,
    ]
}

/// The big-endian bytes of a 64-bit word.
pub open spec fn be64(x: int) -> Seq<u8> {
    be32(x / 0x1_0000_0000) + be32(x % 0x1_0000_0000)
}

/// The word of a run: its length, with the top bit set for absorbs.
pub open spec fn run_word(r: (bool, int)) -> int {
    if r.0 {
        0x8000_0000 + r.1
    } else {
        r.1
    }
}

/// The bytes of a sequence of runs.
pub open spec fn encode_runs(r: Seq<(bool, int)>) -> Seq<u8>
    decreases r.len(),
{
    if r.len() == 0 {
        seq![]
    } else {
        encode_runs(r.drop_last()) + be32(run_word(r.last()))
    }
}

/// The bytes that the tag is computed from: the runs, then the domain separator.
pub open spec fn tag_bytes(p: Seq<Call>, domain_sep: u64) -> Seq<u8> {
    encode_runs(runs(p)) + be64(domain_sep as int)
}

/// The state a sponge starts from: the tag in the capacity, zeros in the rate.
pub open spec fn initial_state(tag: int) -> Seq<int> {
    Seq::new(WIDTH as nat, |i: int| if i == 0 { tag } else { 0 })
}

/// Absorbs `xs` into the state `s` from rate position `pos`, permuting
/// whenever the rate is full.
pub open spec fn absorb_run<P: Permutation>(perm: P, s: Seq<int>, pos: int, xs: Seq<int>) -> (Seq<int>, int)
    decreases xs.len(),
{
    if xs.len() == 0 {
        (s, pos)
    } else {
        let (s1, p1) = absorb_run(perm, s, pos, xs.drop_last());
        let s2 = if p1 == RATE { perm.spec_permute(s1) } else { s1 };
        let p2 = if p1 == RATE { 0 } else { p1 };
        (s2.update(p2 + 1, radd(s2[p2 + 1], xs.last())), p2 + 1)
    }
}

/// Squeezes `n` elements from the state `s` at rate position `pos`, permuting
/// whenever the rate is used up. Returns the state, the squeeze and absorb
/// positions, and the elements read.
pub open spec fn squeeze_run<P: Permutation>(perm: P, s: Seq<int>, pos: int, pos_absorb: int, n: nat) -> (Seq<int>, int, int, Seq<int>)
    decreases n,
{
    if n == 0 {
        (s, pos, pos_absorb, seq![])
    } else {
        let (s1, q1, a1, o1) = squeeze_run(perm, s, pos, pos_absorb, (n - 1) as nat);
        let s2 = if q1 == RATE { perm.spec_permute(s1) } else { s1 };
        let q2 = if q1 == RATE { 0 } else { q1 };
        let a2 = if q1 == RATE { 0 } else { a1 };
        (s2, q2 + 1, a2, o1.push(s2[q2 + 1]))
    }
}

/// The big-endian bytes of `x`, appended to `out`.
fn push_be32(out: &mut Vec<u8>, x: u32)
    ensures
        final(out)@ == old(out)@ + be32(x as int),
{
    out.push((x / 0x100_0000) as u8);
    out.push(((x / 0x1_0000) % 256) as u8);
    out.push(((x / 0x100) % 256) as u8);
    out.push((x % 256) as u8);
    assert(final(out)@ =~= old(out)@ + be32(x as int));
}

/// Checks that an io-pattern starts with an absorb, ends with a squeeze, and
/// that each call's length is in `1 .. 2^31`.
fn calls_are_valid(p: &Vec<Call>) -> (r: bool)
    ensures
        r == (p@.len() > 0 && p@[0] is Absorb && p@.last() is Squeeze && forall|i: int|
            0 <= i < p@.len() ==> 0 < call_len(#[trigger] p@[i]) < 0x8000_0000),
{
    if p.len() == 0 {
        return false;
    }
    match (p[0], p[p.len() - 1]) {
        (Call::Absorb(_), Call::Squeeze(_)) => {},
        _ => {
            return false;
        },
    }
    let mut i: usize = 0;
    while i < p.len()
        invariant
            0 <= i <= p@.len(),
            forall|j: int| 0 <= j < i ==> 0 < call_len(#[trigger] p@[j]) < 0x8000_0000,
        decreases p@.len() - i,
    {
        let n = match p[i] {
            Call::Absorb(n) => n,
            Call::Squeeze(n) => n,
        };
        if n == 0 || n >= 0x8000_0000 {
            assert(!(0 < call_len(p@[i as int]) < 0x8000_0000));
            return false;
        }
        i = i + 1;
    }
    true
}

/// The bytes that the tag of a sponge is computed from.
pub fn tag_input(p: &Vec<Call>, domain_sep: u64) -> (r: Result<Vec<u8>, Error>)
    ensures
        match r {
            Ok(b) => valid_pattern(p@) && b@ == tag_bytes(p@, domain_sep),
            Err(e) => !valid_pattern(p@) && e == Error::InvalidIOPattern,
        },
{
    if !calls_are_valid(p) {
        return Err(Error::InvalidIOPattern);
    }
    let mut out: Vec<u8> = Vec::new();
    let mut kind = true;
    let mut length: u32 = 0;
    let mut i: usize = 0;
    assert(p@.subrange(0, 0) =~= seq![]);
    while i < p.len()
        invariant
            0 <= i <= p@.len(),
            forall|j: int| 0 <= j < p@.len() ==> 0 < call_len(#[trigger] p@[j]) < 0x8000_0000,
            runs_fit(p@.subrange(0, i as int)),
            runs(p@.subrange(0, i as int)).len() >= 1,
            runs(p@.subrange(0, i as int)).last() == (kind, length as int),
            length < 0x8000_0000,
            out@ == encode_runs(runs(p@.subrange(0, i as int)).drop_last()),
        decreases p@.len() - i,
    {
        let ghost pre = p@.subrange(0, i as int);
        let ghost next = p@.subrange(0, i as int + 1);
        assert(next.drop_last() =~= pre);
        assert(next.last() == p@[i as int]);
        proof {
            lemma_runs_nonempty(pre);
        }
        let (absorbs, n) = match p[i] {
            Call::Absorb(n) => (true, n),
            Call::Squeeze(n) => (false, n),
        };
        assert(call_len(p@[i as int]) == n);
        if absorbs != kind {
            proof {
                let r = runs(pre);
                assert(runs(next) == r.push((absorbs, n as int)));
                assert(runs(next).drop_last() =~= r);
                assert(r =~= r.drop_last().push(r.last()));
            }
            push_be32(&mut out, if kind { ABSORB_MASK + length } else { length });
            kind = absorbs;
            length = 0;
        } else {
            proof {
                let r = runs(pre);
                assert(runs(next).drop_last() =~= r.drop_last());
            }
        }
        if (length as u64) + (n as u64) >= 0x8000_0000 {
            proof {
                assert(runs(next).last().1 >= 0x8000_0000);
                assert(!runs_fit(next));
                if runs_fit(p@) {
                    lemma_runs_fit_prefix(p@, i as int + 1);
                }
            }
            return Err(Error::InvalidIOPattern);
        }
        length = length + n as u32;
        i = i + 1;
    }
    assert(p@.subrange(0, p@.len() as int) =~= p@);
    push_be32(&mut out, if kind { ABSORB_MASK + length } else { length });
    proof {
        let r = runs(p@);
        lemma_runs_nonempty(p@);
        assert(r =~= r.drop_last().push(r.last()));
    }
    push_be32(&mut out, (domain_sep / 0x1_0000_0000) as u32);
    push_be32(&mut out, (domain_sep % 0x1_0000_0000) as u32);
    assert(out@ =~= tag_bytes(p@, domain_sep));
    Ok(out)
}

/// A pattern whose runs fit has prefixes whose runs fit.
proof fn lemma_runs_fit_prefix(p: Seq<Call>, n: int)
    requires
        0 <= n <= p.len(),
        runs_fit(p),
    ensures
        runs_fit(p.subrange(0, n)),
    decreases p.len() - n,
{
    if n < p.len() {
        assert(p.drop_last() =~= p.subrange(0, p.len() - 1));
        lemma_runs_fit_prefix(p.drop_last(), n);
        assert(p.drop_last().subrange(0, n) =~= p.subrange(0, n));
    } else {
        assert(p.subrange(0, n) =~= p);
    }
}

/// A sponge in use: a permutation, its state, and the progress through the io-pattern.
pub struct Sponge<'a, P: Permutation> {
    perm: &'a P,
    state: [Scalar; WIDTH],
    pos_absorb: usize,
    pos_squeeze: usize,
    io_count: usize,
    failed: bool,
    iopattern: Vec<Call>,
    output: Vec<Scalar>,
}

impl<'a, P: Permutation> Sponge<'a, P> {
    /// The permutation.
    pub closed spec fn permutation(&self) -> P {
        *self.perm
    }

    /// The values of the state.
    pub closed spec fn state(&self) -> Seq<int> {
        vals(self.state@)
    }

    /// The rate position of the next absorbed element.
    pub closed spec fn pos_absorb(&self) -> int {
        self.pos_absorb as int
    }

    /// The rate position of the next squeezed element.
    pub closed spec fn pos_squeeze(&self) -> int {
        self.pos_squeeze as int
    }

    /// How many calls of the io-pattern have been made.
    pub closed spec fn io_count(&self) -> int {
        self.io_count as int
    }

    /// Whether a call has failed, which ends the sponge's use.
    pub closed spec fn failed(&self) -> bool {
        self.failed
    }

    /// The declared io-pattern.
    pub closed spec fn pattern(&self) -> Seq<Call> {
        self.iopattern@
    }

    /// The values squeezed so far.
    pub closed spec fn output(&self) -> Seq<int> {
        vals(self.output@)
    }

    /// The sponge's internal invariant.
    pub closed spec fn inv(&self) -> bool {
        &&& self.perm.wf()
        &&& all_wf(self.state@)
        &&& all_wf(self.output@)
        &&& self.pos_absorb <= RATE
        &&& self.pos_squeeze <= RATE
        &&& self.io_count <= self.iopattern@.len()
    }

    /// Starts a sponge: validates the io-pattern and seeds the capacity with
    /// the tag of the io-pattern and the domain separator.
    pub fn start(perm: &'a P, iopattern: Vec<Call>, domain_sep: u64) -> (r: Result<Self, Error>)
        requires
            perm.wf(),
        ensures
            match r {
                Ok(s) => {
                    &&& valid_pattern(iopattern@)
                    &&& s.inv()
                    &&& s.permutation() == *perm
                    &&& s.pattern() == iopattern@
                    &&& s.state() == initial_state(hash_to_field(tag_bytes(iopattern@, domain_sep)))
                    &&& s.pos_absorb() == 0
                    &&& s.pos_squeeze() == 0
                    &&& s.io_count() == 0
                    &&& !s.failed()
                    &&& s.output() == Seq::<int>::empty()
                },
                Err(e) => !valid_pattern(iopattern@) && e == Error::InvalidIOPattern,
            },
    {
        let input = match tag_input(&iopattern, domain_sep) {
            Ok(b) => b,
            Err(e) => {
                return Err(e);
            },
        };
        let tag = perm.tag(input.as_slice());
        let zero = fr_from_u64(0);
        let mut state = [zero; WIDTH];
        state[0] = tag;
        assert(vals(state@) =~= initial_state(hash_to_field(tag_bytes(iopattern@, domain_sep))));
        let output: Vec<Scalar> = Vec::new();
        assert(vals(output@) =~= Seq::<int>::empty());
        Ok(Sponge {
            perm,
            state,
            pos_absorb: 0,
            pos_squeeze: 0,
            io_count: 0,
            failed: false,
            iopattern,
            output,
        })
    }

    /// Marks the sponge as failed and clears its state.
    fn fail(&mut self)
        requires
            old(self).inv(),
        ensures
            final(self).inv(),
            final(self).failed(),
            final(self).pattern() == old(self).pattern(),
            final(self).io_count() == old(self).io_count(),
            final(self).permutation() == old(self).permutation(),
    {
        let zero = fr_from_u64(0);
        self.state = [zero; WIDTH];
        self.output = Vec::new();
        self.pos_absorb = 0;
        self.pos_squeeze = 0;
        self.failed = true;
    }

    /// Absorbs the first `len` elements of `input`, as the next call of the io-pattern.
    pub fn absorb(&mut self, len: usize, input: &[Scalar]) -> (r: Result<(), Error>)
        requires
            old(self).inv(),
            all_wf(input@),
        ensures
            final(self).inv(),
            final(self).pattern() == old(self).pattern(),
            final(self).permutation() == old(self).permutation(),
            old(self).failed() ==> r == Err::<(), Error>(Error::IOPatternViolation),
            !old(self).failed() && input@.len() < len ==> r == Err::<(), Error>(
                Error::TooFewInputElements,
            ),
            !old(self).failed() && input@.len() >= len && !(old(self).io_count() < old(
                self,
            ).pattern().len() && old(self).pattern()[old(self).io_count()] == Call::Absorb(len))
                ==> r == Err::<(), Error>(Error::IOPatternViolation),
            !old(self).failed() && input@.len() >= len && old(self).io_count() < old(
                self,
            ).pattern().len() && old(self).pattern()[old(self).io_count()] == Call::Absorb(len)
                ==> r is Ok,
            r is Err ==> final(self).failed(),
            r is Ok ==> {
                &&& !old(self).failed()
                &&& !final(self).failed()
                &&& input@.len() >= len
                &&& old(self).io_count() < old(self).pattern().len()
                &&& old(self).pattern()[old(self).io_count()] == Call::Absorb(len)
                &&& final(self).io_count() == old(self).io_count() + 1
                &&& (final(self).state(), final(self).pos_absorb()) == absorb_run(
                    old(self).permutation(),
                    old(self).state(),
                    old(self).pos_absorb(),
                    vals(input@.subrange(0, len as int)),
                )
                &&& final(self).pos_squeeze() == RATE
                &&& final(self).output() == old(self).output()
            },
    {
        if self.failed {
            return Err(Error::IOPatternViolation);
        }
        if input.len() < len {
            self.fail();
            return Err(Error::TooFewInputElements);
        }
        if self.io_count >= self.iopattern.len() {
            self.fail();
            return Err(Error::IOPatternViolation);
        }
        match self.iopattern[self.io_count] {
            Call::Absorb(n) => {
                if n != len {
                    self.fail();
                    return Err(Error::IOPatternViolation);
                }
            },
            Call::Squeeze(_) => {
                self.fail();
                return Err(Error::IOPatternViolation);
            },
        }
        let ghost s0 = vals(self.state@);
        let ghost p0 = self.pos_absorb as int;
        let ghost xs = vals(input@.subrange(0, len as int));
        let perm = self.perm;
        let mut k: usize = 0;
        while k < len
            invariant
                0 <= k <= len <= input@.len(),
                all_wf(input@),
                perm.wf(),
                self.perm == perm,
                all_wf(self.state@),
                self.pos_absorb <= RATE,
                xs == vals(input@.subrange(0, len as int)),
                (vals(self.state@), self.pos_absorb as int) == absorb_run(
                    *perm,
                    s0,
                    p0,
                    xs.subrange(0, k as int),
                ),
                self.iopattern == old(self).iopattern,
                self.io_count == old(self).io_count,
                self.output == old(self).output,
                self.failed == old(self).failed,
                self.pos_squeeze == old(self).pos_squeeze,
            decreases len - k,
        {
            let ghost before = xs.subrange(0, k as int);
            assert(xs.subrange(0, k as int + 1).drop_last() =~= before);
            if self.pos_absorb == RATE {
                perm.permute(&mut self.state);
                self.pos_absorb = 0;
            }
            let pos = self.pos_absorb + CAPACITY;
            let sum = perm.add(&self.state[pos], &input[k]);
            let ghost st = vals(self.state@);
            self.state[pos] = sum;
            assert(vals(self.state@) =~= st.update(pos as int, sum.val()));
            self.pos_absorb = self.pos_absorb + 1;
            k = k + 1;
        }
        assert(xs.subrange(0, len as int) =~= xs);
        self.pos_squeeze = RATE;
        self.io_count = self.io_count + 1;
        Ok(())
    }

    /// Squeezes `len` elements into the output, as the next call of the io-pattern.
    pub fn squeeze(&mut self, len: usize) -> (r: Result<(), Error>)
        requires
            old(self).inv(),
        ensures
            final(self).inv(),
            final(self).pattern() == old(self).pattern(),
            final(self).permutation() == old(self).permutation(),
            old(self).failed() ==> r == Err::<(), Error>(Error::IOPatternViolation),
            !old(self).failed() && !(old(self).io_count() < old(self).pattern().len() && old(
                self,
            ).pattern()[old(self).io_count()] == Call::Squeeze(len)) ==> r == Err::<(), Error>(
                Error::IOPatternViolation,
            ),
            !old(self).failed() && old(self).io_count() < old(self).pattern().len() && old(
                self,
            ).pattern()[old(self).io_count()] == Call::Squeeze(len) ==> r is Ok,
            r is Err ==> final(self).failed(),
            r is Ok ==> {
                let (s, q, a, o) = squeeze_run(
                    old(self).permutation(),
                    old(self).state(),
                    old(self).pos_squeeze(),
                    old(self).pos_absorb(),
                    len as nat,
                );
                &&& !old(self).failed()
                &&& !final(self).failed()
                &&& old(self).io_count() < old(self).pattern().len()
                &&& old(self).pattern()[old(self).io_count()] == Call::Squeeze(len)
                &&& final(self).io_count() == old(self).io_count() + 1
                &&& final(self).state() == s
                &&& final(self).pos_squeeze() == q
                &&& final(self).pos_absorb() == a
                &&& final(self).output() == old(self).output() + o
            },
    {
        if self.failed {
            return Err(Error::IOPatternViolation);
        }
        if self.io_count >= self.iopattern.len() {
            self.fail();
            return Err(Error::IOPatternViolation);
        }
        match self.iopattern[self.io_count] {
            Call::Squeeze(n) => {
                if n != len {
                    self.fail();
                    return Err(Error::IOPatternViolation);
                }
            },
            Call::Absorb(_) => {
                self.fail();
                return Err(Error::IOPatternViolation);
            },
        }
        let ghost s0 = vals(self.state@);
        let ghost q0 = self.pos_squeeze as int;
        let ghost a0 = self.pos_absorb as int;
        let ghost out0 = vals(self.output@);
        let perm = self.perm;
        let mut k: usize = 0;
        while k < len
            invariant
                0 <= k <= len,
                perm.wf(),
                self.perm == perm,
                all_wf(self.state@),
                all_wf(self.output@),
                self.pos_absorb <= RATE,
                self.pos_squeeze <= RATE,
                ({
                    let (s, q, a, o) = squeeze_run(*perm, s0, q0, a0, k as nat);
                    &&& vals(self.state@) == s
                    &&& self.pos_squeeze as int == q
                    &&& self.pos_absorb as int == a
                    &&& vals(self.output@) == out0 + o
                }),
                self.iopattern == old(self).iopattern,
                self.io_count == old(self).io_count,
                self.failed == old(self).failed,
            decreases len - k,
        {
            if self.pos_squeeze == RATE {
                perm.permute(&mut self.state);
                self.pos_squeeze = 0;
                self.pos_absorb = 0;
            }
            let ghost before = vals(self.output@);
            self.output.push(self.state[self.pos_squeeze + CAPACITY]);
            assert(vals(self.output@) =~= before.push(vals(self.state@)[self.pos_squeeze + 1]));
            self.pos_squeeze = self.pos_squeeze + 1;
            k = k + 1;
            proof {
                let (s, q, a, o) = squeeze_run(*perm, s0, q0, a0, (k - 1) as nat);
                assert(out0 + o.push(vals(self.state@)[self.pos_squeeze as int]) =~= (out0 + o).push(
                    vals(self.state@)[self.pos_squeeze as int],
                ));
            }
        }
        self.io_count = self.io_count + 1;
        Ok(())
    }

    /// Ends the sponge and returns what was squeezed, provided every call of
    /// the io-pattern was made.
    pub fn finish(self) -> (r: Result<Vec<Scalar>, Error>)
        requires
            self.inv(),
        ensures
            match r {
                Ok(v) => !self.failed() && self.io_count() == self.pattern().len() && all_wf(v@)
                    && vals(v@) == self.output(),
                Err(e) => (self.failed() || self.io_count() != self.pattern().len()) && e
                    == Error::IOPatternViolation,
            },
    {
        if !self.failed && self.io_count == self.iopattern.len() {
            Ok(self.output)
        } else {
            Err(Error::IOPatternViolation)
        }
    }
}

} // verus!
