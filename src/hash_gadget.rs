//! The hash facade in circuit mode: the same sponge, driven over wires.

use crate::bls::fr_hash;
use crate::circuit::{extends, wire_add, wire_vals, wires_exist, Circuit};
use crate::hash::{
    absorb_chunks, hash_output, hash_pattern, io_pattern, jubjub_order, lemma_truncation_fits,
    shape_ok, sponge_digest, total_len, truncation_modulus, chunk_vals, Domain,
};
use crate::bls::Scalar;
use crate::permutation::{GadgetPermute, Permutation};
use crate::sponge::{absorb_run, initial_state, squeeze_run, tag_input, valid_pattern, Error, RATE};
use crate::bls::WIDTH;
use vstd::prelude::*;

verus! {

/// The values on a list of wires.
pub open spec fn wires_vals(v: Seq<int>, ws: Seq<usize>) -> Seq<int> {
    ws.map_values(|w: usize| v[w as int])
}

/// The values on each chunk of wires.
pub open spec fn chunk_wire_vals(v: Seq<int>, chunks: Seq<Seq<usize>>) -> Seq<Seq<int>> {
    chunks.map_values(|ch: Seq<usize>| wires_vals(v, ch))
}

/// Every wire of a list exists.
pub open spec fn all_exist(v: Seq<int>, ws: Seq<usize>) -> bool {
    forall|i: int| 0 <= i < ws.len() ==> (#[trigger] ws[i]) < v.len()
}

/// A hash in circuit mode: a domain, the input chunks of wires, and the output length.
pub struct HashGadget {
    domain: Domain,
    input: Vec<Vec<usize>>,
    output_len: usize,
}

/// Absorbs the wires of `chunk` into the state wires from rate position `pos`.
fn absorb_wires<P: Permutation, G: GadgetPermute<P>>(
    g: &G,
    c: &mut Circuit,
    st: &mut [usize; WIDTH],
    pos: &mut usize,
    chunk: &Vec<usize>,
)
    requires
        g.native().wf(),
        old(c).inv(),
        wires_exist(old(c).values(), *old(st)),
        all_exist(old(c).values(), chunk@),
        *old(pos) <= RATE,
    ensures
        final(c).inv(),
        extends(final(c).values(), old(c).values()),
        wires_exist(final(c).values(), *final(st)),
        *final(pos) <= RATE,
        (wire_vals(final(c).values(), *final(st)), *final(pos) as int) == absorb_run(
            g.native(),
            wire_vals(old(c).values(), *old(st)),
            *old(pos) as int,
            wires_vals(old(c).values(), chunk@),
        ),
{
    let ghost v0 = c.values();
    let ghost s0 = wire_vals(v0, *st);
    let ghost p0 = *pos as int;
    let ghost xs = wires_vals(v0, chunk@);
    let mut k: usize = 0;
    while k < chunk.len()
        invariant
            0 <= k <= chunk@.len(),
            g.native().wf(),
            c.inv(),
            extends(c.values(), v0),
            wires_exist(c.values(), *st),
            all_exist(v0, chunk@),
            *pos <= RATE,
            xs == wires_vals(v0, chunk@),
            (wire_vals(c.values(), *st), *pos as int) == absorb_run(g.native(), s0, p0, xs.subrange(0, k as int)),
        decreases chunk@.len() - k,
    {
        assert(xs.subrange(0, k as int + 1).drop_last() =~= xs.subrange(0, k as int));
        if *pos == RATE {
            g.permute(c, st);
            *pos = 0;
        }
        let ghost cur = wire_vals(c.values(), *st);
        let w = wire_add(c, st[*pos + 1], chunk[k]);
        st[*pos + 1] = w;
        assert(wire_vals(c.values(), *st) =~= cur.update(*pos as int + 1, c.values()[w as int]));
        *pos = *pos + 1;
        k = k + 1;
    }
    assert(xs.subrange(0, chunk@.len() as int) =~= xs);
}

impl HashGadget {
    /// The domain.
    pub closed spec fn domain(&self) -> Domain {
        self.domain
    }

    /// The chunks of wires recorded so far.
    pub closed spec fn chunks(&self) -> Seq<Seq<usize>> {
        self.input@.map_values(|c: Vec<usize>| c@)
    }

    /// The number of output elements.
    pub closed spec fn out_len(&self) -> usize {
        self.output_len
    }

    /// Creates a hash for `domain`, with no input and one output element.
    pub fn new(domain: Domain) -> (r: Self)
        ensures
            r.domain() == domain,
            r.chunks() == Seq::<Seq<usize>>::empty(),
            r.out_len() == 1,
    {
        let h = HashGadget { domain, input: Vec::new(), output_len: 1 };
        assert(h.chunks() =~= Seq::<Seq<usize>>::empty());
        h
    }

    /// Sets the number of output elements; this takes effect only in the
    /// domain `Other` and for a positive length.
    pub fn output_len(&mut self, output_len: usize)
        ensures
            final(self).domain() == old(self).domain(),
            final(self).chunks() == old(self).chunks(),
            final(self).out_len() == if old(self).domain() == Domain::Other && output_len > 0 {
                output_len
            } else {
                old(self).out_len()
            },
    {
        if self.domain == Domain::Other && output_len > 0 {
            self.output_len = output_len;
        }
    }

    /// Appends a chunk of input wires.
    pub fn update(&mut self, input: &[usize])
        ensures
            final(self).domain() == old(self).domain(),
            final(self).out_len() == old(self).out_len(),
            final(self).chunks() == old(self).chunks().push(input@),
    {
        let mut chunk: Vec<usize> = Vec::new();
        let mut i: usize = 0;
        while i < input.len()
            invariant
                0 <= i <= input@.len(),
                chunk@ == input@.subrange(0, i as int),
            decreases input@.len() - i,
        {
            chunk.push(input[i]);
            assert(chunk@ =~= input@.subrange(0, i as int + 1));
            i = i + 1;
        }
        assert(chunk@ =~= input@);
        let ghost before = self.chunks();
        self.input.push(chunk);
        assert(self.chunks() =~= before.push(input@));
    }

    /// Computes the digest in the circuit and returns its output wires.
    ///
    /// Fails as the native hash does: with `IOPatternViolation` when the
    /// domain does not admit the shape, and with `InvalidIOPattern` when the
    /// io-pattern cannot drive a sponge.
    pub fn finalize<P: Permutation, G: GadgetPermute<P>>(&self, g: &G, c: &mut Circuit) -> (r: Result<
        Vec<usize>,
        Error,
    >)
        requires
            g.native().wf(),
            old(c).inv(),
            forall|i: int| 0 <= i < self.chunks().len() ==> all_exist(old(c).values(), #[trigger] self.chunks()[i]),
        ensures
            final(c).inv(),
            extends(final(c).values(), old(c).values()),
            !shape_ok(self.domain(), total_len(self.chunks()), self.out_len() as int) ==> r
                == Err::<Vec<usize>, Error>(Error::IOPatternViolation),
            shape_ok(self.domain(), total_len(self.chunks()), self.out_len() as int) && !valid_pattern(
                hash_pattern(self.chunks(), self.out_len()),
            ) ==> r == Err::<Vec<usize>, Error>(Error::InvalidIOPattern),
            shape_ok(self.domain(), total_len(self.chunks()), self.out_len() as int) && valid_pattern(
                hash_pattern(self.chunks(), self.out_len()),
            ) ==> r is Ok,
            r matches Ok(out) ==> all_exist(final(c).values(), out@) && wires_vals(final(c).values(), out@)
                == sponge_digest(
                g.native(),
                self.domain(),
                chunk_wire_vals(old(c).values(), self.chunks()),
                self.out_len(),
            ),
    {
        let ghost chunks = self.chunks();
        let ghost v0 = c.values();
        let ghost cv = chunk_wire_vals(v0, chunks);
        let pattern = match io_pattern(self.domain, &self.input, self.output_len) {
            Ok(p) => p,
            Err(e) => {
                return Err(e);
            },
        };
        let bytes = match tag_input(&pattern, self.domain.separator()) {
            Ok(b) => b,
            Err(e) => {
                return Err(e);
            },
        };
        assert(hash_pattern(cv, self.output_len) =~= hash_pattern(chunks, self.output_len));
        let tag = fr_hash(bytes.as_slice());
        let tw = c.append_constant(&tag);
        proof {
            c.lemma_values_in_field();
        }
        let mut st: [usize; WIDTH] = [tw, 0, 0, 0, 0, 0, 0, 0];
        let ghost s0 = wire_vals(c.values(), st);
        assert(s0 =~= initial_state(tag.val()));
        let mut pos: usize = 0;
        let mut i: usize = 0;
        while i < self.input.len()
            invariant
                0 <= i <= self.input@.len(),
                g.native().wf(),
                c.inv(),
                extends(c.values(), v0),
                chunks == self.chunks(),
                cv == chunk_wire_vals(v0, chunks),
                forall|j: int| 0 <= j < chunks.len() ==> all_exist(v0, #[trigger] chunks[j]),
                wires_exist(c.values(), st),
                pos <= RATE,
                (wire_vals(c.values(), st), pos as int) == absorb_chunks(g.native(), s0, 0, cv.subrange(0, i as int)),
            decreases self.input@.len() - i,
        {
            assert(cv.subrange(0, i as int + 1).drop_last() =~= cv.subrange(0, i as int));
            assert(chunks[i as int] == self.input@[i as int]@);
            assert(all_exist(v0, self.input@[i as int]@));
            assert(all_exist(c.values(), self.input@[i as int]@));
            let ghost vi = c.values();
            assert(wires_vals(vi, self.input@[i as int]@) =~= cv[i as int]);
            absorb_wires(g, c, &mut st, &mut pos, &self.input[i]);
            i = i + 1;
        }
        assert(cv.subrange(0, self.input@.len() as int) =~= cv);
        let ghost s1 = wire_vals(c.values(), st);
        let ghost a1 = pos as int;
        let ghost v1 = c.values();
        let mut out: Vec<usize> = Vec::new();
        let mut q: usize = RATE;
        let mut k: usize = 0;
        while k < self.output_len
            invariant
                0 <= k <= self.output_len,
                g.native().wf(),
                c.inv(),
                extends(c.values(), v1),
                extends(v1, v0),
                wires_exist(c.values(), st),
                q <= RATE,
                all_exist(c.values(), out@),
                ({
                    let (s, qq, a, o) = squeeze_run(g.native(), s1, RATE as int, a1, k as nat);
                    &&& wire_vals(c.values(), st) == s
                    &&& q as int == qq
                    &&& wires_vals(c.values(), out@) == o
                }),
            decreases self.output_len - k,
        {
            if q == RATE {
                g.permute(c, &mut st);
                q = 0;
            }
            let ghost before = wires_vals(c.values(), out@);
            out.push(st[q + 1]);
            assert(wires_vals(c.values(), out@) =~= before.push(wire_vals(c.values(), st)[q as int + 1]));
            q = q + 1;
            k = k + 1;
        }
        Ok(out)
    }

    /// Hashes one input of wires at once.
    pub fn digest<P: Permutation, G: GadgetPermute<P>>(
        domain: Domain,
        g: &G,
        c: &mut Circuit,
        input: &[usize],
    ) -> (r: Result<Vec<usize>, Error>)
        requires
            g.native().wf(),
            old(c).inv(),
            all_exist(old(c).values(), input@),
        ensures
            final(c).inv(),
            extends(final(c).values(), old(c).values()),
            !shape_ok(domain, input@.len() as int, 1) ==> r == Err::<Vec<usize>, Error>(
                Error::IOPatternViolation,
            ),
            shape_ok(domain, input@.len() as int, 1) && !valid_pattern(hash_pattern(seq![input@], 1))
                ==> r == Err::<Vec<usize>, Error>(Error::InvalidIOPattern),
            shape_ok(domain, input@.len() as int, 1) && valid_pattern(hash_pattern(seq![input@], 1))
                ==> r is Ok,
            r matches Ok(out) ==> all_exist(final(c).values(), out@) && wires_vals(final(c).values(), out@)
                == sponge_digest(g.native(), domain, seq![wires_vals(old(c).values(), input@)], 1),
    {
        let mut hash = HashGadget::new(domain);
        hash.update(input);
        assert(hash.chunks() =~= seq![input@]);
        assert(total_len(seq![input@]) == input@.len()) by {
            reveal_with_fuel(total_len, 2);
            assert(seq![input@].drop_last() =~= Seq::<Seq<usize>>::empty());
        }
        assert(chunk_wire_vals(c.values(), seq![input@]) =~= seq![wires_vals(c.values(), input@)]);
        hash.finalize(g, c)
    }
}

impl HashGadget {
    /// Computes the digest in the circuit and truncates each output wire to
    /// its low 250 bits, a Jubjub scalar.
    pub fn finalize_truncated<P: Permutation, G: GadgetPermute<P>>(&self, g: &G, c: &mut Circuit) -> (r:
        Result<Vec<usize>, Error>)
        requires
            g.native().wf(),
            old(c).inv(),
            forall|i: int| 0 <= i < self.chunks().len() ==> all_exist(old(c).values(), #[trigger] self.chunks()[i]),
        ensures
            final(c).inv(),
            extends(final(c).values(), old(c).values()),
            !shape_ok(self.domain(), total_len(self.chunks()), self.out_len() as int) ==> r
                == Err::<Vec<usize>, Error>(Error::IOPatternViolation),
            shape_ok(self.domain(), total_len(self.chunks()), self.out_len() as int) && !valid_pattern(
                hash_pattern(self.chunks(), self.out_len()),
            ) ==> r == Err::<Vec<usize>, Error>(Error::InvalidIOPattern),
            shape_ok(self.domain(), total_len(self.chunks()), self.out_len() as int) && valid_pattern(
                hash_pattern(self.chunks(), self.out_len()),
            ) ==> r is Ok,
            r matches Ok(out) ==> {
                let h = sponge_digest(
                    g.native(),
                    self.domain(),
                    chunk_wire_vals(old(c).values(), self.chunks()),
                    self.out_len(),
                );
                &&& all_exist(final(c).values(), out@)
                &&& out@.len() == h.len()
                &&& forall|i: int|
                    0 <= i < out@.len() ==> #[trigger] final(c).values()[out@[i] as int] == h[i]
                        % truncation_modulus() && final(c).values()[out@[i] as int] < jubjub_order()
            },
    {
        let full = match self.finalize(g, c) {
            Ok(v) => v,
            Err(e) => {
                return Err(e);
            },
        };
        let ghost h = wires_vals(c.values(), full@);
        let ghost v1 = c.values();
        let mut out: Vec<usize> = Vec::new();
        let mut i: usize = 0;
        while i < full.len()
            invariant
                0 <= i <= full@.len(),
                c.inv(),
                extends(c.values(), v1),
                all_exist(v1, full@),
                h == wires_vals(v1, full@),
                out@.len() == i,
                all_exist(c.values(), out@),
                forall|j: int|
                    0 <= j < i ==> #[trigger] c.values()[out@[j] as int] == h[j] % truncation_modulus()
                        && c.values()[out@[j] as int] < jubjub_order(),
            decreases full@.len() - i,
        {
            let w = c.truncate_to_250_bits(full[i]);
            proof {
                lemma_truncation_fits();
                vstd::arithmetic::power::lemma_pow_positive(256, 31);
            }
            out.push(w);
            i = i + 1;
        }
        Ok(out)
    }
}

/// Native and circuit hashing agree: when the wires of each chunk hold the
/// values of the native chunk, the circuit digest's wires hold the native
/// digest, for the same permutation tables, domain and output length.
pub proof fn lemma_hash_native_circuit_agree<P: Permutation>(
    perm: P,
    domain: Domain,
    native_chunks: Seq<Seq<Scalar>>,
    wire_chunks: Seq<Seq<int>>,
    output_len: usize,
)
    requires
        chunk_vals(native_chunks) == wire_chunks,
    ensures
        hash_output(perm, domain, native_chunks, output_len) == sponge_digest(
            perm,
            domain,
            wire_chunks,
            output_len,
        ),
{
}

} // verus!
