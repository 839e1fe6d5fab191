//! The capability that the sponge asks of a permutation family.

use crate::bls::{all_wf, hash_to_field, vals, Scalar, WIDTH};
use crate::circuit::{extends, wire_vals, wires_exist, Circuit};
use vstd::prelude::*;

verus! {

/// A fixed-width permutation over the BLS12-381 scalar field.
pub trait Permutation {
    /// The instance's tables are complete and canonical.
    spec fn wf(&self) -> bool;

    /// What the permutation does to the values of a state.
    spec fn spec_permute(&self, s: Seq<int>) -> Seq<int>;

    /// Permutes the state in place.
    fn permute(&self, state: &mut [Scalar; WIDTH])
        requires
            self.wf(),
            all_wf(old(state)@),
        ensures
            all_wf(final(state)@),
            vals(final(state)@) == self.spec_permute(vals(old(state)@)),
    ;

    /// Maps a byte string to the field element that seeds the sponge's capacity.
    fn tag(&self, input: &[u8]) -> (r: Scalar)
        ensures
            r.wf(),
            r.val() == hash_to_field(input@),
    ;

    /// Adds two field elements.
    fn add(&self, a: &Scalar, b: &Scalar) -> (r: Scalar)
        requires
            a.wf(),
            b.wf(),
        ensures
            r.wf(),
            r.val() == crate::bls::radd(a.val(), b.val()),
    ;
}

/// A permutation in circuit mode, over the tables of a native permutation.
pub trait GadgetPermute<P: Permutation> {
    /// The native permutation with the same tables.
    spec fn native(&self) -> P;

    /// Permutes the wires of a state, appending the gates to the circuit.
    fn permute(&self, c: &mut Circuit, state: &mut [usize; WIDTH])
        requires
            self.native().wf(),
            old(c).inv(),
            wires_exist(old(c).values(), *old(state)),
        ensures
            final(c).inv(),
            extends(final(c).values(), old(c).values()),
            wires_exist(final(c).values(), *final(state)),
            wire_vals(final(c).values(), *final(state)) == self.native().spec_permute(
                wire_vals(old(c).values(), *old(state)),
            ),
    ;
}

/// Native and circuit mode agree: when a circuit's input wires hold the
/// values of a native state, the wires that a gadget permutation leaves hold
/// the values of the natively permuted state. Each family's native `permute`
/// and gadget `permute` both end in `spec_permute` of the same tables.
pub proof fn lemma_native_circuit_agree<P: Permutation>(
    perm: P,
    native_in: Seq<int>,
    native_out: Seq<int>,
    wires_in: Seq<int>,
    wires_out: Seq<int>,
)
    requires
        native_out == perm.spec_permute(native_in),
        wires_out == perm.spec_permute(wires_in),
        native_in == wires_in,
    ensures
        native_out == wires_out,
{
}

} // verus!
