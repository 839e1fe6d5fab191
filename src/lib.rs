//! Algebraic hash permutations for arithmetic circuits, over the Goldilocks
//! field and over the BLS12-381 scalar field, with a domain-separated sponge
//! and a hash facade on top.
//!
//! Over BLS12-381 each permutation family (Hades, Rescue-Prime, Griffin,
//! Anemoi, Arion) runs in two modes, native and circuit, and both are proved
//! to compute the same specification; so do the sponge and the hash facade.

// The BLS12-381 scalar field, its permutations and their circuit mode.
pub mod bls;
pub mod tables;
pub mod permutation;
pub mod circuit;
pub mod hades;
pub mod rescue;
pub mod griffin;
pub mod anemoi;
pub mod arion;

// The sponge and the hash facade, native and in circuit mode.
pub mod sponge;
pub mod hash;
pub mod hash_gadget;

// The Goldilocks field and its permutations.
pub mod goldilocks;
pub mod gl_layers;
pub mod mimc;
pub mod poseidon;
pub mod rescue_prime;
pub mod griffin_sponge;
pub mod anemoi_sponge;
pub mod arion_sponge;
