use dusk_bls12_381::BlsScalar;
use sha2::Digest;
use zk_hashes::bls::{fr_from_u64, fr_mul, Scalar, WIDTH};
use zk_hashes::circuit::Circuit;
use zk_hashes::hades::{constants, mds, GadgetPermutation, ScalarPermutation, ROUNDS};
use zk_hashes::hash;
use zk_hashes::hash::Domain;
use zk_hashes::hash_gadget::HashGadget;
use zk_hashes::permutation::{GadgetPermute, Permutation};

fn s(v: u64) -> Scalar {
    fr_from_u64(v)
}

#[test]
fn constants_follow_the_hash_chain() {
    let table = constants();
    assert_eq!(table.len(), ROUNDS);
    let mut bytes = b"poseidon-for-plonk".to_vec();
    let mut prev = BlsScalar::one();
    for r in 0..3 {
        for j in 0..WIDTH {
            bytes = sha2::Sha512::digest(&bytes).to_vec();
            let mut wide = [0u8; 64];
            wide.copy_from_slice(&bytes);
            let c = BlsScalar::from_bytes_wide(&wide) + prev;
            assert_eq!(table[r][j].bytes, c.to_bytes());
            prev = c;
        }
    }
}

#[test]
fn mds_is_the_cauchy_matrix() {
    let m = mds();
    for i in 0..WIDTH {
        for j in 0..WIDTH {
            assert_eq!(fr_mul(&m[i][j], &s((i + j + WIDTH) as u64)), s(1));
        }
    }
}

#[test]
fn hades_native_and_circuit_agree() {
    let p = ScalarPermutation::new(constants(), mds());
    let g = GadgetPermutation::new(&p);
    let input = [s(1), s(2), s(3), s(4), s(5), s(6), s(7), s(8)];
    let mut native = input;
    p.permute(&mut native);
    assert_ne!(native, input);
    let mut c = Circuit::new();
    let mut st = [0usize; WIDTH];
    for i in 0..WIDTH {
        st[i] = c.append_witness(&input[i]);
    }
    g.permute(&mut c, &mut st);
    for i in 0..WIDTH {
        assert_eq!(c.value(st[i]), native[i]);
    }
}

#[test]
fn hades_merkle4_digest_in_both_modes() {
    let p = ScalarPermutation::new(constants(), mds());
    let g = GadgetPermutation::new(&p);
    let values = [s(1), s(2), s(3), s(4)];
    let native = hash::Hash::digest(Domain::Merkle4, &p, &values).unwrap();
    assert_eq!(native, hash::Hash::digest(Domain::Merkle4, &p, &values).unwrap());
    let mut c = Circuit::new();
    let wires: Vec<usize> = values.iter().map(|v| c.append_witness(v)).collect();
    let out = HashGadget::digest(Domain::Merkle4, &g, &mut c, &wires).unwrap();
    assert_eq!(c.value(out[0]), native[0]);
}
