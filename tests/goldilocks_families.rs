use zk_hashes::anemoi_sponge::Anemoi;
use zk_hashes::arion_sponge::Arion;
use zk_hashes::goldilocks::{field_pow, ORDER};
use zk_hashes::griffin_sponge::Griffin;
use zk_hashes::rescue_prime::{Rescue, ALPHA, ALPHA_INV};

fn table(n: usize, seed: u64) -> Vec<u64> {
    (0..n as u64).map(|i| (i * 0x9e37_79b9_7f4a_7c15 + seed) % ORDER).collect()
}

fn matrix(seed: u64) -> [[u64; 12]; 12] {
    let mut m = [[0u64; 12]; 12];
    for i in 0..12 {
        for j in 0..12 {
            m[i][j] = ((i * 12 + j) as u64 + seed) % 97 + 1;
        }
    }
    m
}

#[test]
fn rescue_inverse_exponent_inverts_the_sbox() {
    for x in [2u64, 3, 12345, ORDER - 2] {
        assert_eq!(field_pow(field_pow(x, ALPHA), ALPHA_INV), x);
    }
}

#[test]
fn rescue_test() {
    let r = Rescue::new(table(168, 1), matrix(3));
    let input: Vec<u64> = (0..16).collect();
    let out = r.rescue_hash(&input);
    assert!(out.iter().all(|x| *x < ORDER));
    assert_eq!(out, r.rescue_hash(&input));
    let mut other = input.clone();
    other[15] = 99;
    assert_ne!(out, r.rescue_hash(&other));
    let mut state = [0u64; 12];
    r.rescue_permutation(&mut state);
    assert_ne!(state, [0u64; 12]);
}

#[test]
fn test_griffin_hash() {
    let g = Griffin::new(table(84, 5), matrix(7), [3; 10], [5; 10]);
    let out = g.griffin_sponge([1, 2, 3, 4, 5, 6, 7, 8], 4);
    assert_eq!(out.len(), 4);
    assert!(out.iter().all(|x| *x < ORDER));
    let full = g.griffin_sponge([1, 2, 3, 4, 5, 6, 7, 8], 8);
    assert_eq!(out[..], full[..4]);
    assert_ne!(full, g.griffin_sponge([1, 2, 3, 4, 5, 6, 7, 9], 8));
}

#[test]
fn goldilocks_anemoi_linear_layer_on_a_unit_vector() {
    let mut st = [1, 0, 0, 0, 0, 0, 0, 0, 0, 0, 0, 0];
    Anemoi::linear_layer(&mut st);
    assert_eq!(st, [2, 12, 10, 8, 6, 2, 1, 6, 5, 4, 3, 1]);
}

#[test]
fn test_anemoi_hash() {
    let a = Anemoi::new(table(120, 9));
    let out = a.anemoi_hash([1, 2, 3, 4, 5, 6, 7, 8], 4);
    assert_eq!(out.len(), 4);
    assert!(out.iter().all(|x| *x < ORDER));
    let long = a.anemoi_hash([1, 2, 3, 4, 5, 6, 7, 8], 12);
    assert_eq!(out[..], long[..4]);
    assert_ne!(long[8..], long[..4]);
    assert!(a.anemoi_hash([1, 2, 3, 4, 5, 6, 7, 8], 0).is_empty());
}

#[test]
fn goldilocks_arion_linear_layer_on_a_unit_vector() {
    let mut st = [1, 0, 0, 0, 0, 0, 0, 0, 0, 0, 0, 0];
    Arion::mul_matrix(&mut st);
    assert_eq!(st, [1, 12, 11, 10, 9, 8, 7, 6, 5, 4, 3, 2]);
}

#[test]
fn arion_test() {
    let a = Arion::new(table(176, 11), table(88, 13), table(96, 17));
    let out = a.arion_hash([1, 2, 3, 4, 5, 6, 7, 8], 4);
    assert_eq!(out.len(), 4);
    assert!(out.iter().all(|x| *x < ORDER));
    assert_eq!(out, a.arion_hash([1, 2, 3, 4, 5, 6, 7, 8], 4));
    assert_ne!(out, a.arion_hash([0, 2, 3, 4, 5, 6, 7, 8], 4));
}
