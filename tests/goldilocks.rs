use zk_hashes::goldilocks::{field_add, field_mul, field_pow, field_sub, random_elems, ORDER};
use zk_hashes::mimc::{MiMC, ROUNDS};

#[test]
fn addition_wraps_at_the_order() {
    assert_eq!(field_add(ORDER - 1, 1), 0);
    assert_eq!(field_add(ORDER - 1, ORDER - 1), ORDER - 2);
    assert_eq!(field_add(2, 3), 5);
}

#[test]
fn subtraction_wraps_below_zero() {
    assert_eq!(field_sub(0, 1), ORDER - 1);
    assert_eq!(field_sub(10, 3), 7);
}

#[test]
fn multiplication_reduces() {
    assert_eq!(field_mul(ORDER - 1, ORDER - 1), 1);
    assert_eq!(field_mul(1 << 32, 1 << 32), (1u64 << 32) - 1);
    assert_eq!(field_mul(6, 7), 42);
}

#[test]
fn exponentiation_matches_repeated_multiplication() {
    assert_eq!(field_pow(3, 5), 243);
    assert_eq!(field_pow(2, 64), (1u64 << 32) - 1);
    assert_eq!(field_pow(5, 0), 1);
    assert_eq!(field_pow(0, 0), 1);
    assert_eq!(field_pow(ORDER - 1, ORDER - 1), 1);
}

#[test]
fn random_elements_are_canonical() {
    let v = random_elems(100);
    assert_eq!(v.len(), 100);
    assert!(v.iter().all(|x| *x < ORDER));
}

fn reference_mimc(constants: &[u64], l: u64, r: u64) -> u64 {
    let p = ORDER as u128;
    let (mut hl, mut hr) = (l as u128, r as u128);
    for c in constants {
        let t = (c % ORDER) as u128 + hl;
        let t = t % p;
        let mut x = 1u128;
        for _ in 0..7 {
            x = x * t % p;
        }
        let n = (hr + x) % p;
        hr = hl;
        hl = n;
    }
    hl as u64
}

#[test]
fn permute_mimc() {
    let mimc = MiMC::new_from_rng();
    let hash = mimc.permute_rounds([1, 2]);
    assert!(hash < ORDER);
    assert_eq!(hash, reference_mimc(&mimc.constants, 1, 2));
    assert_eq!(hash, mimc.permute_rounds([1, 2]));
}

#[test]
fn mimc_with_fixed_constants() {
    let constants: Vec<u64> = (0..ROUNDS as u64).map(|i| i * 1000 + 7).collect();
    let mimc = MiMC::new(constants.clone());
    assert_eq!(mimc.permute_rounds([0, 0]), reference_mimc(&constants, 0, 0));
    assert_eq!(mimc.permute_rounds([5, ORDER - 1]), reference_mimc(&constants, 5, ORDER - 1));
    assert_ne!(mimc.permute_rounds([1, 2]), mimc.permute_rounds([2, 1]));
}

#[test]
fn mimc_with_zero_constants_keeps_zero() {
    let mimc = MiMC::new(vec![0; ROUNDS]);
    assert_eq!(mimc.permute_rounds([0, 0]), 0);
}
