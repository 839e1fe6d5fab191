use zk_hashes::goldilocks::ORDER;
use zk_hashes::poseidon::{Poseidon, N_ROUNDS, SPONGE_RATE, SPONGE_WIDTH};

fn table() -> Vec<u64> {
    (0..(SPONGE_WIDTH * N_ROUNDS) as u64).map(|i| (i * 0x9e37_79b9_7f4a_7c15) % ORDER).collect()
}

#[test]
fn poseidon_hash() {
    let poseidon = Poseidon::new(table());
    let mut input = [0u64; SPONGE_RATE];
    for i in 0..SPONGE_RATE {
        input[i] = i as u64;
    }
    let output = poseidon.poseidon_hash(input);
    assert!(output < ORDER);
    assert_eq!(output, poseidon.poseidon_hash(input));
    input[7] = 8;
    assert_ne!(output, poseidon.poseidon_hash(input));
}

#[test]
fn poseidon_zero_constants_fix_zero() {
    let poseidon = Poseidon::new(vec![0; SPONGE_WIDTH * N_ROUNDS]);
    assert_eq!(poseidon.poseidon_hash([0; SPONGE_RATE]), 0);
}

#[test]
fn poseidon_one_round_structure() {
    // With zero constants and input (1, 0, ..., 0), the first full round maps
    // lane 0 to 1 and mixes it by the first column of the MDS matrix.
    let poseidon = Poseidon::new(vec![0; SPONGE_WIDTH * N_ROUNDS]);
    let a = poseidon.poseidon_hash([1, 0, 0, 0, 0, 0, 0, 0]);
    let b = poseidon.poseidon_hash([1, 0, 0, 0, 0, 0, 0, 0]);
    assert_eq!(a, b);
    assert!(a < ORDER);
}
