use zk_hashes::anemoi;
use zk_hashes::arion;
use zk_hashes::bls::{fr_from_u64, Scalar, WIDTH};
use zk_hashes::circuit::{root_gadget, wire_add, wire_sub, Circuit};
use zk_hashes::griffin;
use zk_hashes::hash;
use zk_hashes::hash::Domain;
use zk_hashes::hash_gadget::HashGadget;
use zk_hashes::permutation::{GadgetPermute, Permutation};
use zk_hashes::rescue;

const INV_FIVE: [u64; 4] = [
    0x33333332cccccccd,
    0x217f0e679998f199,
    0xe14a56699d73f002,
    0x2e5f0fbadd72321c,
];

fn s(v: u64) -> Scalar {
    fr_from_u64(v)
}

fn row(seed: u64) -> [Scalar; WIDTH] {
    let mut r = [s(0); WIDTH];
    for i in 0..WIDTH {
        r[i] = s(seed * 29 + i as u64 + 2);
    }
    r
}

fn matrix() -> [[Scalar; WIDTH]; WIDTH] {
    let mut m = [[s(0); WIDTH]; WIDTH];
    for i in 0..WIDTH {
        for j in 0..WIDTH {
            m[i][j] = s(((i + 1) * (j + 2)) as u64);
        }
    }
    m
}

fn inputs(seed: u64) -> [Scalar; WIDTH] {
    let mut r = [s(0); WIDTH];
    for i in 0..WIDTH {
        r[i] = s(seed.wrapping_mul(0x9e37_79b9) ^ (i as u64 * 0x1234_5678));
    }
    r
}

fn load(c: &mut Circuit, v: &[Scalar; WIDTH]) -> [usize; WIDTH] {
    let mut st = [0usize; WIDTH];
    for i in 0..WIDTH {
        st[i] = c.append_witness(&v[i]);
    }
    st
}

fn read(c: &Circuit, st: &[usize; WIDTH]) -> [Scalar; WIDTH] {
    let mut r = [s(0); WIDTH];
    for i in 0..WIDTH {
        r[i] = c.value(st[i]);
    }
    r
}

#[test]
fn circuit_gates_hold_their_values() {
    let mut c = Circuit::new();
    let a = c.append_witness(&s(10));
    let b = c.append_witness(&s(3));
    let sum = wire_add(&mut c, a, b);
    let diff = wire_sub(&mut c, b, a);
    assert_eq!(c.value(sum), s(13));
    assert_eq!(c.value(diff), zk_hashes::bls::fr_sub(&s(3), &s(10)));
    let x = c.append_witness(&s(243));
    let r = root_gadget(&mut c, x, &INV_FIVE, 5);
    assert_eq!(c.value(r), s(3));
}

#[test]
fn rescue_native_and_circuit_agree() {
    let rc = (0..16).map(row).collect();
    let p = rescue::ScalarPermutation::new(rc, matrix(), INV_FIVE);
    let g = rescue::GadgetPermutation::new(&p);
    for k in 0..3 {
        let mut native = inputs(k);
        p.permute(&mut native);
        let mut c = Circuit::new();
        let mut st = load(&mut c, &inputs(k));
        g.permute(&mut c, &mut st);
        assert_eq!(read(&c, &st), native);
    }
}

#[test]
fn griffin_native_and_circuit_agree() {
    let rc = (0..8).map(row).collect();
    let a = [s(2), s(3), s(4), s(5), s(6), s(7)];
    let b = [s(11), s(13), s(17), s(19), s(23), s(29)];
    let p = griffin::ScalarPermutation::new(rc, matrix(), a, b, INV_FIVE);
    let g = griffin::GadgetPermutation::new(&p);
    for k in 0..3 {
        let mut native = inputs(k);
        p.permute(&mut native);
        let mut c = Circuit::new();
        let mut st = load(&mut c, &inputs(k));
        g.permute(&mut c, &mut st);
        assert_eq!(read(&c, &st), native);
    }
}

#[test]
fn anemoi_native_and_circuit_agree() {
    let rc = (0..10).map(row).collect();
    let p = anemoi::ScalarPermutation::new(rc, s(5), INV_FIVE);
    let g = anemoi::GadgetPermutation::new(&p);
    for k in 0..3 {
        let mut native = inputs(k);
        p.permute(&mut native);
        let mut c = Circuit::new();
        let mut st = load(&mut c, &inputs(k));
        g.permute(&mut c, &mut st);
        assert_eq!(read(&c, &st), native);
    }
}

#[test]
fn arion_native_and_circuit_agree() {
    let gt = (0..4u64)
        .map(|r| {
            let mut x = [s(0); 14];
            for i in 0..14 {
                x[i] = s(r * 100 + i as u64 + 1);
            }
            x
        })
        .collect();
    let ht = (0..4u64)
        .map(|r| {
            let mut x = [s(0); 7];
            for i in 0..7 {
                x[i] = s(r * 50 + i as u64 + 3);
            }
            x
        })
        .collect();
    let aff = (0..4).map(row).collect();
    let p = arion::ScalarPermutation::new(gt, ht, aff, INV_FIVE);
    let g = arion::GadgetPermutation::new(&p);
    for k in 0..2 {
        let mut native = inputs(k);
        p.permute(&mut native);
        let mut c = Circuit::new();
        let mut st = load(&mut c, &inputs(k));
        g.permute(&mut c, &mut st);
        assert_eq!(read(&c, &st), native);
    }
}

fn rescue_tables() -> rescue::ScalarPermutation {
    let rc = (0..16).map(row).collect();
    rescue::ScalarPermutation::new(rc, matrix(), INV_FIVE)
}

#[test]
fn circuit_digest_matches_native_digest() {
    let p = rescue_tables();
    let g = rescue::GadgetPermutation::new(&p);
    let values = [s(1), s(2), s(3), s(4)];
    let native = hash::Hash::digest(Domain::Merkle4, &p, &values).unwrap();
    let mut c = Circuit::new();
    let wires: Vec<usize> = values.iter().map(|v| c.append_witness(v)).collect();
    let out = HashGadget::digest(Domain::Merkle4, &g, &mut c, &wires).unwrap();
    assert_eq!(out.len(), 1);
    assert_eq!(c.value(out[0]), native[0]);
}

#[test]
fn circuit_digest_enforces_arity() {
    let p = rescue_tables();
    let g = rescue::GadgetPermutation::new(&p);
    let mut c = Circuit::new();
    let a = c.append_witness(&s(1));
    let b = c.append_witness(&s(2));
    assert_eq!(
        HashGadget::digest(Domain::Merkle2, &g, &mut c, &[a]),
        Err(zk_hashes::sponge::Error::IOPatternViolation)
    );
    assert!(HashGadget::digest(Domain::Merkle2, &g, &mut c, &[a, b]).is_ok());
}

#[test]
fn circuit_truncated_digest_matches_native() {
    let p = rescue_tables();
    let g = rescue::GadgetPermutation::new(&p);
    let values = [s(9), s(8), s(7)];
    let mut h = hash::Hash::new(Domain::Other);
    h.update(&values);
    h.output_len(3);
    let native = h.finalize_truncated(&p).unwrap();
    let mut c = Circuit::new();
    let wires: Vec<usize> = values.iter().map(|v| c.append_witness(v)).collect();
    let mut hg = HashGadget::new(Domain::Other);
    hg.update(&wires);
    hg.output_len(3);
    let out = hg.finalize_truncated(&g, &mut c).unwrap();
    assert_eq!(out.len(), 3);
    for i in 0..3 {
        assert_eq!(c.value(out[i]).bytes, native[i].bytes);
    }
}

#[test]
fn adopted_composer_keeps_its_gates() {
    let composer = dusk_plonk::prelude::Composer::initialized();
    let before = composer.constraints();
    let mut c = Circuit::adopt(composer);
    assert_eq!(c.value(0), s(0));
    assert_eq!(c.value(1), s(1));
    let a = c.append_witness(&s(6));
    let b = c.append_witness(&s(7));
    let p = zk_hashes::circuit::wire_mul(&mut c, a, b);
    assert_eq!(c.value(p), s(42));
    c.assert_public(p, &s(42));
    let composer = c.into_composer();
    assert!(composer.constraints() >= before + 2);
}
