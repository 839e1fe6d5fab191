use zk_hashes::anemoi;
use zk_hashes::arion;
use zk_hashes::bls::{fr_from_u64, Scalar, WIDTH};
use zk_hashes::griffin;
use zk_hashes::permutation::Permutation;
use zk_hashes::rescue;

pub const INV_FIVE: [u64; 4] = [
    0x33333332cccccccd,
    0x217f0e679998f199,
    0xe14a56699d73f002,
    0x2e5f0fbadd72321c,
];

fn s(v: u64) -> Scalar {
    fr_from_u64(v)
}

fn row(seed: u64) -> [Scalar; WIDTH] {
    let mut r = [s(0); WIDTH];
    for i in 0..WIDTH {
        r[i] = s(seed * 31 + i as u64 + 1);
    }
    r
}

fn matrix() -> [[Scalar; WIDTH]; WIDTH] {
    let mut m = [[s(0); WIDTH]; WIDTH];
    for i in 0..WIDTH {
        for j in 0..WIDTH {
            m[i][j] = s((i * WIDTH + j + 1) as u64);
        }
    }
    m
}

fn input() -> [Scalar; WIDTH] {
    [s(1), s(2), s(3), s(4), s(5), s(6), s(7), s(8)]
}

fn check<P: Permutation>(p: &P) {
    let mut a = input();
    p.permute(&mut a);
    let mut b = input();
    p.permute(&mut b);
    assert_eq!(a, b);
    assert_ne!(a, input());
    let mut c = input();
    c[0] = s(9);
    p.permute(&mut c);
    assert_ne!(a, c);
}

#[test]
fn anemoi_linear_layer_on_a_unit_vector() {
    let mut st = [s(1), s(0), s(0), s(0), s(0), s(0), s(0), s(0)];
    anemoi::apply_linear_layer(&mut st);
    assert_eq!(st, [s(2), s(98), s(98), s(16), s(1), s(49), s(49), s(8)]);
}

#[test]
fn arion_linear_layer_on_a_unit_vector() {
    let mut st = [s(1), s(0), s(0), s(0), s(0), s(0), s(0), s(0)];
    arion::apply_linear_layer(&mut st);
    assert_eq!(st, [s(1), s(8), s(7), s(6), s(5), s(4), s(3), s(2)]);
}

#[test]
fn rescue_permutes_deterministically() {
    let rc = (0..16).map(row).collect();
    let p = rescue::ScalarPermutation::new(rc, matrix(), INV_FIVE);
    check(&p);
}

#[test]
fn griffin_permutes_deterministically() {
    let rc = (0..8).map(row).collect();
    let a = [s(2), s(3), s(4), s(5), s(6), s(7)];
    let b = [s(11), s(13), s(17), s(19), s(23), s(29)];
    let p = griffin::ScalarPermutation::new(rc, matrix(), a, b, INV_FIVE);
    check(&p);
}

#[test]
fn anemoi_permutes_deterministically() {
    let rc = (0..10).map(row).collect();
    let p = anemoi::ScalarPermutation::new(rc, s(3), INV_FIVE);
    check(&p);
}

#[test]
fn arion_permutes_deterministically() {
    let g = (0..4)
        .map(|r| {
            let mut x = [s(0); 14];
            for i in 0..14 {
                x[i] = s(r * 100 + i as u64 + 1);
            }
            x
        })
        .collect();
    let h = (0..4)
        .map(|r| {
            let mut x = [s(0); 7];
            for i in 0..7 {
                x[i] = s(r * 50 + i as u64 + 3);
            }
            x
        })
        .collect();
    let aff = (0..4).map(row).collect();
    let p = arion::ScalarPermutation::new(g, h, aff, INV_FIVE);
    check(&p);
}
