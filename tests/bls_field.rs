use zk_hashes::bls::{fr_add, fr_from_bytes, fr_from_u64, fr_hash, fr_mul, fr_pow, fr_quintic, fr_sub, Scalar};

const Q_MINUS_ONE: [u8; 32] = [
    0, 0, 0, 0, 255, 255, 255, 255, 254, 91, 254, 255, 2, 164, 189, 83, 5, 216, 161, 9, 8, 216, 57,
    51, 72, 125, 157, 41, 83, 167, 237, 115,
];

const INV_FIVE: [u64; 4] = [
    0x33333332cccccccd,
    0x217f0e679998f199,
    0xe14a56699d73f002,
    0x2e5f0fbadd72321c,
];

fn s(v: u64) -> Scalar {
    fr_from_u64(v)
}

#[test]
fn small_values_encode_little_endian() {
    let x = s(0x0102);
    assert_eq!(x.bytes[0], 2);
    assert_eq!(x.bytes[1], 1);
    assert!(x.bytes[2..].iter().all(|b| *b == 0));
}

#[test]
fn arithmetic_on_small_values() {
    assert_eq!(fr_add(&s(2), &s(3)), s(5));
    assert_eq!(fr_mul(&s(6), &s(7)), s(42));
    assert_eq!(fr_sub(&s(10), &s(4)), s(6));
    assert_eq!(fr_quintic(&s(3)), s(243));
    assert_eq!(fr_pow(&s(2), &[10, 0, 0, 0]), s(1024));
}

#[test]
fn subtraction_wraps_to_the_modulus() {
    let m = fr_sub(&s(0), &s(1));
    assert_eq!(m.bytes, Q_MINUS_ONE);
    assert_eq!(fr_add(&m, &s(1)), s(0));
    assert_eq!(fr_mul(&m, &m), s(1));
}

#[test]
fn inverse_exponent_undoes_the_quintic() {
    let x = s(123_456_789);
    let y = fr_quintic(&x);
    assert_ne!(y, x);
    assert_eq!(fr_pow(&y, &INV_FIVE), x);
}

#[test]
fn canonical_bytes_are_accepted() {
    assert_eq!(fr_from_bytes(Q_MINUS_ONE), Some(Scalar { bytes: Q_MINUS_ONE }));
    let mut q = Q_MINUS_ONE;
    q[0] = 1;
    assert_eq!(fr_from_bytes(q), None);
    assert_eq!(fr_from_bytes([0xff; 32]), None);
    assert_eq!(fr_from_bytes([0; 32]), Some(s(0)));
}

#[test]
fn hash_to_field_depends_on_the_bytes() {
    let a = fr_hash(b"abc");
    let b = fr_hash(b"abd");
    assert_eq!(a, fr_hash(b"abc"));
    assert_ne!(a, b);
    assert_ne!(a, s(0));
}
