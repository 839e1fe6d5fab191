use zk_hashes::bls::{fr_from_u64, Scalar, WIDTH};
use zk_hashes::hash;
use zk_hashes::hash::{io_pattern, Domain};
use zk_hashes::rescue;
use zk_hashes::sponge::{tag_input, Call, Error, Sponge};

const INV_FIVE: [u64; 4] = [
    0x33333332cccccccd,
    0x217f0e679998f199,
    0xe14a56699d73f002,
    0x2e5f0fbadd72321c,
];

fn s(v: u64) -> Scalar {
    fr_from_u64(v)
}

fn perm() -> rescue::ScalarPermutation {
    let rc = (0..16u64)
        .map(|r| {
            let mut x = [s(0); WIDTH];
            for i in 0..WIDTH {
                x[i] = s(r * 17 + i as u64 + 5);
            }
            x
        })
        .collect();
    let mut m = [[s(0); WIDTH]; WIDTH];
    for i in 0..WIDTH {
        for j in 0..WIDTH {
            m[i][j] = s(((i + 3) * (j + 1)) as u64);
        }
    }
    rescue::ScalarPermutation::new(rc, m, INV_FIVE)
}

#[test]
fn domain_separators() {
    assert_eq!(Domain::Merkle2.separator(), 3);
    assert_eq!(Domain::Merkle4.separator(), 0xf);
    assert_eq!(Domain::Encryption.separator(), 1 << 32);
    assert_eq!(Domain::Other.separator(), 0);
    assert_eq!(u64::from(Domain::Merkle4), 0xf);
}

#[test]
fn io_pattern_enforces_merkle_arity() {
    let one = vec![vec![s(1)]];
    let two = vec![vec![s(1), s(2)]];
    let three = vec![vec![s(1)], vec![s(2), s(3)]];
    let four = vec![vec![s(1), s(2)], vec![s(3), s(4)]];
    assert_eq!(io_pattern(Domain::Merkle2, &one, 1), Err(Error::IOPatternViolation));
    assert_eq!(io_pattern(Domain::Merkle2, &two, 2), Err(Error::IOPatternViolation));
    assert_eq!(io_pattern(Domain::Merkle4, &three, 1), Err(Error::IOPatternViolation));
    assert_eq!(
        io_pattern(Domain::Merkle2, &two, 1),
        Ok(vec![Call::Absorb(2), Call::Squeeze(1)])
    );
    assert_eq!(
        io_pattern(Domain::Merkle4, &four, 1),
        Ok(vec![Call::Absorb(2), Call::Absorb(2), Call::Squeeze(1)])
    );
    assert_eq!(
        io_pattern(Domain::Other, &three, 3),
        Ok(vec![Call::Absorb(1), Call::Absorb(2), Call::Squeeze(3)])
    );
}

#[test]
fn tag_input_encodes_runs_and_domain() {
    let p = vec![Call::Absorb(2), Call::Absorb(3), Call::Squeeze(1), Call::Squeeze(4)];
    let b = tag_input(&p, 0x0102).unwrap();
    assert_eq!(b, vec![0x80, 0, 0, 5, 0, 0, 0, 5, 0, 0, 0, 0, 0, 0, 1, 2]);
    let p = vec![Call::Absorb(1), Call::Squeeze(1), Call::Absorb(1), Call::Squeeze(2)];
    let b = tag_input(&p, 3).unwrap();
    assert_eq!(b, vec![0x80, 0, 0, 1, 0, 0, 0, 1, 0x80, 0, 0, 1, 0, 0, 0, 2, 0, 0, 0, 0, 0, 0, 0, 3]);
}

#[test]
fn tag_input_rejects_invalid_patterns() {
    let e = Err(Error::InvalidIOPattern);
    assert_eq!(tag_input(&vec![], 0), e);
    assert_eq!(tag_input(&vec![Call::Squeeze(1)], 0), e);
    assert_eq!(tag_input(&vec![Call::Absorb(1)], 0), e);
    assert_eq!(tag_input(&vec![Call::Absorb(0), Call::Squeeze(1)], 0), e);
    assert_eq!(tag_input(&vec![Call::Absorb(1 << 31), Call::Squeeze(1)], 0), e);
    assert_eq!(
        tag_input(&vec![Call::Absorb(1 << 30), Call::Absorb(1 << 30), Call::Squeeze(1)], 0),
        e
    );
}

#[test]
fn sponge_rejects_calls_out_of_order() {
    let p = perm();
    let mut sp = Sponge::start(&p, vec![Call::Absorb(2), Call::Squeeze(1)], 0).unwrap();
    assert_eq!(sp.squeeze(1), Err(Error::IOPatternViolation));
    assert_eq!(sp.absorb(2, &[s(1), s(2)]), Err(Error::IOPatternViolation));
    assert_eq!(sp.finish(), Err(Error::IOPatternViolation));

    let mut sp = Sponge::start(&p, vec![Call::Absorb(2), Call::Squeeze(1)], 0).unwrap();
    assert_eq!(sp.absorb(2, &[s(1)]), Err(Error::TooFewInputElements));

    let mut sp = Sponge::start(&p, vec![Call::Absorb(2), Call::Squeeze(1)], 0).unwrap();
    assert_eq!(sp.absorb(1, &[s(1), s(2)]), Err(Error::IOPatternViolation));

    let mut sp = Sponge::start(&p, vec![Call::Absorb(2), Call::Squeeze(1)], 0).unwrap();
    assert_eq!(sp.absorb(2, &[s(1), s(2)]), Ok(()));
    assert_eq!(sp.finish(), Err(Error::IOPatternViolation));

    assert!(Sponge::start(&p, vec![Call::Squeeze(1)], 0).is_err());
}

#[test]
fn sponge_squeezes_across_permutations() {
    let p = perm();
    let mut sp = Sponge::start(&p, vec![Call::Absorb(1), Call::Squeeze(10)], 0).unwrap();
    sp.absorb(1, &[s(1)]).unwrap();
    sp.squeeze(10).unwrap();
    let out = sp.finish().unwrap();
    assert_eq!(out.len(), 10);
    let mut sp = Sponge::start(&p, vec![Call::Absorb(1), Call::Squeeze(7)], 0).unwrap();
    sp.absorb(1, &[s(1)]).unwrap();
    sp.squeeze(7).unwrap();
    let first = sp.finish().unwrap();
    assert_ne!(first[..], out[..7]);
}

#[test]
fn digest_is_deterministic() {
    let p = perm();
    let input = [s(1), s(2), s(3), s(4)];
    let a = hash::Hash::digest(Domain::Merkle4, &p, &input).unwrap();
    let b = hash::Hash::digest(Domain::Merkle4, &p, &input).unwrap();
    assert_eq!(a.len(), 1);
    assert_eq!(a, b);
}

#[test]
fn digest_enforces_arity() {
    let p = perm();
    let a = s(1);
    let b = s(2);
    let c = s(3);
    let d = s(4);
    assert_eq!(hash::Hash::digest(Domain::Merkle2, &p, &[a]), Err(Error::IOPatternViolation));
    assert_eq!(hash::Hash::digest(Domain::Merkle4, &p, &[a, b, c]), Err(Error::IOPatternViolation));
    assert!(hash::Hash::digest(Domain::Merkle2, &p, &[a, b]).is_ok());
    assert!(hash::Hash::digest(Domain::Merkle4, &p, &[a, b, c, d]).is_ok());
}

#[test]
fn empty_input_cannot_drive_a_sponge() {
    let p = perm();
    assert_eq!(hash::Hash::digest(Domain::Other, &p, &[]), Err(Error::InvalidIOPattern));
    let mut h = hash::Hash::new(Domain::Other);
    h.update(&[s(1)]);
    h.update(&[]);
    assert_eq!(h.finalize(&p), Err(Error::InvalidIOPattern));
}

#[test]
fn domains_separate_digests() {
    let p = perm();
    let input = [s(7), s(8)];
    let m = hash::Hash::digest(Domain::Merkle2, &p, &input).unwrap();
    let o = hash::Hash::digest(Domain::Other, &p, &input).unwrap();
    assert_ne!(m, o);
}

#[test]
fn chunking_does_not_change_the_digest() {
    let p = perm();
    let mut h1 = hash::Hash::new(Domain::Other);
    h1.update(&[s(1), s(2)]);
    let mut h2 = hash::Hash::new(Domain::Other);
    h2.update(&[s(1)]);
    h2.update(&[s(2)]);
    let a = h1.finalize(&p).unwrap();
    let b = h2.finalize(&p).unwrap();
    assert_eq!(a, hash::Hash::digest(Domain::Other, &p, &[s(1), s(2)]).unwrap());
    assert_eq!(a, b);
    let c = hash::Hash::digest(Domain::Other, &p, &[s(2), s(1)]).unwrap();
    assert_ne!(a, c);
}

#[test]
fn output_len_only_in_other() {
    let p = perm();
    let mut h = hash::Hash::new(Domain::Other);
    h.update(&[s(1), s(2), s(3)]);
    h.output_len(9);
    let out = h.finalize(&p).unwrap();
    assert_eq!(out.len(), 9);
    h.output_len(0);
    assert_eq!(h.finalize(&p).unwrap().len(), 9);

    let mut m = hash::Hash::new(Domain::Merkle2);
    m.update(&[s(1), s(2)]);
    m.output_len(3);
    assert_eq!(m.finalize(&p).unwrap().len(), 1);
}

#[test]
fn truncated_digests_fit_the_smaller_field() {
    let p = perm();
    for k in 0..20u64 {
        let out = hash::Hash::digest_truncated(Domain::Other, &p, &[s(k), s(k + 1)]).unwrap();
        let full = hash::Hash::digest(Domain::Other, &p, &[s(k), s(k + 1)]).unwrap();
        assert_eq!(out.len(), 1);
        assert!(out[0].bytes[31] <= 3);
        assert_eq!(out[0].bytes[..31], full[0].bytes[..31]);
        assert_eq!(out[0].bytes[31], full[0].bytes[31] & 3);
    }
    let mut h = hash::Hash::new(Domain::Other);
    h.update(&[s(5)]);
    h.output_len(4);
    let t = h.finalize_truncated(&p).unwrap();
    assert_eq!(t.len(), 4);
    assert!(t.iter().all(|x| x.bytes[31] <= 3));
    assert_eq!(
        hash::Hash::digest_truncated(Domain::Merkle2, &p, &[s(1)]),
        Err(Error::IOPatternViolation)
    );
}
