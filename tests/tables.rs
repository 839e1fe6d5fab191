use zk_hashes::bls::{fr_from_u64, fr_sub};
use zk_hashes::griffin::block_circulant;
use zk_hashes::tables::{fr_from_raw, scalar_from_buffer, scalars_from_buffer, u64_from_buffer};

#[test]
fn u64_is_read_little_endian() {
    let buf = [0u8, 1, 2, 3, 4, 5, 6, 7, 8, 9];
    assert_eq!(u64_from_buffer(&buf, 0), 0x0706_0504_0302_0100);
    assert_eq!(u64_from_buffer(&buf, 2), 0x0908_0706_0504_0302);
}

#[test]
fn entries_reduce_into_the_field() {
    let mut buf = vec![0u8; 64];
    buf[0] = 7;
    assert_eq!(scalar_from_buffer(&buf, 0), fr_from_u64(7));
    for b in buf[32..].iter_mut() {
        *b = 0xff;
    }
    // 2^256 - 1 reduced modulo q.
    let top = scalar_from_buffer(&buf, 32);
    assert_eq!(top, fr_from_raw([u64::MAX; 4]));
    assert_ne!(top.bytes, [0xff; 32]);
    let m = fr_sub(&fr_from_u64(0), &fr_from_u64(1));
    assert_eq!(fr_from_raw([0xffff_ffff_0000_0000, 0x53bd_a402_fffe_5bfe, 0x3339_d808_09a1_d805, 0x73ed_a753_299d_7d48]), m);
}

#[test]
fn tables_need_enough_bytes() {
    let buf = vec![1u8; 100];
    assert!(scalars_from_buffer(&buf, 0, 3).is_some());
    assert!(scalars_from_buffer(&buf, 0, 4).is_none());
    assert!(scalars_from_buffer(&buf, 4, 3).is_some());
    assert!(scalars_from_buffer(&buf, 5, 3).is_none());
    assert!(scalars_from_buffer(&buf, 5, 4).is_none());
    assert_eq!(scalars_from_buffer(&buf, 0, 0), Some(vec![]));
}

#[test]
fn block_circulant_layout() {
    let m = block_circulant([1, 2, 3, 4, 5, 6, 7, 8]);
    let v = |x: u64| fr_from_u64(x);
    assert_eq!(m[0][..4], [v(1), v(2), v(3), v(4)]);
    assert_eq!(m[1][..4], [v(4), v(1), v(2), v(3)]);
    assert_eq!(m[0][4..], [v(5), v(6), v(7), v(8)]);
    assert_eq!(m[5][..4], [v(8), v(5), v(6), v(7)]);
    assert_eq!(m[6][4..], [v(3), v(4), v(1), v(2)]);
}
