use blob_delivery::share::{info_byte, SHARE_SIZE};
use blob_delivery::{
    blob_placement, build_sparse_share_v0, centered_square, convert_image_id, convert_image_id_be, cursor_inner_length,
    namespace_v0, split_blob_to_shares, ByteCursor,
};

fn test_namespace() -> [u8; 29] {
    namespace_v0(&[1, 2, 3, 4, 5]).unwrap()
}

fn reassemble(shares: &[[u8; 512]]) -> Vec<u8> {
    if shares.is_empty() {
        return Vec::new();
    }
    let len = u32::from_be_bytes([shares[0][30], shares[0][31], shares[0][32], shares[0][33]]) as usize;
    let mut out = Vec::new();
    out.extend_from_slice(&shares[0][34..]);
    for s in &shares[1..] {
        out.extend_from_slice(&s[30..]);
    }
    out.truncate(len);
    out
}

fn pattern(len: usize) -> Vec<u8> {
    (0..len).map(|i| (i * 7 + 3) as u8).collect()
}

#[test]
fn round_trip_at_edge_lengths() {
    let ns = test_namespace();
    for len in [0usize, 1, 507, 508, 10000] {
        let blob = pattern(len);
        let shares = split_blob_to_shares(&ns, &blob);
        assert_eq!(reassemble(&shares), blob, "length {}", len);
    }
}

#[test]
fn share_counts_follow_capacity() {
    let ns = test_namespace();
    let cases = [(0usize, 0usize), (1, 1), (478, 1), (479, 2), (960, 2), (961, 3), (10000, 21)];
    for (len, count) in cases {
        assert_eq!(split_blob_to_shares(&ns, &pattern(len)).len(), count, "length {}", len);
    }
}

#[test]
fn share_layout() {
    let ns = test_namespace();
    let blob = pattern(600);
    let shares = split_blob_to_shares(&ns, &blob);
    assert_eq!(shares.len(), 2);
    assert_eq!(shares[0].len(), SHARE_SIZE);
    assert_eq!(&shares[0][..29], &ns[..]);
    assert_eq!(shares[0][29], 1);
    assert_eq!(&shares[0][30..34], &[0, 0, 2, 88]);
    assert_eq!(&shares[0][34..], &blob[..478]);
    assert_eq!(&shares[1][..29], &ns[..]);
    assert_eq!(shares[1][29], 0);
    assert_eq!(&shares[1][30..152], &blob[478..]);
    assert!(shares[1][152..].iter().all(|b| *b == 0));
}

#[test]
fn sparse_share_advances_cursor() {
    let ns = test_namespace();
    let mut cursor = ByteCursor::new(pattern(1000));
    assert_eq!(cursor_inner_length(&cursor), 1000);
    let first = build_sparse_share_v0(&ns, &mut cursor);
    assert_eq!(cursor.position, 478);
    assert_eq!(first[29], 1);
    let second = build_sparse_share_v0(&ns, &mut cursor);
    assert_eq!(cursor.position, 960);
    assert_eq!(second[29], 0);
    assert_eq!(cursor.remaining(), 40);
    assert!(cursor.has_remaining());
    let third = build_sparse_share_v0(&ns, &mut cursor);
    assert_eq!(cursor.position, 1000);
    assert!(!cursor.has_remaining());
    assert_eq!(&third[30..70], &pattern(1000)[960..]);
    assert_eq!(cursor_inner_length(&cursor), 1000);
}

#[test]
fn namespace_v0_forms() {
    let ns = test_namespace();
    let mut expected = [0u8; 29];
    expected[24..].copy_from_slice(&[1, 2, 3, 4, 5]);
    assert_eq!(ns, expected);
    assert_eq!(namespace_v0(&[]), Some([0u8; 29]));
    let mut long = [0u8; 28];
    long[27] = 9;
    let mut expected_long = [0u8; 29];
    expected_long[28] = 9;
    assert_eq!(namespace_v0(&long), Some(expected_long));
    long[0] = 1;
    assert_eq!(namespace_v0(&long), None);
    assert_eq!(namespace_v0(&[1u8; 11]), None);
}

#[test]
fn info_byte_values() {
    assert_eq!(info_byte(0, true), Some(1));
    assert_eq!(info_byte(0, false), Some(0));
    assert_eq!(info_byte(3, true), Some(7));
    assert_eq!(info_byte(127, false), Some(254));
    assert_eq!(info_byte(128, true), None);
}

#[test]
fn image_id_little_and_big_endian() {
    let id = [0x04030201u32, 0x08070605, 0, 0xffffffff, 1, 2, 3, 0x0a0b0c0d];
    let le = convert_image_id(&id);
    assert_eq!(&le[..8], &[1, 2, 3, 4, 5, 6, 7, 8]);
    assert_eq!(&le[12..16], &[0xff; 4]);
    assert_eq!(&le[28..], &[0x0d, 0x0c, 0x0b, 0x0a]);
    let be = convert_image_id_be(&id);
    assert_eq!(&be[..8], &[4, 3, 2, 1, 8, 7, 6, 5]);
    assert_eq!(&be[16..20], &[0, 0, 0, 1]);
    assert_eq!(&be[28..], &[0x0a, 0x0b, 0x0c, 0x0d]);
}

#[test]
fn placement_of_blobs() {
    assert_eq!(blob_placement(8, 0, 5), Some((0, 2)));
    assert_eq!(blob_placement(8, 0, 4), Some((0, 1)));
    assert_eq!(blob_placement(8, 0, 0), Some((0, 0)));
    assert_eq!(blob_placement(0, 0, 5), None);
    assert_eq!(blob_placement(7, 0, 5), None);
}

#[test]
fn centered_square_crops() {
    assert_eq!(centered_square(100, 60), (20, 0, 60, 60));
    assert_eq!(centered_square(60, 100), (0, 20, 60, 60));
    assert_eq!(centered_square(61, 100), (0, 19, 61, 61));
    assert_eq!(centered_square(50, 50), (0, 0, 50, 50));
    assert_eq!(centered_square(0, 7), (0, 3, 0, 0));
}
