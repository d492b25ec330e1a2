use blob_delivery::{
    assemble_witness, blind_key, blob_placement, check_inclusion, data_root_matches, delivery_journal, encrypt,
    envelope_journal, generate_blob, image_journal, inclusion_journal, namespace_v0, split_blob_to_shares,
    verify_inclusion, DeliveryError, FailurePolicy, InclusionError, RangeProof, RowProof, WitnessError,
    DELIVERY_NONCE,
};
use k256::elliptic_curve::group::GroupEncoding;
use k256::elliptic_curve::PrimeField;
use nmt_rs::simple_merkle::db::MemDb;
use nmt_rs::simple_merkle::tree::MerkleTree;
use nmt_rs::{CelestiaNmt, NamespaceId, NamespaceMerkleHasher, NamespacedSha2Hasher, TmSha2Hasher};
use sha2::Digest;

const ODS: usize = 4;

fn scalar_bytes(v: u64) -> [u8; 32] {
    k256::Scalar::from(v).to_bytes().into()
}

fn public_key(d: u64) -> [u8; 33] {
    let p = (k256::ProjectivePoint::GENERATOR * k256::Scalar::from(d)).to_affine();
    let mut out = [0u8; 33];
    out.copy_from_slice(&p.to_bytes());
    out
}

fn point(bytes: &[u8; 33]) -> k256::ProjectivePoint {
    let enc = k256::CompressedPoint::clone_from_slice(bytes);
    k256::ProjectivePoint::from(Option::<k256::AffinePoint>::from(k256::AffinePoint::from_bytes(&enc)).unwrap())
}

fn hash_bytes(h: &nmt_rs::NamespacedHash<29>) -> [u8; 90] {
    let v: Vec<u8> = h.iter().collect();
    v.try_into().unwrap()
}

struct Square {
    row_roots: Vec<[u8; 90]>,
    column_roots: Vec<[u8; 90]>,
    row_proofs: Vec<RowProof>,
    data_root: [u8; 32],
}

/// An extended square of side 2·ODS whose original part starts with the
/// given shares; the rest is padding under the maximum namespace.
fn build_square(shares: &[[u8; 512]], ns: [u8; 29]) -> Square {
    let side = 2 * ODS;
    let cell = |r: usize, c: usize| -> ([u8; 512], [u8; 29]) {
        let idx = r * ODS + c;
        if r < ODS && c < ODS && idx < shares.len() {
            (shares[idx], ns)
        } else {
            ([0u8; 512], [0xff; 29])
        }
    };
    let new_tree = || CelestiaNmt::with_hasher(NamespacedSha2Hasher::with_ignore_max_ns(true));
    let mut row_roots = Vec::new();
    let mut row_proofs = Vec::new();
    for r in 0..side {
        let mut tree = new_tree();
        for c in 0..side {
            let (data, leaf_ns) = cell(r, c);
            tree.push_leaf(&data, NamespaceId(leaf_ns)).unwrap();
        }
        row_roots.push(hash_bytes(&tree.root()));
        let begin = r * ODS;
        if r < ODS && begin < shares.len() {
            let end = (shares.len() - begin).min(ODS);
            let (_, proof) = tree.get_range_with_proof(0..end);
            row_proofs.push(RowProof {
                siblings: proof.siblings().iter().map(hash_bytes).collect(),
                start: proof.start_idx(),
                end: proof.end_idx(),
                ignore_max_ns: true,
                is_presence: true,
            });
        }
    }
    let mut column_roots = Vec::new();
    for c in 0..side {
        let mut tree = new_tree();
        for r in 0..side {
            let (data, leaf_ns) = cell(r, c);
            tree.push_leaf(&data, NamespaceId(leaf_ns)).unwrap();
        }
        column_roots.push(hash_bytes(&tree.root()));
    }
    let mut tree: MerkleTree<MemDb<[u8; 32]>, TmSha2Hasher> = MerkleTree::with_hasher(TmSha2Hasher::new());
    for root in row_roots.iter().chain(column_roots.iter()) {
        tree.push_raw_leaf(root);
    }
    let data_root = tree.root();
    Square { row_roots, column_roots, row_proofs, data_root }
}

fn image(len: usize) -> Vec<u8> {
    (0..len).map(|i| (i * 13 + 5) as u8).collect()
}

struct Delivery {
    h: [u8; 33],
    y: [u8; 32],
    image: Vec<u8>,
    ns: [u8; 29],
    shares: Vec<[u8; 512]>,
    square: Square,
}

fn delivery(image_len: usize) -> Delivery {
    let h = public_key(11);
    let y = scalar_bytes(123456789);
    let image = image(image_len);
    let ns = namespace_v0(&[1, 2, 3, 4, 5]).unwrap();
    let blob = generate_blob(&image, &y, &h).unwrap();
    let shares = split_blob_to_shares(&ns, &blob);
    let square = build_square(&shares, ns);
    Delivery { h, y, image, ns, shares, square }
}

fn row_range_proof(d: &Delivery, first: usize, last: usize) -> RangeProof {
    let w = assemble_witness(
        &d.square.row_roots,
        &d.square.column_roots,
        &d.square.data_root,
        first * ODS,
        d.shares.len(),
        d.square.row_proofs.clone_proofs(),
    )
    .unwrap();
    assert_eq!((w.range_proof.start as usize, w.range_proof.end as usize), (first, last));
    w.range_proof
}

trait CloneProofs {
    fn clone_proofs(&self) -> Vec<RowProof>;
}

impl CloneProofs for Vec<RowProof> {
    fn clone_proofs(&self) -> Vec<RowProof> {
        self.iter()
            .map(|p| RowProof {
                siblings: p.siblings.clone(),
                start: p.start,
                end: p.end,
                ignore_max_ns: p.ignore_max_ns,
                is_presence: p.is_presence,
            })
            .collect()
    }
}

fn blob_rows(d: &Delivery) -> Vec<[u8; 90]> {
    d.square.row_roots[..d.square.row_proofs.len()].to_vec()
}

#[test]
fn encryption_round_trip_keeps_length() {
    for len in [0usize, 1, 63, 64, 65, 1000, 4097] {
        for key_seed in [1u64, 2, 99] {
            let key = scalar_bytes(key_seed);
            let m = image(len);
            let c = encrypt(&m, &key, &DELIVERY_NONCE);
            assert_eq!(c.len(), m.len());
            if len >= 16 {
                assert_ne!(c, m);
            }
            assert_eq!(encrypt(&c, &key, &DELIVERY_NONCE), m);
        }
    }
}

#[test]
fn key_blinding_shares_point_with_recipient() {
    let d = k256::Scalar::from(31337u64);
    let h = public_key(31337);
    for i in 0..50u64 {
        let y_bytes = scalar_bytes(1_000_003 * i + 17);
        let (c1, c2) = blind_key(&h, &y_bytes).unwrap();
        let y = Option::<k256::Scalar>::from(k256::Scalar::from_repr(y_bytes.into())).unwrap();
        assert_eq!(point(&c1), k256::ProjectivePoint::GENERATOR * y);
        assert_eq!(point(&c2), point(&c1) * d);
        assert_eq!(point(&c2) - point(&c1) * d, k256::ProjectivePoint::IDENTITY);
    }
}

#[test]
fn blinding_rejects_bad_inputs() {
    let h = public_key(5);
    assert_eq!(blind_key(&h, &[0xff; 32]), Err(DeliveryError::InvalidScalar));
    assert_eq!(blind_key(&[0u8; 33], &scalar_bytes(3)), Err(DeliveryError::InvalidPublicKey));
    assert_eq!(generate_blob(&[1, 2, 3], &[0u8; 31], &h), Err(DeliveryError::InvalidScalar));
    assert_eq!(generate_blob(&[1, 2, 3], &scalar_bytes(3), &h[..32]), Err(DeliveryError::InvalidPublicKey));
    assert_eq!(generate_blob(&[1, 2, 3], &scalar_bytes(3), &[5u8; 33]), Err(DeliveryError::InvalidPublicKey));
}

#[test]
fn blob_is_blinded_key_then_ciphertext() {
    let h = public_key(7);
    let y = scalar_bytes(42);
    let img = image(300);
    let blob = generate_blob(&img, &y, &h).unwrap();
    assert_eq!(blob.len(), 66 + 300);
    let (c1, c2) = blind_key(&h, &y).unwrap();
    assert_eq!(&blob[..33], &c1[..]);
    assert_eq!(&blob[33..66], &c2[..]);
    assert_eq!(&blob[66..], &encrypt(&img, &y, &DELIVERY_NONCE)[..]);
    assert_eq!(encrypt(&blob[66..], &y, &DELIVERY_NONCE), img);
}

#[test]
fn journals_of_image_and_envelope() {
    let img = image(500);
    let digest = sha2::Sha256::digest(&img).to_vec();
    assert_eq!(image_journal(&img), digest);
    assert_eq!(image_journal(&[]), sha2::Sha256::digest(b"").to_vec());
    let h = public_key(9);
    let y = scalar_bytes(77);
    let (journal, blob) = envelope_journal(&h, &y, &img).unwrap();
    assert_eq!(journal.len(), 97);
    assert_eq!(&journal[..32], &digest[..]);
    assert_eq!(&journal[32..64], &sha2::Sha256::digest(&blob)[..]);
    assert_eq!(&journal[64..], &h[..]);
    assert_eq!(blob, generate_blob(&img, &y, &h).unwrap());
    assert_eq!(envelope_journal(&h, &[0xff; 32], &img), Err(DeliveryError::InvalidScalar));
}

#[test]
fn end_to_end_delivery() {
    let d = delivery(2000);
    assert_eq!(d.shares.len(), 5);
    assert_eq!(blob_placement(2 * ODS, 0, d.shares.len()), Some((0, 2)));
    assert!(data_root_matches(&d.square.row_roots, &d.square.column_roots, &d.square.data_root));
    let w = assemble_witness(
        &d.square.row_roots,
        &d.square.column_roots,
        &d.square.data_root,
        0,
        d.shares.len(),
        d.square.row_proofs.clone_proofs(),
    )
    .unwrap();
    assert_eq!(w.row_proofs.len(), 2);
    assert_eq!(w.row_roots.len(), 2);
    assert_eq!((w.range_proof.start, w.range_proof.end), (0, 2));
    assert_eq!(w.data_root, d.square.data_root);
    let journal = delivery_journal(
        &w.data_root, &w.range_proof, &w.row_roots, &w.row_proofs, &d.h, &d.y, &d.image, &d.ns,
    )
    .unwrap();
    assert_eq!(journal.len(), 97);
    assert_eq!(&journal[..32], &sha2::Sha256::digest(&d.image)[..]);
    assert_eq!(&journal[32..64], &d.square.data_root[..]);
    assert_eq!(&journal[64..], &d.h[..]);
}

#[test]
fn delivery_rejects_other_image() {
    let d = delivery(2000);
    let rp = row_range_proof(&d, 0, 2);
    let mut other = d.image.clone();
    other[1500] ^= 1;
    let r = delivery_journal(
        &d.square.data_root, &rp, &blob_rows(&d), &d.square.row_proofs, &d.h, &d.y, &other, &d.ns,
    );
    assert_eq!(r, Err(DeliveryError::Inclusion(InclusionError::RowProofFailed)));
}

#[test]
fn inclusion_accepts_honest_and_rejects_flips() {
    let d = delivery(2000);
    let rp = row_range_proof(&d, 0, 2);
    let rows = blob_rows(&d);
    let proofs = &d.square.row_proofs;
    assert_eq!(verify_inclusion(&d.square.data_root, &rp, &rows, proofs, &d.shares, &d.ns), Ok(()));
    assert_eq!(inclusion_journal(&d.square.data_root, &rp, &rows, proofs, &d.shares, &d.ns), vec![1]);

    for i in [0usize, 17, 31] {
        let mut root = d.square.data_root;
        root[i] ^= 0x40;
        assert_eq!(
            verify_inclusion(&root, &rp, &rows, proofs, &d.shares, &d.ns),
            Err(InclusionError::RangeProofFailed)
        );
        assert_eq!(inclusion_journal(&root, &rp, &rows, proofs, &d.shares, &d.ns), vec![0]);
    }
    for (s, i) in [(0usize, 0usize), (0, 33), (2, 300), (4, 511)] {
        let mut shares = d.shares.clone();
        shares[s][i] ^= 1;
        assert_eq!(
            verify_inclusion(&d.square.data_root, &rp, &rows, proofs, &shares, &d.ns),
            Err(InclusionError::RowProofFailed)
        );
    }
    for (r, i) in [(0usize, 0usize), (0, 89), (1, 45)] {
        let mut bad_rows = rows.clone();
        bad_rows[r][i] ^= 1;
        assert!(verify_inclusion(&d.square.data_root, &rp, &bad_rows, proofs, &d.shares, &d.ns).is_err());
    }
    let mut bad_rp = RangeProof { siblings: rp.siblings.clone(), start: rp.start, end: rp.end };
    bad_rp.siblings[0][5] ^= 1;
    assert_eq!(
        verify_inclusion(&d.square.data_root, &bad_rp, &rows, proofs, &d.shares, &d.ns),
        Err(InclusionError::RangeProofFailed)
    );
    let mut other_ns = d.ns;
    other_ns[28] ^= 1;
    assert_eq!(
        verify_inclusion(&d.square.data_root, &rp, &rows, proofs, &d.shares, &other_ns),
        Err(InclusionError::RowProofFailed)
    );
}

#[test]
fn inclusion_structural_errors() {
    let d = delivery(2000);
    let rp = row_range_proof(&d, 0, 2);
    let rows = blob_rows(&d);
    let proofs = &d.square.row_proofs;
    assert_eq!(
        verify_inclusion(&d.square.data_root, &rp, &rows[..1].to_vec(), proofs, &d.shares, &d.ns),
        Err(InclusionError::RowCountMismatch)
    );
    let mut more = d.shares.clone();
    more.push([0u8; 512]);
    assert_eq!(
        verify_inclusion(&d.square.data_root, &rp, &rows, proofs, &more, &d.ns),
        Err(InclusionError::ShareRangeMismatch)
    );
    let mut inverted = proofs.clone_proofs();
    inverted[1] = RowProof { siblings: inverted[1].siblings.clone(), start: 3, end: 2, ignore_max_ns: true, is_presence: true };
    assert_eq!(
        verify_inclusion(&d.square.data_root, &rp, &rows, &inverted, &d.shares, &d.ns),
        Err(InclusionError::ShareRangeMismatch)
    );
    let mut absent = proofs.clone_proofs();
    absent[0].is_presence = false;
    assert_eq!(
        verify_inclusion(&d.square.data_root, &rp, &rows, &absent, &d.shares, &d.ns),
        Err(InclusionError::RowProofFailed)
    );
    assert_eq!(
        check_inclusion(FailurePolicy::Soft, &d.square.data_root, &rp, &rows, &absent, &d.shares, &d.ns),
        Ok(false)
    );
    assert_eq!(
        check_inclusion(FailurePolicy::Abort, &d.square.data_root, &rp, &rows, &absent, &d.shares, &d.ns),
        Err(InclusionError::RowProofFailed)
    );
    assert_eq!(
        check_inclusion(FailurePolicy::Abort, &d.square.data_root, &rp, &rows, proofs, &d.shares, &d.ns),
        Ok(true)
    );
}

#[test]
fn witness_errors() {
    let d = delivery(2000);
    let mut wrong_root = d.square.data_root;
    wrong_root[0] ^= 1;
    assert!(!data_root_matches(&d.square.row_roots, &d.square.column_roots, &wrong_root));
    let r = assemble_witness(&d.square.row_roots, &d.square.column_roots, &wrong_root, 0, 5, d.square.row_proofs.clone_proofs());
    assert!(matches!(r, Err(WitnessError::DataRootMismatch)));
    let r = assemble_witness(&d.square.row_roots, &d.square.column_roots, &d.square.data_root, 30, 5, d.square.row_proofs.clone_proofs());
    assert!(matches!(r, Err(WitnessError::RowsOutOfRange)));
    let r = assemble_witness(&d.square.row_roots, &d.square.column_roots, &d.square.data_root, 0, 5, Vec::new());
    assert!(matches!(r, Err(WitnessError::RowsOutOfRange)));
    let r = assemble_witness(&d.square.row_roots[..7].to_vec(), &d.square.column_roots, &d.square.data_root, 0, 5, Vec::new());
    assert!(matches!(r, Err(WitnessError::DataRootMismatch)));
}

#[test]
fn thumbnail_journal_digests() {
    let img = image(1234);
    let png = image(99);
    let journal = blob_delivery::thumbnail_journal(&img, &png);
    assert_eq!(journal.len(), 64);
    assert_eq!(&journal[..32], &sha2::Sha256::digest(&img)[..]);
    assert_eq!(&journal[32..], &sha2::Sha256::digest(&png)[..]);
}
