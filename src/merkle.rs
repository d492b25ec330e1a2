use vstd::prelude::*;

verus! {

/// Size of a namespaced hash: minimum namespace, maximum namespace, digest.
pub const NAMESPACED_HASH_SIZE: usize = 90;

/// The byte views of a list of fixed-size byte arrays.
pub open spec fn arrays_view<const N: usize>(s: Seq<[u8; N]>) -> Seq<Seq<u8>> {
    s.map_values(|a: [u8; N]| a@)
}

/// Number of leaves a proof over `[start, end)` covers (zero for an inverted range).
pub open spec fn range_len(start: u32, end: u32) -> nat {
    if start <= end { (end - start) as nat } else { 0 }
}

/// A proof that a run of shares, all in one namespace, sits under a row root.
pub struct RowProof {
    /// Sibling nodes on the path to the row root, 90 bytes each.
    pub siblings: Vec<[u8; 90]>,
    /// First leaf index covered.
    pub start: u32,
    /// Index after the last leaf covered.
    pub end: u32,
    /// Whether the maximum namespace is ignored when computing namespace ranges.
    pub ignore_max_ns: bool,
    /// A presence proof; otherwise a proof of absence, which proves no share.
    pub is_presence: bool,
}

/// A proof that a run of plain-hashed leaves sits at `[start, end)` under a root.
pub struct RangeProof {
    /// Sibling nodes on the path to the root, 32 bytes each.
    pub siblings: Vec<[u8; 32]>,
    /// First leaf index covered.
    pub start: u32,
    /// Index after the last leaf covered.
    pub end: u32,
}

/// Whether raw leaves, hashed under a namespace, are the range `[start, end)`
/// of a namespaced Merkle tree with the given root, by a presence proof with
/// these siblings.
pub uninterp spec fn nmt_range_verifies(
    root: Seq<u8>,
    siblings: Seq<Seq<u8>>,
    start: u32,
    end: u32,
    ignore_max_ns: bool,
    leaves: Seq<Seq<u8>>,
    namespace: Seq<u8>,
) -> bool;

/// Whether leaf hashes are the range `[start, end)` of a binary Merkle tree
/// with the given root, by a proof with these siblings.
pub uninterp spec fn merkle_range_verifies(
    root: Seq<u8>,
    siblings: Seq<Seq<u8>>,
    start: u32,
    end: u32,
    leaves: Seq<Seq<u8>>,
) -> bool;

/// The domain-separated leaf hash of the plain Merkle tree.
pub uninterp spec fn tm_leaf_hash(data: Seq<u8>) -> Seq<u8>;

/// The root of the plain Merkle tree over the given raw leaves.
pub uninterp spec fn merkle_root_of(leaves: Seq<Seq<u8>>) -> Seq<u8>;

/// The siblings of the range proof for `[start, end)` in the plain Merkle
/// tree over the given raw leaves.
pub uninterp spec fn merkle_range_siblings(leaves: Seq<Seq<u8>>, start: nat, end: nat) -> Seq<Seq<u8>>;

/// Whether a row proof verifies raw shares under a row root and namespace.
pub open spec fn row_proof_verifies(p: RowProof, root: Seq<u8>, leaves: Seq<Seq<u8>>, namespace: Seq<u8>) -> bool {
    p.is_presence && nmt_range_verifies(
        root,
        arrays_view(p.siblings@),
        p.start,
        p.end,
        p.ignore_max_ns,
        leaves,
        namespace,
    )
}

/// Relies on celestia_types::nmt::NamespaceProof::verify_range, which checks
/// that the proof's nodes are ordered by namespace and then calls
/// nmt_rs::NamespaceProof::verify_range: absence proofs never verify, nor
/// does a leaf count other than the proof's range length.
#[verifier::external_body]
pub(crate) fn verify_row_proof(proof: &RowProof, root: &[u8; 90], leaves: &[[u8; 512]], namespace: &[u8; 29]) -> (r: bool)
    ensures
        r == (proof.is_presence && nmt_range_verifies(
            root@,
            arrays_view(proof.siblings@),
            proof.start,
            proof.end,
            proof.ignore_max_ns,
            arrays_view(leaves@),
            namespace@,
        )),
        r ==> leaves@.len() == range_len(proof.start, proof.end),
{
    let hash = |b: &[u8; 90]| nmt_rs::NamespacedHash::<29>::try_from(&b[..]).unwrap();
    let inner = nmt_rs::simple_merkle::proof::Proof {
        siblings: proof.siblings.iter().map(hash).collect(),
        range: proof.start..proof.end,
    };
    let p: celestia_types::nmt::NamespaceProof = match proof.is_presence {
        true => nmt_rs::NamespaceProof::PresenceProof { proof: inner, ignore_max_ns: proof.ignore_max_ns }.into(),
        false => nmt_rs::NamespaceProof::AbsenceProof { proof: inner, ignore_max_ns: proof.ignore_max_ns, leaf: None }.into(),
    };
    p.verify_range(&hash(root), leaves, nmt_rs::NamespaceId(*namespace)).is_ok()
}

/// Relies on nmt_rs::simple_merkle::proof::Proof::verify_range with the
/// Tendermint SHA-256 hasher: a leaf count other than the proof's range
/// length never verifies.
#[verifier::external_body]
pub(crate) fn verify_range_proof(proof: &RangeProof, root: &[u8; 32], leaf_hashes: &[[u8; 32]]) -> (r: bool)
    ensures
        r == merkle_range_verifies(root@, arrays_view(proof.siblings@), proof.start, proof.end, arrays_view(leaf_hashes@)),
        r ==> leaf_hashes@.len() == range_len(proof.start, proof.end),
{
    let p = nmt_rs::simple_merkle::proof::Proof::<nmt_rs::TmSha2Hasher> {
        siblings: proof.siblings.clone(),
        range: proof.start..proof.end,
    };
    p.verify_range(root, leaf_hashes).is_ok()
}

/// Relies on nmt_rs::TmSha2Hasher::hash_leaf: the leaf hash of a row root.
#[verifier::external_body]
pub(crate) fn hash_row_root(root: &[u8; 90]) -> (r: [u8; 32])
    ensures
        r@ == tm_leaf_hash(root@),
{
    nmt_rs::simple_merkle::tree::MerkleHash::hash_leaf(&nmt_rs::TmSha2Hasher::new(), &root[..])
}

/// Relies on nmt_rs::simple_merkle::tree::MerkleTree (push_raw_leaf, root)
/// with the Tendermint SHA-256 hasher: the root over the raw leaves in order.
#[verifier::external_body]
pub(crate) fn merkle_root(leaves: &[[u8; 90]]) -> (r: [u8; 32])
    ensures
        r@ == merkle_root_of(arrays_view(leaves@)),
{
    let mut tree = nmt_rs::simple_merkle::tree::MerkleTree::<
        nmt_rs::simple_merkle::db::MemDb<[u8; 32]>,
        nmt_rs::TmSha2Hasher,
    >::new();
    for leaf in leaves {
        tree.push_raw_leaf(&leaf[..]);
    }
    tree.root()
}

/// Relies on nmt_rs::simple_merkle::tree::MerkleTree::build_range_proof with
/// the Tendermint SHA-256 hasher over the raw leaves in order; it panics past
/// the last leaf, so the range lies inside the leaves.
#[verifier::external_body]
pub(crate) fn build_range_proof(leaves: &[[u8; 90]], start: u32, end: u32) -> (r: RangeProof)
    requires
        start < end <= leaves@.len(),
    ensures
        r.start == start,
        r.end == end,
        arrays_view(r.siblings@) == merkle_range_siblings(arrays_view(leaves@), start as nat, end as nat),
{
    let mut tree = nmt_rs::simple_merkle::tree::MerkleTree::<
        nmt_rs::simple_merkle::db::MemDb<[u8; 32]>,
        nmt_rs::TmSha2Hasher,
    >::new();
    for leaf in leaves {
        tree.push_raw_leaf(&leaf[..]);
    }
    let p = tree.build_range_proof(start as usize..end as usize);
    RangeProof { siblings: p.siblings, start: p.range.start, end: p.range.end }
}

} // verus!
