use vstd::prelude::*;
use crate::merkle::{
    arrays_view, hash_row_root, merkle_range_verifies, nmt_range_verifies, tm_leaf_hash,
    verify_range_proof, verify_row_proof, RangeProof, RowProof,
};

verus! {

/// Why a two-stage inclusion check failed.
#[derive(Clone, Copy, Debug, PartialEq, Eq, Structural)]
pub enum InclusionError {
    /// The number of row roots differs from the number of row proofs.
    RowCountMismatch,
    /// A row proof's range is inverted, or the ranges do not cover exactly the shares.
    ShareRangeMismatch,
    /// A share-to-row proof does not verify.
    RowProofFailed,
    /// The row-to-data-root proof does not verify.
    RangeProofFailed,
}

/// Number of shares the proofs before row `i` cover.
pub open spec fn row_offset(proofs: Seq<RowProof>, i: int) -> int
    decreases i,
{
    if i <= 0 || i > proofs.len() {
        0
    } else {
        row_offset(proofs, i - 1) + proofs[i - 1].end - proofs[i - 1].start
    }
}

/// Every proof's range is ordered, and together they cover exactly `n` shares.
pub open spec fn ranges_well_formed(proofs: Seq<RowProof>, n: nat) -> bool {
    &&& forall|j: int| 0 <= j < proofs.len() ==> #[trigger] proofs[j].start <= proofs[j].end
    &&& row_offset(proofs, proofs.len() as int) == n
}

/// Row `j`'s proof verifies the shares of its slice under row root `j`.
pub open spec fn row_verifies(
    proofs: Seq<RowProof>,
    roots: Seq<Seq<u8>>,
    shares: Seq<Seq<u8>>,
    namespace: Seq<u8>,
    j: int,
) -> bool {
    let p = proofs[j];
    p.is_presence && nmt_range_verifies(
        roots[j],
        arrays_view(p.siblings@),
        p.start,
        p.end,
        p.ignore_max_ns,
        shares.subrange(row_offset(proofs, j), row_offset(proofs, j + 1)),
        namespace,
    )
}

/// The plain leaf hashes of the row roots.
pub open spec fn row_leaf_hashes(roots: Seq<Seq<u8>>) -> Seq<Seq<u8>> {
    roots.map_values(|r: Seq<u8>| tm_leaf_hash(r))
}

/// The outcome of the two-stage check: structure first, then every row
/// proof in order, then the range proof of the hashed row roots under the
/// data root.
pub open spec fn inclusion_result(
    data_root: Seq<u8>,
    range_proof: RangeProof,
    roots: Seq<Seq<u8>>,
    proofs: Seq<RowProof>,
    shares: Seq<Seq<u8>>,
    namespace: Seq<u8>,
) -> Result<(), InclusionError> {
    if roots.len() != proofs.len() {
        Err(InclusionError::RowCountMismatch)
    } else if !ranges_well_formed(proofs, shares.len()) {
        Err(InclusionError::ShareRangeMismatch)
    } else if !(forall|j: int| 0 <= j < proofs.len() ==> #[trigger] row_verifies(proofs, roots, shares, namespace, j)) {
        Err(InclusionError::RowProofFailed)
    } else if !merkle_range_verifies(
        data_root,
        arrays_view(range_proof.siblings@),
        range_proof.start,
        range_proof.end,
        row_leaf_hashes(roots),
    ) {
        Err(InclusionError::RangeProofFailed)
    } else {
        Ok(())
    }
}

proof fn lemma_offset_monotone(proofs: Seq<RowProof>, a: int, b: int)
    requires
        0 <= a <= b <= proofs.len(),
        forall|j: int| a <= j < b ==> #[trigger] proofs[j].start <= proofs[j].end,
    ensures
        row_offset(proofs, a) <= row_offset(proofs, b),
    decreases b - a,
{
    if a < b {
        lemma_offset_monotone(proofs, a, b - 1);
    }
}

/// On every successful check, the share ranges of the rows are contiguous,
/// do not overlap, start at the first share and together cover exactly the
/// blob's shares.
pub proof fn lemma_row_ranges_cover(
    data_root: Seq<u8>,
    range_proof: RangeProof,
    roots: Seq<Seq<u8>>,
    proofs: Seq<RowProof>,
    shares: Seq<Seq<u8>>,
    namespace: Seq<u8>,
)
    requires
        inclusion_result(data_root, range_proof, roots, proofs, shares, namespace) is Ok,
    ensures
        row_offset(proofs, 0) == 0,
        row_offset(proofs, proofs.len() as int) == shares.len(),
        forall|j: int| 0 <= j < proofs.len() ==>
            #[trigger] row_offset(proofs, j + 1) == row_offset(proofs, j) + (proofs[j].end - proofs[j].start),
        forall|j: int, k: int| 0 <= j <= k <= proofs.len() ==>
            #[trigger] row_offset(proofs, j) <= #[trigger] row_offset(proofs, k),
        forall|j: int| 0 <= j <= proofs.len() ==> 0 <= #[trigger] row_offset(proofs, j) <= shares.len(),
{
    assert forall|j: int, k: int| 0 <= j <= k <= proofs.len() implies
        #[trigger] row_offset(proofs, j) <= #[trigger] row_offset(proofs, k) by {
        lemma_offset_monotone(proofs, j, k);
    }
    assert forall|j: int| 0 <= j <= proofs.len() implies 0 <= #[trigger] row_offset(proofs, j) <= shares.len() by {
        lemma_offset_monotone(proofs, 0, j);
        lemma_offset_monotone(proofs, j, proofs.len() as int);
    }
}

/// Checks that the shares sit in the data square under `data_root`: each
/// row proof covers the next run of shares under its row root, and the range
/// proof places the hashed row roots under the data root.
pub fn verify_inclusion(
    data_root: &[u8; 32],
    range_proof: &RangeProof,
    row_roots: &Vec<[u8; 90]>,
    proofs: &Vec<RowProof>,
    shares: &Vec<[u8; 512]>,
    namespace: &[u8; 29],
) -> (r: Result<(), InclusionError>)
    ensures
        r == inclusion_result(
            data_root@,
            *range_proof,
            arrays_view(row_roots@),
            proofs@,
            arrays_view(shares@),
            namespace@,
        ),
{
    let ghost roots = arrays_view(row_roots@);
    let ghost sh = arrays_view(shares@);
    if row_roots.len() != proofs.len() {
        return Err(InclusionError::RowCountMismatch);
    }
    let n: usize = proofs.len();
    let total: usize = shares.len();
    // Stage 0: the ranges are ordered and cover the shares exactly.
    let mut cursor: usize = 0;
    let mut j: usize = 0;
    while j < n
        invariant
            n == proofs@.len(),
            total == shares@.len(),
            0 <= j <= n,
            cursor == row_offset(proofs@, j as int),
            cursor <= total,
            sh == arrays_view(shares@),
            sh.len() == total,
            row_roots@.len() == n,
            forall|k: int| 0 <= k < j ==> #[trigger] proofs@[k].start <= proofs@[k].end,
        decreases n - j,
    {
        let p = &proofs[j];
        if p.start > p.end {
            assert(!(proofs@[j as int].start <= proofs@[j as int].end));
            assert(!ranges_well_formed(proofs@, sh.len()));
            return Err(InclusionError::ShareRangeMismatch);
        }
        let span: usize = (p.end - p.start) as usize;
        if span > total - cursor {
            proof {
                assert(row_offset(proofs@, j + 1) == cursor + span);
                if forall|k: int| 0 <= k < n ==> #[trigger] proofs@[k].start <= proofs@[k].end {
                    lemma_offset_monotone(proofs@, j + 1, n as int);
                }
                assert(!ranges_well_formed(proofs@, sh.len()));
            }
            return Err(InclusionError::ShareRangeMismatch);
        }
        cursor = cursor + span;
        j = j + 1;
    }
    if cursor != total {
        assert(!ranges_well_formed(proofs@, sh.len()));
        return Err(InclusionError::ShareRangeMismatch);
    }
    // Stage 1: each run of shares sits under its row root.
    let mut start: usize = 0;
    let mut i: usize = 0;
    while i < n
        invariant
            n == proofs@.len(),
            n == row_roots@.len(),
            total == shares@.len(),
            ranges_well_formed(proofs@, total as nat),
            0 <= i <= n,
            start == row_offset(proofs@, i as int),
            roots == arrays_view(row_roots@),
            sh == arrays_view(shares@),
            forall|k: int| 0 <= k < i ==> #[trigger] row_verifies(proofs@, roots, sh, namespace@, k),
        decreases n - i,
    {
        proof {
            lemma_offset_monotone(proofs@, i + 1, n as int);
        }
        let p = &proofs[i];
        let end: usize = start + (p.end - p.start) as usize;
        let run = vstd::slice::slice_subrange(shares.as_slice(), start, end);
        assert(arrays_view(run@) =~= sh.subrange(start as int, end as int));
        if !verify_row_proof(p, &row_roots[i], run, namespace) {
            assert(!row_verifies(proofs@, roots, sh, namespace@, i as int));
            return Err(InclusionError::RowProofFailed);
        }
        start = end;
        i = i + 1;
    }
    // Stage 2: the hashed row roots sit under the data root.
    let mut leaves: Vec<[u8; 32]> = Vec::new();
    let mut k: usize = 0;
    while k < n
        invariant
            n == row_roots@.len(),
            0 <= k <= n,
            leaves@.len() == k,
            roots == arrays_view(row_roots@),
            forall|m: int| 0 <= m < k ==> #[trigger] leaves@[m]@ == tm_leaf_hash(roots[m]),
        decreases n - k,
    {
        leaves.push(hash_row_root(&row_roots[k]));
        k = k + 1;
    }
    assert(arrays_view(leaves@) =~= row_leaf_hashes(roots));
    if !verify_range_proof(range_proof, data_root, leaves.as_slice()) {
        return Err(InclusionError::RangeProofFailed);
    }
    Ok(())
}

} // verus!
