use vstd::prelude::*;
use crate::merkle::{
    arrays_view, build_range_proof, merkle_range_siblings, merkle_root, merkle_root_of, RangeProof, RowProof,
};

verus! {

/// Why the host could not assemble a verifier's input.
#[derive(Clone, Copy, Debug, PartialEq, Eq, Structural)]
pub enum WitnessError {
    /// The row and column roots do not reduce to the claimed data root.
    DataRootMismatch,
    /// The square's side is zero or odd, or the placement does not fit.
    InvalidPlacement,
    /// The blob's rows run past the square, or fewer row proofs than rows were given.
    RowsOutOfRange,
}

/// Rows `[first, last)` that a blob of `share_count` shares starting at
/// share `blob_index` spans, in a square whose extended side is `eds_size`.
pub open spec fn placement_spec(eds_size: nat, blob_index: nat, share_count: nat) -> Option<(nat, nat)> {
    if eds_size == 0 || eds_size % 2 != 0 {
        None
    } else {
        let ods = eds_size / 2;
        let first = blob_index / ods;
        let rows = share_count / ods + if share_count % ods == 0 { 0nat } else { 1nat };
        if first + rows > usize::MAX {
            None
        } else {
            Some((first, (first + rows) as nat))
        }
    }
}

/// A placement gives a blob just enough rows: its shares do not fit in one
/// row fewer, and they fit in the rows it spans.
pub proof fn lemma_placement_rows_fit(eds_size: nat, blob_index: nat, share_count: nat)
    requires
        placement_spec(eds_size, blob_index, share_count) is Some,
    ensures
        ({
            let (first, last) = placement_spec(eds_size, blob_index, share_count).unwrap();
            let ods = eds_size / 2;
            &&& first * ods <= blob_index < (first + 1) * ods
            &&& share_count <= (last - first) * ods
            &&& last > first ==> (last - first - 1) * ods < share_count
        }),
{
    let ods = eds_size / 2;
    let first = blob_index / ods;
    let q = share_count / ods;
    let rem = share_count % ods;
    vstd::arithmetic::div_mod::lemma_fundamental_div_mod(blob_index as int, ods as int);
    vstd::arithmetic::div_mod::lemma_fundamental_div_mod(share_count as int, ods as int);
    let rows = q + if rem == 0 { 0nat } else { 1nat };
    assert(first * ods <= blob_index < (first + 1) * ods) by (nonlinear_arith)
        requires
            ods > 0,
            blob_index == ods * first + blob_index % ods,
            0 <= blob_index % ods < ods;
    assert(share_count <= rows * ods) by (nonlinear_arith)
        requires
            ods > 0,
            share_count == ods * q + rem,
            0 <= rem < ods,
            rows == q + if rem == 0 { 0nat } else { 1nat };
    assert(rows > 0 ==> (rows - 1) * ods < share_count) by (nonlinear_arith)
        requires
            ods > 0,
            share_count == ods * q + rem,
            0 <= rem < ods,
            rows == q + if rem == 0 { 0nat } else { 1nat };
}

/// Computes the rows a blob spans: the first is the row of its first share,
/// and it takes as many rows as its shares fill, the last possibly in part.
pub fn blob_placement(eds_size: usize, blob_index: usize, share_count: usize) -> (r: Option<(usize, usize)>)
    ensures
        match placement_spec(eds_size as nat, blob_index as nat, share_count as nat) {
            None => r.is_none(),
            Some((first, last)) => r == Some((first as usize, last as usize)),
        },
{
    if eds_size == 0 || eds_size % 2 != 0 {
        return None;
    }
    let ods: usize = eds_size / 2;
    let first: usize = blob_index / ods;
    let q: usize = share_count / ods;
    let rem: usize = share_count % ods;
    proof {
        vstd::arithmetic::div_mod::lemma_fundamental_div_mod(share_count as int, ods as int);
        if rem != 0 {
            assert(q < usize::MAX) by (nonlinear_arith)
                requires
                    rem != 0,
                    ods >= 2,
                    q * ods + rem == share_count,
                    share_count <= usize::MAX;
        }
    }
    let rows: usize = q + if rem == 0 { 0 } else { 1 };
    if first > usize::MAX - rows {
        return None;
    }
    Some((first, first + rows))
}

/// Whether the row roots followed by the column roots reduce to `data_root`.
pub fn data_root_matches(row_roots: &Vec<[u8; 90]>, column_roots: &Vec<[u8; 90]>, data_root: &[u8; 32]) -> (r: bool)
    ensures
        r == (merkle_root_of(arrays_view(row_roots@) + arrays_view(column_roots@)) == data_root@),
{
    let leaves = concat_roots(row_roots, column_roots);
    assert(arrays_view(leaves@) =~= arrays_view(row_roots@) + arrays_view(column_roots@));
    let root = merkle_root(leaves.as_slice());
    bytes_eq(&root, data_root)
}

/// The row roots followed by the column roots.
fn concat_roots(a: &Vec<[u8; 90]>, b: &Vec<[u8; 90]>) -> (r: Vec<[u8; 90]>)
    ensures
        r@ == a@ + b@,
{
    let mut r: Vec<[u8; 90]> = Vec::new();
    let mut i: usize = 0;
    while i < a.len()
        invariant
            0 <= i <= a@.len(),
            r@ == a@.subrange(0, i as int),
        decreases a@.len() - i,
    {
        r.push(a[i]);
        i = i + 1;
        assert(r@ =~= a@.subrange(0, i as int));
    }
    let mut j: usize = 0;
    while j < b.len()
        invariant
            0 <= j <= b@.len(),
            r@ == a@ + b@.subrange(0, j as int),
        decreases b@.len() - j,
    {
        r.push(b[j]);
        j = j + 1;
        assert(r@ =~= a@ + b@.subrange(0, j as int));
    }
    assert(r@ =~= a@ + b@);
    r
}

/// Whether two 32-byte arrays hold the same bytes.
fn bytes_eq(a: &[u8; 32], b: &[u8; 32]) -> (r: bool)
    ensures
        r == (a@ == b@),
{
    let mut i: usize = 0;
    while i < 32
        invariant
            0 <= i <= 32,
            forall|k: int| 0 <= k < i ==> a@[k] == b@[k],
        decreases 32 - i,
    {
        if a[i] != b[i] {
            return false;
        }
        i = i + 1;
    }
    assert(a@ =~= b@);
    true
}

/// What the verifier needs to check a blob's inclusion: the data root, the
/// proof of the rows under it, and the rows' roots and share proofs.
pub struct Witness {
    pub data_root: [u8; 32],
    pub range_proof: RangeProof,
    pub row_roots: Vec<[u8; 90]>,
    pub row_proofs: Vec<RowProof>,
}

/// Assembles the inclusion witness on the host: checks the claimed data
/// root against the square's roots, places the blob, keeps the row roots and
/// row proofs of its rows, and proves those rows under the data root.
pub fn assemble_witness(
    row_roots: &Vec<[u8; 90]>,
    column_roots: &Vec<[u8; 90]>,
    data_root: &[u8; 32],
    blob_index: usize,
    share_count: usize,
    row_proofs: Vec<RowProof>,
) -> (r: Result<Witness, WitnessError>)
    ensures
        merkle_root_of(arrays_view(row_roots@) + arrays_view(column_roots@)) != data_root@
            ==> r == Err::<Witness, WitnessError>(WitnessError::DataRootMismatch),
        merkle_root_of(arrays_view(row_roots@) + arrays_view(column_roots@)) == data_root@
            && placement_spec(row_roots@.len(), blob_index as nat, share_count as nat) is None
            ==> r == Err::<Witness, WitnessError>(WitnessError::InvalidPlacement),
        r is Ok ==> merkle_root_of(arrays_view(row_roots@) + arrays_view(column_roots@)) == data_root@,
        match placement_spec(row_roots@.len(), blob_index as nat, share_count as nat) {
            None => !(r is Ok),
            Some((first, last)) => {
                &&& (merkle_root_of(arrays_view(row_roots@) + arrays_view(column_roots@)) == data_root@
                    && (last > row_roots@.len() || last - first > row_proofs@.len() || first == last
                        || row_roots@.len() + column_roots@.len() > u32::MAX))
                    ==> r == Err::<Witness, WitnessError>(WitnessError::RowsOutOfRange)
                &&& r is Ok ==> {
                    let w = r.unwrap();
                    &&& w.data_root@ == data_root@
                    &&& w.row_roots@ == row_roots@.subrange(first as int, last as int)
                    &&& w.row_proofs@ == row_proofs@.subrange(0, last - first)
                    &&& w.range_proof.start == first
                    &&& w.range_proof.end == last
                    &&& arrays_view(w.range_proof.siblings@) == merkle_range_siblings(
                        arrays_view(row_roots@) + arrays_view(column_roots@),
                        first,
                        last,
                    )
                }
                &&& (merkle_root_of(arrays_view(row_roots@) + arrays_view(column_roots@)) == data_root@
                    && !(last > row_roots@.len() || last - first > row_proofs@.len() || first == last
                        || row_roots@.len() + column_roots@.len() > u32::MAX))
                    ==> r is Ok
            },
        },
{
    if !data_root_matches(row_roots, column_roots, data_root) {
        return Err(WitnessError::DataRootMismatch);
    }
    let (first, last) = match blob_placement(row_roots.len(), blob_index, share_count) {
        Some(p) => p,
        None => return Err(WitnessError::InvalidPlacement),
    };
    let n_rows: usize = row_roots.len();
    if last > n_rows || last - first > row_proofs.len() || first == last
        || n_rows > u32::MAX as usize || column_roots.len() > u32::MAX as usize - n_rows {
        return Err(WitnessError::RowsOutOfRange);
    }
    let leaves = concat_roots(row_roots, column_roots);
    assert(arrays_view(leaves@) =~= arrays_view(row_roots@) + arrays_view(column_roots@));
    let range_proof = build_range_proof(leaves.as_slice(), first as u32, last as u32);
    let mut kept_roots: Vec<[u8; 90]> = Vec::new();
    let mut k: usize = first;
    while k < last
        invariant
            first <= k <= last,
            last <= row_roots@.len(),
            kept_roots@ == row_roots@.subrange(first as int, k as int),
        decreases last - k,
    {
        kept_roots.push(row_roots[k]);
        k = k + 1;
        assert(kept_roots@ =~= row_roots@.subrange(first as int, k as int));
    }
    let mut kept_proofs = row_proofs;
    kept_proofs.truncate(last - first);
    Ok(Witness { data_root: *data_root, range_proof, row_roots: kept_roots, row_proofs: kept_proofs })
}

} // verus!
