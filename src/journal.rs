use vstd::prelude::*;
use crate::crypto::{sha256, sha256_of};
use crate::delivery::{blob_result, generate_blob, push_all, DeliveryError, FailurePolicy};
use crate::inclusion::{inclusion_result, verify_inclusion, InclusionError};
use crate::merkle::{arrays_view, RangeProof, RowProof};
use crate::share::{shares_spec, shares_view, split_blob_to_shares};

verus! {

/// What an entry point reports for an inclusion outcome under its policy:
/// success is `true`; a failure is `false` when soft, the failure itself when
/// aborting.
pub open spec fn policy_outcome(policy: FailurePolicy, res: Result<(), InclusionError>) -> Result<bool, InclusionError> {
    match res {
        Ok(_) => Ok(true),
        Err(e) => match policy {
            FailurePolicy::Soft => Ok(false),
            FailurePolicy::Abort => Err(e),
        },
    }
}

/// The journal of the envelope variant: image digest, blob digest, recipient key.
pub open spec fn envelope_journal_spec(image: Seq<u8>, blob: Seq<u8>, h: Seq<u8>) -> Seq<u8> {
    sha256_of(image) + sha256_of(blob) + h
}

/// The outcome of the delivery verifier: the blob is rebuilt from the image,
/// split into shares, and those shares must be included under the data root;
/// the journal is the image digest, the data root and the recipient key.
pub open spec fn delivery_result(
    data_root: Seq<u8>,
    range_proof: RangeProof,
    roots: Seq<Seq<u8>>,
    proofs: Seq<RowProof>,
    h: Seq<u8>,
    y: Seq<u8>,
    image: Seq<u8>,
    namespace: Seq<u8>,
) -> Result<Seq<u8>, DeliveryError> {
    match blob_result(image, y, h) {
        Err(e) => Err(e),
        Ok(blob) => match inclusion_result(data_root, range_proof, roots, proofs, shares_spec(namespace, blob), namespace) {
            Err(e) => Err(DeliveryError::Inclusion(e)),
            Ok(_) => Ok(sha256_of(image) + data_root + h),
        },
    }
}

/// Runs the two-stage inclusion check and reports its outcome under `policy`.
pub fn check_inclusion(
    policy: FailurePolicy,
    data_root: &[u8; 32],
    range_proof: &RangeProof,
    row_roots: &Vec<[u8; 90]>,
    proofs: &Vec<RowProof>,
    shares: &Vec<[u8; 512]>,
    namespace: &[u8; 29],
) -> (r: Result<bool, InclusionError>)
    ensures
        r == policy_outcome(
            policy,
            inclusion_result(data_root@, *range_proof, arrays_view(row_roots@), proofs@, arrays_view(shares@), namespace@),
        ),
{
    match verify_inclusion(data_root, range_proof, row_roots, proofs, shares, namespace) {
        Ok(()) => Ok(true),
        Err(e) => match policy {
            FailurePolicy::Soft => Ok(false),
            FailurePolicy::Abort => Err(e),
        },
    }
}

/// The journal of the simple variant: the image's SHA-256 digest.
pub fn image_journal(image_bytes: &[u8]) -> (r: Vec<u8>)
    ensures
        r@ == sha256_of(image_bytes@),
        r@.len() == 32,
{
    sha256(image_bytes)
}

/// The journal of the inclusion-only variant: one byte, 1 when the shares
/// are included under the data root and 0 otherwise.
pub fn inclusion_journal(
    data_root: &[u8; 32],
    range_proof: &RangeProof,
    row_roots: &Vec<[u8; 90]>,
    proofs: &Vec<RowProof>,
    shares: &Vec<[u8; 512]>,
    namespace: &[u8; 29],
) -> (r: Vec<u8>)
    ensures
        r@ == seq![
            if inclusion_result(data_root@, *range_proof, arrays_view(row_roots@), proofs@, arrays_view(shares@), namespace@) is Ok {
                1u8
            } else {
                0u8
            },
        ],
{
    let included = check_inclusion(FailurePolicy::Soft, data_root, range_proof, row_roots, proofs, shares, namespace);
    let b: u8 = match included {
        Ok(true) => 1,
        _ => 0,
    };
    let mut r: Vec<u8> = Vec::new();
    r.push(b);
    r
}

/// The envelope variant: builds the blob and the journal of image digest,
/// blob digest and recipient key; returns the journal and the blob.
pub fn envelope_journal(
    public_key_h: &[u8; 33],
    random_scalar_y: &[u8; 32],
    image_bytes: &[u8],
) -> (r: Result<(Vec<u8>, Vec<u8>), DeliveryError>)
    ensures
        match blob_result(image_bytes@, random_scalar_y@, public_key_h@) {
            Ok(b) => r is Ok && r.unwrap().1@ == b && r.unwrap().0@ == envelope_journal_spec(image_bytes@, b, public_key_h@),
            Err(e) => r == Err::<(Vec<u8>, Vec<u8>), DeliveryError>(e),
        },
{
    let blob = match generate_blob(image_bytes, random_scalar_y, public_key_h) {
        Ok(b) => b,
        Err(e) => return Err(e),
    };
    let mut journal = sha256(image_bytes);
    let blob_hash = sha256(blob.as_slice());
    push_all(&mut journal, blob_hash.as_slice());
    push_all(&mut journal, public_key_h);
    Ok((journal, blob))
}

/// The delivery variant: rebuilds the blob from the image, checks that its
/// shares are included under the data root (any failure aborts), and returns
/// the journal of image digest, data root and recipient key.
pub fn delivery_journal(
    data_root: &[u8; 32],
    range_proof: &RangeProof,
    row_roots: &Vec<[u8; 90]>,
    proofs: &Vec<RowProof>,
    public_key_h: &[u8; 33],
    random_scalar_y: &[u8; 32],
    image_bytes: &[u8],
    namespace: &[u8; 29],
) -> (r: Result<Vec<u8>, DeliveryError>)
    ensures
        match delivery_result(
            data_root@,
            *range_proof,
            arrays_view(row_roots@),
            proofs@,
            public_key_h@,
            random_scalar_y@,
            image_bytes@,
            namespace@,
        ) {
            Ok(j) => r is Ok && r.unwrap()@ == j,
            Err(e) => r == Err::<Vec<u8>, DeliveryError>(e),
        },
{
    let blob = match generate_blob(image_bytes, random_scalar_y, public_key_h) {
        Ok(b) => b,
        Err(e) => return Err(e),
    };
    let shares = split_blob_to_shares(namespace, blob.as_slice());
    assert(arrays_view(shares@) =~= shares_view(shares@));
    match check_inclusion(FailurePolicy::Abort, data_root, range_proof, row_roots, proofs, &shares, namespace) {
        Ok(_) => {},
        Err(e) => return Err(DeliveryError::Inclusion(e)),
    }
    let mut journal = sha256(image_bytes);
    push_all(&mut journal, data_root);
    push_all(&mut journal, public_key_h);
    Ok(journal)
}

} // verus!
