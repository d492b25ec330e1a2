use vstd::prelude::*;
use chacha20::cipher::{NewCipher, StreamCipher};
use k256::elliptic_curve::group::GroupEncoding;
use k256::elliptic_curve::PrimeField;

verus! {

/// Longest input the stream cipher accepts from a fresh state: 2^32 blocks of 64 bytes.
pub const MAX_KEYSTREAM_LEN: u64 = 274877906944;

/// The SHA-256 digest of a byte string.
pub uninterp spec fn sha256_of(data: Seq<u8>) -> Seq<u8>;

/// The first `len` bytes of the ChaCha20 keystream for a 256-bit key and a
/// 96-bit nonce, from block 0.
pub uninterp spec fn chacha20_keystream(key: Seq<u8>, nonce: Seq<u8>, len: nat) -> Seq<u8>;

/// Whether bytes are the compressed or uncompressed SEC1 encoding of a
/// non-identity point of secp256k1.
pub uninterp spec fn sec1_point_valid(h: Seq<u8>) -> bool;

/// The compressed encoding of G·y, for a big-endian scalar `y`.
pub uninterp spec fn generator_mul(y: Seq<u8>) -> Seq<u8>;

/// The compressed encoding of H·y, for a SEC1 point `h` and a big-endian scalar `y`.
pub uninterp spec fn point_mul(h: Seq<u8>, y: Seq<u8>) -> Seq<u8>;

/// Byte-wise exclusive or of `a` with the first `a.len()` bytes of `b`.
pub open spec fn xor_bytes(a: Seq<u8>, b: Seq<u8>) -> Seq<u8> {
    Seq::new(a.len(), |i: int| a[i] ^ b[i])
}

/// The unsigned value of big-endian bytes.
pub open spec fn be_value(s: Seq<u8>) -> nat
    decreases s.len(),
{
    if s.len() == 0 {
        0
    } else {
        (be_value(s.drop_last()) * 256 + s.last()) as nat
    }
}

/// The order n of the secp256k1 group.
pub open spec fn secp256k1_order() -> nat {
    (0xFFFFFFFFFFFFFFFFFFFFFFFFFFFFFFFEu128 as nat) * (u128::MAX as nat + 1)
        + 0xBAAEDCE6AF48A03BBFD25E8CD0364141u128 as nat
}

/// Whether 32 big-endian bytes encode a scalar of secp256k1 (a value below n).
pub open spec fn scalar_valid(y: Seq<u8>) -> bool {
    be_value(y) < secp256k1_order()
}

/// Relies on sha2::Sha256::digest: the 32-byte SHA-256 digest.
#[verifier::external_body]
pub(crate) fn sha256(bytes: &[u8]) -> (r: Vec<u8>)
    ensures
        r@ == sha256_of(bytes@),
        r@.len() == 32,
{
    <sha2::Sha256 as sha2::Digest>::digest(bytes).to_vec()
}

/// Relies on chacha20::ChaCha20 (new, apply_keystream): XORs the data in
/// place with the keystream of key and nonce from block 0. Past 2^32 blocks
/// the cipher panics, so the data stays below that.
#[verifier::external_body]
pub(crate) fn apply_keystream(key: &[u8; 32], nonce: &[u8; 12], data: &mut Vec<u8>)
    requires
        old(data)@.len() <= MAX_KEYSTREAM_LEN,
    ensures
        final(data)@ == xor_bytes(old(data)@, chacha20_keystream(key@, nonce@, old(data)@.len())),
{
    let mut cipher = chacha20::ChaCha20::new(key.into(), nonce.into());
    cipher.apply_keystream(&mut data[..]);
}

/// Relies on k256: Scalar::from_repr, which accepts exactly the big-endian
/// values below n, then AffinePoint::GENERATOR times the scalar, in
/// compressed form.
#[verifier::external_body]
pub(crate) fn mul_generator(y: &[u8; 32]) -> (r: Option<[u8; 33]>)
    ensures
        r.is_some() == scalar_valid(y@),
        r.is_some() ==> r.unwrap()@ == generator_mul(y@),
{
    let s: Option<k256::Scalar> = k256::Scalar::from_repr((*y).into()).into();
    s.map(|s| {
        let mut out = [0u8; 33];
        out.copy_from_slice(&(k256::AffinePoint::GENERATOR * s).to_affine().to_bytes());
        out
    })
}

/// Relies on k256: PublicKey::from_sec1_bytes, which accepts the SEC1
/// encodings of non-identity points, Scalar::from_repr, which accepts the
/// big-endian values below n, then the point times the scalar, in
/// compressed form.
#[verifier::external_body]
pub(crate) fn mul_point(h: &[u8; 33], y: &[u8; 32]) -> (r: Option<[u8; 33]>)
    ensures
        r.is_some() == (sec1_point_valid(h@) && scalar_valid(y@)),
        r.is_some() ==> r.unwrap()@ == point_mul(h@, y@),
{
    let p = k256::PublicKey::from_sec1_bytes(&h[..]).ok()?;
    let s: k256::Scalar = Option::from(k256::Scalar::from_repr((*y).into()))?;
    let mut out = [0u8; 33];
    out.copy_from_slice(&(*p.as_affine() * s).to_affine().to_bytes());
    Some(out)
}

} // verus!
