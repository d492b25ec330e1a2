use vstd::prelude::*;
use crate::crypto::{
    apply_keystream, chacha20_keystream, generator_mul, mul_generator, mul_point, point_mul,
    scalar_valid, sec1_point_valid, sha256, sha256_of, xor_bytes, MAX_KEYSTREAM_LEN,
};
use crate::inclusion::{inclusion_result, verify_inclusion, InclusionError};
use crate::merkle::{arrays_view, RangeProof, RowProof};
use crate::share::{shares_spec, split_blob_to_shares};

verus! {

/// The protocol-wide public stream-cipher nonce ("bakingbaddev").
pub const DELIVERY_NONCE: [u8; 12] = [98, 97, 107, 105, 110, 103, 98, 97, 100, 100, 101, 118];

/// Size of a compressed SEC1 point.
pub const POINT_SIZE: usize = 33;

/// Size of a serialized scalar, which doubles as the stream-cipher key.
pub const SCALAR_SIZE: usize = 32;

/// Size of the blinded key that opens a blob: two compressed points.
pub const BLINDED_KEY_SIZE: usize = 66;

/// Longest image whose blob still has a 32-bit length.
pub const MAX_IMAGE_LEN: usize = 4294967229;

/// Why a blob could not be built or a delivery could not be verified.
#[derive(Clone, Copy, Debug, PartialEq, Eq, Structural)]
pub enum DeliveryError {
    /// The recipient key is not a SEC1-encoded point of the curve.
    InvalidPublicKey,
    /// The session scalar is not 32 bytes below the group order.
    InvalidScalar,
    /// The image is too long for a blob.
    PayloadTooLarge,
    /// The inclusion check failed.
    Inclusion(InclusionError),
}

/// What a verifier does when an inclusion check fails.
#[derive(Clone, Copy, Debug, PartialEq, Eq, Structural)]
pub enum FailurePolicy {
    /// Report `false` as the result.
    Soft,
    /// Abort with the failure.
    Abort,
}

/// The blinded session key: G·y followed by H·y.
pub open spec fn blinded_key_spec(h: Seq<u8>, y: Seq<u8>) -> Seq<u8> {
    generator_mul(y) + point_mul(h, y)
}

/// Stream-cipher encryption (and decryption) of `m` under `key` and `nonce`.
pub open spec fn encrypt_spec(m: Seq<u8>, key: Seq<u8>, nonce: Seq<u8>) -> Seq<u8> {
    xor_bytes(m, chacha20_keystream(key, nonce, m.len()))
}

/// The blob of a delivery: the blinded key, then the encrypted image.
pub open spec fn blob_spec(image: Seq<u8>, y: Seq<u8>, h: Seq<u8>) -> Seq<u8> {
    blinded_key_spec(h, y) + encrypt_spec(image, y, DELIVERY_NONCE@)
}

/// The outcome of building a blob from the image, scalar and recipient key.
pub open spec fn blob_result(image: Seq<u8>, y: Seq<u8>, h: Seq<u8>) -> Result<Seq<u8>, DeliveryError> {
    if y.len() != SCALAR_SIZE || !scalar_valid(y) {
        Err(DeliveryError::InvalidScalar)
    } else if h.len() != POINT_SIZE || !sec1_point_valid(h) {
        Err(DeliveryError::InvalidPublicKey)
    } else if image.len() > MAX_IMAGE_LEN {
        Err(DeliveryError::PayloadTooLarge)
    } else {
        Ok(blob_spec(image, y, h))
    }
}

/// Decrypting what was encrypted under the same key and nonce gives the
/// plaintext back, and encryption keeps the length.
pub proof fn lemma_decrypt_encrypt(m: Seq<u8>, key: Seq<u8>, nonce: Seq<u8>)
    ensures
        encrypt_spec(m, key, nonce).len() == m.len(),
        encrypt_spec(encrypt_spec(m, key, nonce), key, nonce) == m,
{
    let c = encrypt_spec(m, key, nonce);
    let ks = chacha20_keystream(key, nonce, m.len());
    assert forall|i: int| 0 <= i < m.len() implies #[trigger] encrypt_spec(c, key, nonce)[i] == m[i] by {
        let a = m[i];
        let b = ks[i];
        assert((a ^ b) ^ b == a) by (bit_vector);
    }
    assert(encrypt_spec(c, key, nonce) =~= m);
}

/// Appends `s` to `out`.
pub(crate) fn push_all(out: &mut Vec<u8>, s: &[u8])
    ensures
        final(out)@ == old(out)@ + s@,
{
    let mut i: usize = 0;
    while i < s.len()
        invariant
            0 <= i <= s@.len(),
            out@ == old(out)@ + s@.subrange(0, i as int),
        decreases s@.len() - i,
    {
        out.push(s[i]);
        i = i + 1;
        assert(out@ =~= old(out)@ + s@.subrange(0, i as int));
    }
    assert(s@.subrange(0, i as int) =~= s@);
}

/// Copies a 32-byte slice into an array.
fn to_array32(s: &[u8]) -> (r: [u8; 32])
    requires
        s@.len() == 32,
    ensures
        r@ == s@,
{
    let mut r: [u8; 32] = [0u8; 32];
    let mut i: usize = 0;
    while i < 32
        invariant
            s@.len() == 32,
            0 <= i <= 32,
            forall|k: int| 0 <= k < i ==> #[trigger] r@[k] == s@[k],
        decreases 32 - i,
    {
        r[i] = s[i];
        i = i + 1;
    }
    assert(r@ =~= s@);
    r
}

/// Copies a 33-byte slice into an array.
fn to_array33(s: &[u8]) -> (r: [u8; 33])
    requires
        s@.len() == 33,
    ensures
        r@ == s@,
{
    let mut r: [u8; 33] = [0u8; 33];
    let mut i: usize = 0;
    while i < 33
        invariant
            s@.len() == 33,
            0 <= i <= 33,
            forall|k: int| 0 <= k < i ==> #[trigger] r@[k] == s@[k],
        decreases 33 - i,
    {
        r[i] = s[i];
        i = i + 1;
    }
    assert(r@ =~= s@);
    r
}

/// Encapsulates the session scalar `y` under the recipient key `H`:
/// `(G·y, H·y)`, both compressed.
pub fn blind_key(public_key_h: &[u8; 33], random_scalar_y: &[u8; 32]) -> (r: Result<([u8; 33], [u8; 33]), DeliveryError>)
    ensures
        !scalar_valid(random_scalar_y@) ==> r == Err::<([u8; 33], [u8; 33]), DeliveryError>(DeliveryError::InvalidScalar),
        scalar_valid(random_scalar_y@) && !sec1_point_valid(public_key_h@)
            ==> r == Err::<([u8; 33], [u8; 33]), DeliveryError>(DeliveryError::InvalidPublicKey),
        scalar_valid(random_scalar_y@) && sec1_point_valid(public_key_h@) ==> r is Ok,
        r matches Ok((c1, c2)) ==> c1@ == generator_mul(random_scalar_y@) && c2@ == point_mul(public_key_h@, random_scalar_y@),
{
    let c1 = match mul_generator(random_scalar_y) {
        Some(c) => c,
        None => return Err(DeliveryError::InvalidScalar),
    };
    let c2 = match mul_point(public_key_h, random_scalar_y) {
        Some(c) => c,
        None => return Err(DeliveryError::InvalidPublicKey),
    };
    Ok((c1, c2))
}

/// Encrypts (or decrypts) with the stream cipher under `key` and `nonce`;
/// the output has the input's length.
pub fn encrypt(plaintext: &[u8], key: &[u8; 32], nonce: &[u8; 12]) -> (r: Vec<u8>)
    requires
        plaintext@.len() <= MAX_KEYSTREAM_LEN,
    ensures
        r@ == encrypt_spec(plaintext@, key@, nonce@),
        r@.len() == plaintext@.len(),
{
    let mut data = vstd::slice::slice_to_vec(plaintext);
    apply_keystream(key, nonce, &mut data);
    data
}

/// Builds a delivery blob: the session scalar blinded under the recipient's
/// key, then the image encrypted under the scalar.
pub fn generate_blob(image_bytes: &[u8], random_scalar_y: &[u8], public_key_h: &[u8]) -> (r: Result<Vec<u8>, DeliveryError>)
    ensures
        match blob_result(image_bytes@, random_scalar_y@, public_key_h@) {
            Ok(b) => r is Ok && r.unwrap()@ == b,
            Err(e) => r == Err::<Vec<u8>, DeliveryError>(e),
        },
        r matches Ok(b) ==> b@.len() == BLINDED_KEY_SIZE + image_bytes@.len(),
{
    if random_scalar_y.len() != SCALAR_SIZE {
        return Err(DeliveryError::InvalidScalar);
    }
    let y = to_array32(random_scalar_y);
    let c1 = match mul_generator(&y) {
        Some(c) => c,
        None => return Err(DeliveryError::InvalidScalar),
    };
    if public_key_h.len() != POINT_SIZE {
        return Err(DeliveryError::InvalidPublicKey);
    }
    let h = to_array33(public_key_h);
    let c2 = match mul_point(&h, &y) {
        Some(c) => c,
        None => return Err(DeliveryError::InvalidPublicKey),
    };
    if image_bytes.len() > MAX_IMAGE_LEN {
        return Err(DeliveryError::PayloadTooLarge);
    }
    let encrypted = encrypt(image_bytes, &y, &DELIVERY_NONCE);
    let mut blob: Vec<u8> = Vec::new();
    push_all(&mut blob, &c1);
    push_all(&mut blob, &c2);
    push_all(&mut blob, encrypted.as_slice());
    assert(blob@ =~= blob_spec(image_bytes@, random_scalar_y@, public_key_h@));
    Ok(blob)
}

} // verus!
