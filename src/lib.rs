//! Verified core of an encrypted-delivery protocol: share encoding of blobs,
//! two-stage namespaced Merkle inclusion checks, key blinding with a stream
//! cipher, the journals that a verifier commits to, and the host-side
//! assembly of the verifier's inclusion witness.

mod image_id;
pub mod share;
pub mod merkle;
pub mod crypto;
pub mod inclusion;
pub mod delivery;
pub mod journal;
pub mod witness;
pub mod thumbnail;

pub use image_id::{convert_image_id, convert_image_id_be};
pub use delivery::{blind_key, encrypt, generate_blob, DeliveryError, FailurePolicy, DELIVERY_NONCE};
pub use inclusion::{verify_inclusion, InclusionError};
pub use journal::{check_inclusion, delivery_journal, envelope_journal, image_journal, inclusion_journal};
pub use merkle::{RangeProof, RowProof};
pub use share::{build_sparse_share_v0, cursor_inner_length, namespace_v0, split_blob_to_shares, ByteCursor};
pub use thumbnail::{centered_square, thumbnail_journal, THUMB_SIZE_PX};
pub use witness::{assemble_witness, blob_placement, data_root_matches, Witness, WitnessError};
