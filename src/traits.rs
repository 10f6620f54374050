use vstd::prelude::*;
use std::collections::BTreeMap;
use p256k1::point::Point;
use p256k1::scalar::Scalar;
use crate::common::{PolyCommitment, PublicNonce, SignatureShare};
use crate::net::Message;

verus! {

/// The cryptographic signer that a `SigningRound` drives: it owns the secret
/// polynomials, derives shares and nonces, and signs.
///
/// Implementations draw their own randomness from a cryptographically secure
/// source.
pub trait Signer: Sized {
    /// Create a new signer.
    fn new(
        party_id: u32,
        key_ids: &[u32],
        num_signers: u32,
        num_keys: u32,
        threshold: u32,
    ) -> Self;

    /// Get the signer ID for this signer.
    fn get_id(&self) -> u32;

    /// Get all key IDs for this signer.
    fn get_key_ids(&self) -> Vec<u32>;

    /// Get the total number of parties.
    fn get_num_parties(&self) -> u32;

    /// Get all polynomial commitments for this signer.
    fn get_poly_commitments(&self) -> Vec<PolyCommitment>;

    /// Discard and regenerate the polynomials.
    fn reset_polys(&mut self);

    /// The private shares this signer deals: for each of its source keys, the
    /// scalar meant for each 0-based destination key.
    fn get_shares(&self) -> Vec<(u32, Vec<(u32, Scalar)>)>;

    /// Compute this signer's secrets from the gathered shares (by source party,
    /// then destination key id) and commitments (by party id); on failure, the
    /// parties whose contribution was at fault.
    fn compute_secrets(
        &mut self,
        shares: &BTreeMap<u32, BTreeMap<u32, Scalar>>,
        polys: &BTreeMap<u32, PolyCommitment>,
    ) -> Result<(), Vec<u32>>;

    /// Generate fresh nonces, one per key.
    fn gen_nonces(&mut self) -> Vec<PublicNonce>;

    /// Sign `msg` with all of this signer's keys.
    fn sign(
        &self,
        msg: &[u8],
        signer_ids: &[u32],
        key_ids: &[u32],
        nonces: &[PublicNonce],
    ) -> Vec<SignatureShare>;

    /// Sign `msg` with all of this signer's keys, against the key tweaked by
    /// `merkle_root`.
    fn sign_taproot(
        &self,
        msg: &[u8],
        signer_ids: &[u32],
        key_ids: &[u32],
        nonces: &[PublicNonce],
        merkle_root: Option<[u8; 32]>,
    ) -> Vec<SignatureShare>;
}

/// The network side of a signer: envelope signatures and the pairwise
/// encrypted channel over which private shares travel.
pub trait Network {
    /// The secret shared by `private_key` and the point `public_key`.
    fn shared_secret(&self, private_key: &Scalar, public_key: &Point) -> Vec<u8>;

    /// Encrypt `plaintext` under `secret` with a fresh nonce.
    fn encrypt(&mut self, secret: &Vec<u8>, plaintext: &Vec<u8>) -> Vec<u8>;

    /// Decrypt and authenticate `ciphertext` under `secret`.
    fn decrypt(&self, secret: &Vec<u8>, ciphertext: &Vec<u8>) -> Option<Vec<u8>>;

    /// Sign the canonical encoding of `msg` with `private_key`.
    fn sign_message(&self, private_key: &Scalar, msg: &Message) -> Vec<u8>;
}

} // verus!
