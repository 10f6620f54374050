use vstd::prelude::*;
use crate::common::{PolyCommitment, PublicNonce, SignatureShare};

verus! {

/// The coordinator opens a DKG round, or asks for private shares.
#[derive(Debug, Clone, Copy, PartialEq, Eq, Structural)]
pub struct DkgBegin {
    /// DKG round ID
    pub dkg_id: u64,
}

/// Outcome of a DKG round at one signer.
#[derive(Debug, Clone)]
pub enum DkgStatus {
    /// the round produced usable secrets
    Success,
    /// the round failed, with a diagnostic
    Failure(String),
}

/// A signer reports the end of a DKG round.
#[derive(Debug, Clone)]
pub struct DkgEnd {
    /// DKG round ID
    pub dkg_id: u64,
    /// the reporting signer
    pub signer_id: u32,
    /// the outcome
    pub status: DkgStatus,
}

/// The polynomial commitments of one signer.
#[derive(Debug, Clone)]
pub struct DkgPublicShares {
    /// DKG round ID
    pub dkg_id: u64,
    /// the sending signer
    pub signer_id: u32,
    /// party id and commitment of each of the sender's parties
    pub comms: Vec<(u32, PolyCommitment)>,
}

/// The encrypted private shares of one signer.
#[derive(Debug, Clone)]
pub struct DkgPrivateShares {
    /// DKG round ID
    pub dkg_id: u64,
    /// the sending signer
    pub signer_id: u32,
    /// for each source party, the ciphertext meant for each destination key id
    pub shares: Vec<(u32, Vec<(u32, Vec<u8>)>)>,
}

/// The coordinator asks for fresh nonces.
#[derive(Debug, Clone, Copy, PartialEq, Eq, Structural)]
pub struct NonceRequest {
    /// DKG round ID
    pub dkg_id: u64,
    /// signing round ID
    pub sign_id: u64,
    /// signing iteration ID
    pub sign_iter_id: u64,
}

/// A signer's public nonces for one signing iteration.
#[derive(Debug, Clone)]
pub struct NonceResponse {
    /// DKG round ID
    pub dkg_id: u64,
    /// signing round ID
    pub sign_id: u64,
    /// signing iteration ID
    pub sign_iter_id: u64,
    /// the responding signer
    pub signer_id: u32,
    /// the keys the nonces belong to
    pub key_ids: Vec<u32>,
    /// one public nonce per key
    pub nonces: Vec<PublicNonce>,
}

/// The coordinator asks the chosen quorum for signature shares.
#[derive(Debug, Clone)]
pub struct SignatureShareRequest {
    /// DKG round ID
    pub dkg_id: u64,
    /// signing round ID
    pub sign_id: u64,
    /// signing iteration ID
    pub sign_iter_id: u64,
    /// the nonce responses of the quorum
    pub nonce_responses: Vec<NonceResponse>,
    /// the message to sign
    pub message: Vec<u8>,
    /// whether to produce a taproot signature
    pub is_taproot: bool,
    /// the taproot merkle root, if any
    pub merkle_root: Option<[u8; 32]>,
}

/// A signer's signature shares.
#[derive(Debug)]
pub struct SignatureShareResponse {
    /// DKG round ID
    pub dkg_id: u64,
    /// signing round ID
    pub sign_id: u64,
    /// signing iteration ID
    pub sign_iter_id: u64,
    /// the responding signer
    pub signer_id: u32,
    /// one share per key of the signer
    pub signature_shares: Vec<SignatureShare>,
}

/// The protocol messages.
#[derive(Debug)]
pub enum Message {
    /// open a DKG round
    DkgBegin(DkgBegin),
    /// ask for private shares
    DkgPrivateBegin(DkgBegin),
    /// report the end of a DKG round
    DkgEnd(DkgEnd),
    /// polynomial commitments
    DkgPublicShares(DkgPublicShares),
    /// encrypted private shares
    DkgPrivateShares(DkgPrivateShares),
    /// ask for nonces
    NonceRequest(NonceRequest),
    /// nonces
    NonceResponse(NonceResponse),
    /// ask for signature shares
    SignatureShareRequest(SignatureShareRequest),
    /// signature shares
    SignatureShareResponse(SignatureShareResponse),
}

/// A message together with the sender's signature over it.
#[derive(Debug)]
pub struct Packet {
    /// the envelope signature
    pub sig: Vec<u8>,
    /// the message
    pub msg: Message,
}

} // verus!
