//! Signer-side state machine for threshold Schnorr signing with
//! distributed key generation.

mod common;
mod laws;
mod net;
mod quorum;
mod scalar;
mod shares;
mod signer;
mod state;
mod traits;

pub use common::{has_key, key_for, lookup_key, PolyCommitment, PublicKeys, PublicNonce, SignatureShare};
pub use laws::{
    comms_parties, lemma_commitments_bounded, lemma_comms_map_dom, lemma_decrypted_shares_bounded,
    lemma_public_shares_idempotent,
};
pub use net::{
    DkgBegin, DkgEnd, DkgPrivateShares, DkgPublicShares, DkgStatus, Message, NonceRequest,
    NonceResponse, Packet, SignatureShareRequest, SignatureShareResponse,
};
pub use quorum::{
    key_ids_of, nonces_of, quorum_ids, quorum_key_ids, signing_call, SigningCall,
    quorum_nonces, signer_ids_of,
};
pub use shares::{
    accept_share, contains_id, debug_text, decimal, digit_text, dkg_end_status, ids_joined,
    render_ids,
};
pub use signer::{
    after_checks, all_dests_ok, all_failures, comms_map, dest_ok, encrypt_dealt, encryption_plan,
    flatten, good_plain, graph_path, handled_state, keys_map, lemma_graph_path_push,
    nonce_response_answers, packet_msgs, plaintexts_fit, row_failures, row_keys,
    share_response_answers, share_sources, SigningRound,
};
pub use state::{
    at_most_one_move, check_transition, state_change_text, state_name, transition_allowed,
    within_three_moves, Error, State,
};
pub use traits::{Network, Signer};
pub use scalar::{decode_public_key, key_decodes, point_decodes};
