use vstd::prelude::*;
use std::collections::BTreeMap;
use p256k1::scalar::Scalar;
use crate::common::{has_key, key_for, lookup_key, PolyCommitment, PublicKeys, PublicNonce};
use crate::net::{
    DkgBegin, DkgEnd, DkgPrivateShares, DkgPublicShares, DkgStatus, Message, NonceRequest,
    NonceResponse, Packet, SignatureShareRequest, SignatureShareResponse,
};
use crate::quorum::{
    quorum_ids, signing_call,
};
use crate::scalar::{decode_public_key, key_decodes, scalar_bytes};
use crate::shares::{accept_share, contains_id, debug_text, dkg_end_status};
use crate::state::{
    at_most_one_move, check_transition, state_change_text, transition_allowed, within_three_moves,
    Error, State,
};
use crate::traits::{Network, Signer};

verus! {

broadcast use vstd::std_specs::btree::group_btree_axioms, vstd::laws_cmp::group_laws_cmp;

/// The commitments a sequence of `(party_id, commitment)` pairs leaves
/// behind when stored in order: the last pair of each party wins.
pub open spec fn comms_map(comms: Seq<(u32, PolyCommitment)>) -> Map<u32, (u32, Seq<u8>)>
    decreases comms.len(),
{
    if comms.len() == 0 {
        Map::empty()
    } else {
        comms_map(comms.drop_last()).insert(comms.last().0, comms.last().1@)
    }
}

/// The source parties named in the shares of a DkgPrivateShares message.
pub open spec fn share_sources(shares: Seq<(u32, Vec<(u32, Vec<u8>)>)>) -> Set<u32> {
    Set::new(|x: u32| exists|k: int| 0 <= k < shares.len() && #[trigger] shares[k].0 == x)
}

/// `nr` answers `req` on behalf of signer `signer_id`: it echoes the
/// request's identifiers and names the signer.
pub open spec fn nonce_response_answers(nr: NonceResponse, req: NonceRequest, signer_id: u32) -> bool {
    &&& nr.dkg_id == req.dkg_id
    &&& nr.sign_id == req.sign_id
    &&& nr.sign_iter_id == req.sign_iter_id
    &&& nr.signer_id == signer_id
}

/// `sr` answers `req` on behalf of signer `signer_id`: it echoes the
/// request's identifiers and names the signer.
pub open spec fn share_response_answers(
    sr: SignatureShareResponse,
    req: SignatureShareRequest,
    signer_id: u32,
) -> bool {
    &&& sr.dkg_id == req.dkg_id
    &&& sr.sign_id == req.sign_id
    &&& sr.sign_iter_id == req.sign_iter_id
    &&& sr.signer_id == signer_id
}

/// The phase that the completion checks leave a signer in, from phase
/// `state` with `n_comms` commitments and `n_shares` sources of private shares
/// out of `n` parties.
pub open spec fn after_checks(state: State, n_comms: nat, n_shares: nat, n: nat) -> State {
    if state == State::DkgPublicGather && n_comms == n {
        State::DkgPrivateDistribute
    } else if state == State::DkgPrivateGather && n_comms == n && n_shares == n {
        State::Idle
    } else {
        state
    }
}

/// The phase that the handler of `message` leaves a signer in, from phase
/// `state`, when it succeeds.
pub open spec fn handled_state(state: State, message: Message) -> State {
    match message {
        Message::DkgBegin(_) => State::DkgPublicGather,
        Message::DkgPrivateBegin(_) => State::DkgPrivateGather,
        _ => state,
    }
}

/// A share dealt to 0-based destination `d` can be encrypted: the key listed
/// first under the 1-based key id `d + 1` decodes.
pub open spec fn dest_ok(keys: Seq<(u32, Vec<u8>)>, d: u32) -> bool {
    d < u32::MAX && (key_for(keys, (d + 1) as u32) matches Some(k) && key_decodes(k))
}

/// Every destination of the dealt shares can be encrypted.
pub open spec fn all_dests_ok(keys: Seq<(u32, Vec<u8>)>, dealt: Seq<(u32, Vec<(u32, Scalar)>)>) -> bool {
    forall|i: int, j: int|
        0 <= i < dealt.len() && 0 <= j < dealt[i].1@.len() ==> dest_ok(keys, #[trigger] dealt[i].1@[j].0)
}

/// Pair each dealt share with the key it is encrypted to and its bytes,
/// keeping the sources and the destinations in order. Destinations are
/// 0-based key ids, while `key_ids` lists the public keys by 1-based key id:
/// the share for destination `d` goes to the key listed under `d + 1`.
pub fn encryption_plan(
    key_ids: &Vec<(u32, Vec<u8>)>,
    dealt: &Vec<(u32, Vec<(u32, Scalar)>)>,
) -> (r: Result<Vec<(u32, Vec<(u32, Vec<u8>, Vec<u8>)>)>, Error>)
    ensures
        r is Ok <==> all_dests_ok(key_ids@, dealt@),
        r is Err ==> r matches Err(Error::InvalidPartyID),
        r matches Ok(v) ==> v@.len() == dealt@.len() && forall|i: int|
            0 <= i < v@.len() ==> (#[trigger] v@[i]).0 == dealt@[i].0 && v@[i].1@.len()
                == dealt@[i].1@.len() && forall|j: int|
                0 <= j < v@[i].1@.len() ==> (#[trigger] v@[i].1@[j]).0 == dealt@[i].1@[j].0
                    && key_for(key_ids@, (v@[i].1@[j].0 + 1) as u32) == Some(v@[i].1@[j].1@)
                    && key_decodes(v@[i].1@[j].1@) && v@[i].1@[j].2@.len() == 32,
{
    let mut shares: Vec<(u32, Vec<(u32, Vec<u8>, Vec<u8>)>)> = Vec::new();
    let mut i: usize = 0;
    while i < dealt.len()
        invariant
            0 <= i <= dealt@.len(),
            shares@.len() == i,
            forall|a: int, b: int|
                0 <= a < i && 0 <= b < dealt@[a].1@.len() ==> dest_ok(key_ids@, #[trigger] dealt@[a].1@[b].0),
            forall|a: int|
                0 <= a < i ==> (#[trigger] shares@[a]).0 == dealt@[a].0 && shares@[a].1@.len()
                    == dealt@[a].1@.len() && forall|b: int|
                    0 <= b < shares@[a].1@.len() ==> (#[trigger] shares@[a].1@[b]).0 == dealt@[a].1@[b].0
                        && key_for(key_ids@, (shares@[a].1@[b].0 + 1) as u32) == Some(shares@[a].1@[b].1@)
                        && key_decodes(shares@[a].1@[b].1@) && shares@[a].1@[b].2@.len() == 32,
        decreases dealt@.len() - i,
    {
        let key_id = dealt[i].0;
        let row = &dealt[i].1;
        let mut encrypted: Vec<(u32, Vec<u8>, Vec<u8>)> = Vec::new();
        let mut j: usize = 0;
        while j < row.len()
            invariant
                0 <= j <= row@.len(),
                0 <= i < dealt@.len(),
                *row == dealt@[i as int].1,
                encrypted@.len() == j,
                forall|b: int| 0 <= b < j ==> dest_ok(key_ids@, #[trigger] row@[b].0),
                forall|b: int| 0 <= b < j ==> (#[trigger] encrypted@[b]).0 == row@[b].0
                    && key_for(key_ids@, (encrypted@[b].0 + 1) as u32) == Some(encrypted@[b].1@)
                    && key_decodes(encrypted@[b].1@) && encrypted@[b].2@.len() == 32,
            decreases row@.len() - j,
        {
            let dst_key_id = row[j].0;
            if dst_key_id == u32::MAX {
                assert(!dest_ok(key_ids@, dealt@[i as int].1@[j as int].0));
                return Err(Error::InvalidPartyID);
            }
            let dst_public_key = match lookup_key(key_ids, dst_key_id + 1) {
                Some(k) => k,
                None => {
                    assert(!dest_ok(key_ids@, dealt@[i as int].1@[j as int].0));
                    return Err(Error::InvalidPartyID);
                },
            };
            if decode_public_key(dst_public_key).is_none() {
                assert(!dest_ok(key_ids@, dealt@[i as int].1@[j as int].0));
                return Err(Error::InvalidPartyID);
            }
            let plaintext = scalar_bytes(&row[j].1);
            encrypted.push((dst_key_id, dst_public_key.clone(), plaintext));
            j = j + 1;
        }
        shares.push((key_id, encrypted));
        i = i + 1;
    }
    Ok(shares)
}

/// Encrypt each dealt share for its destination, keeping the sources and the
/// destinations in order: the share for 0-based destination `d` is encrypted
/// under the secret shared with the key listed under the 1-based key id
/// `d + 1`, as `encryption_plan` lays out.
pub fn encrypt_dealt<N: Network>(
    network: &mut N,
    private_key: &Scalar,
    key_ids: &Vec<(u32, Vec<u8>)>,
    dealt: &Vec<(u32, Vec<(u32, Scalar)>)>,
) -> (r: Result<Vec<(u32, Vec<(u32, Vec<u8>)>)>, Error>)
    ensures
        r is Ok <==> all_dests_ok(key_ids@, dealt@),
        r is Err ==> r matches Err(Error::InvalidPartyID),
        r matches Ok(v) ==> v@.len() == dealt@.len() && forall|i: int|
            0 <= i < v@.len() ==> (#[trigger] v@[i]).0 == dealt@[i].0 && v@[i].1@.len()
                == dealt@[i].1@.len() && forall|j: int|
                0 <= j < v@[i].1@.len() ==> (#[trigger] v@[i].1@[j]).0 == dealt@[i].1@[j].0,
{
    let plan = encryption_plan(key_ids, dealt)?;
    let mut shares: Vec<(u32, Vec<(u32, Vec<u8>)>)> = Vec::new();
    let mut i: usize = 0;
    while i < plan.len()
        invariant
            0 <= i <= plan@.len(),
            plan@.len() == dealt@.len(),
            forall|a: int|
                0 <= a < plan@.len() ==> (#[trigger] plan@[a]).0 == dealt@[a].0 && plan@[a].1@.len()
                    == dealt@[a].1@.len() && forall|b: int|
                    0 <= b < plan@[a].1@.len() ==> (#[trigger] plan@[a].1@[b]).0 == dealt@[a].1@[b].0
                        && key_for(key_ids@, (plan@[a].1@[b].0 + 1) as u32) == Some(plan@[a].1@[b].1@)
                        && key_decodes(plan@[a].1@[b].1@) && plan@[a].1@[b].2@.len() == 32,
            shares@.len() == i,
            forall|a: int|
                0 <= a < i ==> (#[trigger] shares@[a]).0 == dealt@[a].0 && shares@[a].1@.len()
                    == dealt@[a].1@.len() && forall|b: int|
                    0 <= b < shares@[a].1@.len() ==> (#[trigger] shares@[a].1@[b]).0 == dealt@[a].1@[b].0,
        decreases plan@.len() - i,
    {
        let row = &plan[i].1;
        let mut encrypted: Vec<(u32, Vec<u8>)> = Vec::new();
        let mut j: usize = 0;
        while j < row.len()
            invariant
                0 <= j <= row@.len(),
                0 <= i < plan@.len(),
                *row == plan@[i as int].1,
                forall|b: int| 0 <= b < row@.len() ==> key_decodes(#[trigger] row@[b].1@),
                encrypted@.len() == j,
                forall|b: int| 0 <= b < j ==> (#[trigger] encrypted@[b]).0 == row@[b].0,
            decreases row@.len() - j,
        {
            let point = match decode_public_key(&row[j].1) {
                Some(p) => p,
                None => {
                    assert(key_decodes(row@[j as int].1@));
                    return Err(Error::InvalidPartyID);
                },
            };
            let shared_secret = network.shared_secret(private_key, &point);
            let ciphertext = network.encrypt(&shared_secret, &row[j].2);
            encrypted.push((row[j].0, ciphertext));
            j = j + 1;
        }
        shares.push((plan[i].0, encrypted));
        i = i + 1;
    }
    Ok(shares)
}

/// Each phase in `path` is at most one move along the phase graph from the
/// phase before it.
pub open spec fn graph_path(path: Seq<State>) -> bool {
    forall|k: int| 0 <= k < path.len() - 1 ==> at_most_one_move(#[trigger] path[k], path[k + 1])
}

/// A path along the phase graph stays one when a phase at most one move
/// away from its end is appended.
pub proof fn lemma_graph_path_push(path: Seq<State>, next: State)
    requires
        path.len() >= 1,
        graph_path(path),
        at_most_one_move(path.last(), next),
    ensures
        graph_path(path.push(next)),
        path.push(next).last() == next,
        path.push(next)[0] == path[0],
{
    assert forall|k: int| 0 <= k < path.push(next).len() - 1 implies at_most_one_move(
        #[trigger] path.push(next)[k],
        path.push(next)[k + 1],
    ) by {
        if k < path.len() - 1 {
            assert(path.push(next)[k] == path[k] && path.push(next)[k + 1] == path[k + 1]);
        }
    }
}

/// The plaintext of a share can be a scalar: it decrypted to 32 bytes.
pub open spec fn good_plain(p: Option<Vec<u8>>) -> bool {
    p matches Some(b) && b@.len() == 32
}

/// The sources recorded as invalid for one entry from `src`: once for each
/// ciphertext addressed to one of `keys` whose plaintext is no scalar, in order.
pub open spec fn row_failures(
    src: u32,
    row: Seq<(u32, Vec<u8>)>,
    plains: Seq<Option<Vec<u8>>>,
    keys: Seq<u32>,
) -> Seq<u32>
    decreases row.len(),
{
    if row.len() == 0 {
        Seq::empty()
    } else {
        row_failures(src, row.drop_last(), plains, keys) + if keys.contains(row.last().0)
            && !good_plain(plains[row.len() - 1]) {
            seq![src]
        } else {
            Seq::empty()
        }
    }
}

/// The keys stored for one entry: those addressed to one of `keys` whose
/// plaintext is a scalar.
pub open spec fn row_keys(
    row: Seq<(u32, Vec<u8>)>,
    plains: Seq<Option<Vec<u8>>>,
    keys: Seq<u32>,
) -> Set<u32>
    decreases row.len(),
{
    if row.len() == 0 {
        Set::empty()
    } else if keys.contains(row.last().0) && good_plain(plains[row.len() - 1]) {
        row_keys(row.drop_last(), plains, keys).insert(row.last().0)
    } else {
        row_keys(row.drop_last(), plains, keys)
    }
}

/// The sources recorded as invalid for all entries, in order.
pub open spec fn all_failures(
    shares: Seq<(u32, Vec<(u32, Vec<u8>)>)>,
    plains: Seq<Vec<Option<Vec<u8>>>>,
    keys: Seq<u32>,
) -> Seq<u32>
    decreases shares.len(),
{
    if shares.len() == 0 {
        Seq::empty()
    } else {
        all_failures(shares.drop_last(), plains, keys) + row_failures(
            shares.last().0,
            shares.last().1@,
            plains[shares.len() - 1]@,
            keys,
        )
    }
}

/// The keys stored for each source, the last entry of a source winning.
pub open spec fn keys_map(
    shares: Seq<(u32, Vec<(u32, Vec<u8>)>)>,
    plains: Seq<Vec<Option<Vec<u8>>>>,
    keys: Seq<u32>,
) -> Map<u32, Set<u32>>
    decreases shares.len(),
{
    if shares.len() == 0 {
        Map::empty()
    } else {
        keys_map(shares.drop_last(), plains, keys).insert(
            shares.last().0,
            row_keys(shares.last().1@, plains[shares.len() - 1]@, keys),
        )
    }
}

/// `plains` holds one decryption result per ciphertext of `shares`, and none
/// for ciphertexts addressed to keys other than `keys`.
pub open spec fn plaintexts_fit(
    shares: Seq<(u32, Vec<(u32, Vec<u8>)>)>,
    plains: Seq<Vec<Option<Vec<u8>>>>,
    keys: Seq<u32>,
) -> bool {
    &&& plains.len() == shares.len()
    &&& forall|i: int|
        0 <= i < shares.len() ==> (#[trigger] plains[i])@.len() == shares[i].1@.len()
    &&& forall|i: int, j: int|
        0 <= i < shares.len() && 0 <= j < shares[i].1@.len() && !keys.contains(
            #[trigger] shares[i].1@[j].0,
        ) ==> plains[i]@[j] is None
}

/// The outputs of several steps, one after another.
pub open spec fn flatten(outs: Seq<Vec<Message>>) -> Seq<Message>
    decreases outs.len(),
{
    if outs.len() == 0 {
        Seq::empty()
    } else {
        flatten(outs.drop_last()) + outs.last()@
    }
}

/// The messages that a sequence of packets carries.
pub open spec fn packet_msgs(packets: Seq<Packet>) -> Seq<Message> {
    packets.map_values(|p: Packet| p.msg)
}

/// A state machine for a signing round.
pub struct SigningRound<S: Signer, N: Network> {
    /// current DKG round ID
    pub dkg_id: u64,
    /// current signing round ID
    pub sign_id: u64,
    /// current signing iteration ID
    pub sign_iter_id: u64,
    /// the threshold of the keys needed for a valid signature
    pub threshold: u32,
    /// the total number of signers
    pub total_signers: u32,
    /// the total number of keys
    pub total_keys: u32,
    /// the Signer object
    pub signer: S,
    /// envelope signatures and the encrypted share channel
    pub network: N,
    /// the Signer ID
    pub signer_id: u32,
    /// the key ids this signer holds
    pub key_ids: Vec<u32>,
    /// the number of parties taking part in DKG, as the Signer reports it
    pub num_parties: u32,
    /// the current state
    pub state: State,
    /// map of party_id to the polynomial commitment for that party
    pub commitments: BTreeMap<u32, PolyCommitment>,
    /// map of source party_id to the decrypted shares it sent to each of our key ids
    pub decrypted_shares: BTreeMap<u32, BTreeMap<u32, Scalar>>,
    /// source party ids whose private shares could not be decrypted or parsed
    pub invalid_private_shares: Vec<u32>,
    /// public nonces for this signing round
    pub public_nonces: Vec<PublicNonce>,
    /// the private key used to sign messages sent over the network
    pub network_private_key: Scalar,
    /// the public keys for all signers and coordinator
    pub public_keys: PublicKeys,
}

impl<S: Signer, N: Network> SigningRound<S, N> {
    /// The commitments gathered so far, by party id.
    pub open spec fn commitments_view(&self) -> Map<u32, (u32, Seq<u8>)> {
        self.commitments@.map_values(|c: PolyCommitment| c@)
    }

    /// What processing `message` guarantees: `self` before, `after` after,
    /// and `r` the result.
    pub open spec fn processed(
        self,
        message: Message,
        after: Self,
        r: Result<Vec<Message>, Error>,
    ) -> bool {
        &&& (after.wf())
        &&& (within_three_moves(self.state, after.state))
        &&& (after.signer_id == self.signer_id)
        &&& (after.key_ids == self.key_ids)
        &&& (after.num_parties == self.num_parties)
        &&& (after.public_keys == self.public_keys)
        &&& (r matches Ok(out) ==> forall|k: int| 0 <= k < out@.len() && (#[trigger] out@[k] is DkgEnd) ==> k == out@.len() - 1 && after.state == State::Idle)
        &&& (message is DkgBegin ==> after.round_cleared())
        &&& (message matches Message::DkgBegin(b) ==> after.dkg_id == b.dkg_id)
        &&& (!(message is DkgBegin) ==> after.dkg_id == self.dkg_id)
        &&& (r is Err ==> after.state == self.state)
        &&& (r is Ok ==> after.state == after_checks( handled_state(self.state, message), after.commitments@.len(), after.decrypted_shares@.len(), after.num_parties as nat, ))
        &&& (r matches Ok(out) ==> ((exists|k: int| 0 <= k < out@.len() && #[trigger] out@[k] is DkgEnd) <==> (handled_state(self.state, message) == State::DkgPrivateGather && after.state == State::Idle)))
        &&& (r matches Ok(out) ==> (out@.len() > 0 && out@.last() is DkgEnd ==> (out@.last() matches Message::DkgEnd(e) && e.dkg_id == after.dkg_id && e.signer_id == self.signer_id)))
        &&& (message matches Message::DkgBegin(b) ==> (r is Ok <==> transition_allowed( self.state, State::DkgPublicDistribute, )))
        &&& (message matches Message::DkgBegin(b) ==> (r matches Ok(out) ==> out@.len() >= 1 && ( out@[0] matches Message::DkgPublicShares(p) && p.dkg_id == b.dkg_id && p.signer_id == self.signer_id)))
        &&& (message is DkgPrivateBegin && self.state != State::DkgPrivateDistribute ==> (r matches Err( Error::BadStateChange(_), )))
        &&& (message is DkgPrivateBegin && self.state == State::DkgPrivateDistribute ==> (r is Ok || r matches Err(Error::InvalidPartyID)))
        &&& (message is DkgPrivateBegin ==> (r matches Ok(out) ==> out@.len() == 1 + (if after.state == State::Idle { 1int } else { 0int }) && ( out@[0] matches Message::DkgPrivateShares(p) && p.dkg_id == self.dkg_id && p.signer_id == self.signer_id)))
        &&& (message matches Message::DkgPublicShares(m) ==> (r is Ok && after.commitments_view() == self.commitments_view().union_prefer_right(comms_map(m.comms@))))
        &&& (!(message is DkgPublicShares) && !(message is DkgBegin) ==> after.commitments == self.commitments)
        &&& (!(message is DkgPrivateShares) && !(message is DkgBegin) ==> (after.decrypted_shares == self.decrypted_shares && after.invalid_private_shares == self.invalid_private_shares))
        &&& (!(message is DkgBegin) ==> after.public_nonces == self.public_nonces)
        &&& (message matches Message::DkgPrivateShares(m) ==> (!has_key( self.public_keys.signers@, m.signer_id, ) ==> r matches Err(Error::InvalidPartyID)))
        &&& (message matches Message::DkgPrivateShares(m) ==> (r is Ok <==> (key_for( self.public_keys.signers@, m.signer_id, ) matches Some(k) && key_decodes(k))))
        &&& (message matches Message::DkgPrivateShares(m) ==> (r is Ok ==> after.decrypted_shares@.dom() == self.decrypted_shares@.dom().union(share_sources(m.shares@))))
        &&& ((message is DkgEnd || message is NonceResponse || message is SignatureShareResponse || message is DkgPublicShares || message is DkgPrivateShares) ==> (r matches Ok(out) ==> out@.len() == (if after.state != self.state && after.state == State::Idle { 1int } else { 0int })))
        &&& (message matches Message::NonceRequest(req) ==> (r matches Ok(out) && out@.len() == 1 + ( if self.state == State::DkgPrivateGather && after.state == State::Idle { 1int } else { 0int }) && (out@[0] matches Message::NonceResponse(nr) && nonce_response_answers( nr, req, self.signer_id, ) && nr.key_ids@ == self.key_ids@)))
        &&& ((message is DkgEnd || message is NonceResponse || message is SignatureShareResponse) && !self.public_shares_done_spec() && !self.can_dkg_end_spec() ==> ( r matches Ok(out) && out@.len() == 0 && after == self))
        &&& (message matches Message::SignatureShareRequest(req) ==> (r matches Ok(out) && ( quorum_ids(req.nonce_responses@).contains(self.signer_id) <==> exists| k: int, | 0 <= k < out@.len() && #[trigger] out@[k] is SignatureShareResponse)))
    }

    /// A batch run from `self` through `rounds` to `after`: each message
    /// before the last step is processed in turn with outputs `outs`; on
    /// success every message was, and the packets carry all outputs in
    /// order; on failure the next message failed with that error.
    pub open spec fn batch_run(
        self,
        messages: Seq<Packet>,
        rounds: Seq<Self>,
        outs: Seq<Vec<Message>>,
        after: Self,
        r: Result<Vec<Packet>, Error>,
    ) -> bool {
        &&& rounds.len() == outs.len() + 1
        &&& rounds[0] == self
        &&& outs.len() <= messages.len()
        &&& forall|i: int|
            0 <= i < outs.len() ==> #[trigger] rounds[i].processed(
                messages[i].msg,
                rounds[i + 1],
                Ok(outs[i]),
            )
        &&& match r {
            Ok(v) => outs.len() == messages.len() && after == rounds.last() && packet_msgs(v@)
                == flatten(outs),
            Err(e) => outs.len() < messages.len() && rounds.last().processed(
                messages[outs.len() as int].msg,
                after,
                Err(e),
            ),
        }
    }

    /// All commitments are in while gathering them.
    pub open spec fn public_shares_done_spec(&self) -> bool {
        self.state == State::DkgPublicGather && self.commitments@.len() == self.num_parties as nat
    }

    /// All commitments and private shares are in while gathering the latter.
    pub open spec fn can_dkg_end_spec(&self) -> bool {
        &&& self.state == State::DkgPrivateGather
        &&& self.commitments@.len() == self.num_parties as nat
        &&& self.decrypted_shares@.len() == self.num_parties as nat
    }

    /// Every decrypted share is addressed to one of this signer's key ids.
    pub open spec fn wf(&self) -> bool {
        forall|src: u32, dst: u32|
            #![trigger self.decrypted_shares@[src]@.contains_key(dst)]
            self.decrypted_shares@.contains_key(src) && self.decrypted_shares@[src]@.contains_key(dst)
                ==> self.key_ids@.contains(dst)
    }

    /// All four per-round collections are empty.
    pub open spec fn round_cleared(&self) -> bool {
        &&& self.commitments@ == Map::<u32, PolyCommitment>::empty()
        &&& self.decrypted_shares@ == Map::<u32, BTreeMap<u32, Scalar>>::empty()
        &&& self.invalid_private_shares@ == Seq::<u32>::empty()
        &&& self.public_nonces@ == Seq::<PublicNonce>::empty()
    }

    /// Create a SigningRound.
    pub fn new(
        threshold: u32,
        total_signers: u32,
        total_keys: u32,
        signer_id: u32,
        key_ids: Vec<u32>,
        network_private_key: Scalar,
        public_keys: PublicKeys,
        network: N,
    ) -> (r: Self)
        requires
            threshold <= total_keys,
        ensures
            r.wf(),
            r.round_cleared(),
            r.state == State::Idle,
            r.dkg_id == 0,
            r.sign_id == 1,
            r.sign_iter_id == 1,
            r.threshold == threshold,
            r.total_signers == total_signers,
            r.total_keys == total_keys,
            r.signer_id == signer_id,
            r.key_ids@ == key_ids@,
            r.network_private_key == network_private_key,
            r.public_keys == public_keys,
            r.network == network,
    {
        let signer = S::new(signer_id, key_ids.as_slice(), total_signers, total_keys, threshold);
        let num_parties = signer.get_num_parties();
        SigningRound {
            dkg_id: 0,
            sign_id: 1,
            sign_iter_id: 1,
            threshold,
            total_signers,
            total_keys,
            signer,
            network,
            signer_id,
            key_ids,
            num_parties,
            state: State::Idle,
            commitments: BTreeMap::new(),
            decrypted_shares: BTreeMap::new(),
            invalid_private_shares: Vec::new(),
            public_nonces: Vec::new(),
            network_private_key,
            public_keys,
        }
    }

    /// Start the bookkeeping of DKG round `dkg_id` afresh.
    fn reset(&mut self, dkg_id: u64)
        ensures
            final(self).round_cleared(),
            final(self).wf(),
            final(self).dkg_id == dkg_id,
            final(self).state == old(self).state,
            final(self).signer_id == old(self).signer_id,
            final(self).key_ids == old(self).key_ids,
            final(self).num_parties == old(self).num_parties,
            final(self).public_keys == old(self).public_keys,
    {
        self.dkg_id = dkg_id;
        self.commitments.clear();
        self.decrypted_shares.clear();
        self.invalid_private_shares.clear();
        self.public_nonces.clear();
        self.signer.reset_polys();
    }

    /// Checks whether this signer may move to `state`.
    pub fn can_move_to(&self, state: &State) -> (r: Result<(), Error>)
        ensures
            r is Ok <==> transition_allowed(self.state, *state),
            r is Err ==> (r matches Err(Error::BadStateChange(t)) && t@ == state_change_text(
                self.state,
                *state,
            )),
    {
        check_transition(self.state, *state)
    }

    /// Moves to `state` where the phase graph allows it; else nothing changes.
    pub fn move_to(&mut self, state: State) -> (r: Result<(), Error>)
        ensures
            r is Ok <==> transition_allowed(old(self).state, state),
            r is Err ==> (r matches Err(Error::BadStateChange(t)) && t@ == state_change_text(
                old(self).state,
                state,
            )),
            r is Err ==> *final(self) == *old(self),
            r is Ok ==> *final(self) == (SigningRound { state, ..*old(self) }),
            final(self).state == (if r is Ok { state } else { old(self).state }),
            final(self).commitments == old(self).commitments,
            final(self).decrypted_shares == old(self).decrypted_shares,
            final(self).invalid_private_shares == old(self).invalid_private_shares,
            final(self).public_nonces == old(self).public_nonces,
            final(self).signer == old(self).signer,
            final(self).dkg_id == old(self).dkg_id,
            final(self).signer_id == old(self).signer_id,
            final(self).key_ids == old(self).key_ids,
            final(self).num_parties == old(self).num_parties,
            final(self).public_keys == old(self).public_keys,
    {
        let r = self.can_move_to(&state);
        if r.is_ok() {
            self.state = state;
        }
        r
    }

    /// Do we have all DkgPublicShares?
    ///
    /// Only commitments received count: the coordinator delivers this
    /// signer's own DkgPublicShares back to it like any other.
    pub fn public_shares_done(&self) -> (r: bool)
        ensures
            r == self.public_shares_done_spec(),
    {
        self.state == State::DkgPublicGather && self.commitments.len() == self.num_parties as usize
    }

    /// Do we have all DkgPublicShares and DkgPrivateShares?
    ///
    /// As with the commitments, this signer's own DkgPrivateShares count once
    /// the coordinator delivers them back.
    pub fn can_dkg_end(&self) -> (r: bool)
        ensures
            r == self.can_dkg_end_spec(),
    {
        let n = self.num_parties as usize;
        self.state == State::DkgPrivateGather && self.commitments.len() == n
            && self.decrypted_shares.len() == n
    }

    /// Handle incoming DkgPublicShares: store each commitment under its party
    /// id, the last one of a party winning.
    pub fn dkg_public_share(&mut self, dkg_public_shares: &DkgPublicShares) -> (r: Result<
        Vec<Message>,
        Error,
    >)
        ensures
            r matches Ok(out) && out@.len() == 0,
            final(self).commitments_view() == old(self).commitments_view().union_prefer_right(
                comms_map(dkg_public_shares.comms@),
            ),
            final(self).public_keys == old(self).public_keys,
            final(self).decrypted_shares == old(self).decrypted_shares,
            final(self).invalid_private_shares == old(self).invalid_private_shares,
            final(self).public_nonces == old(self).public_nonces,
            final(self).signer == old(self).signer,
            final(self).state == old(self).state,
            final(self).dkg_id == old(self).dkg_id,
            final(self).signer_id == old(self).signer_id,
            final(self).key_ids == old(self).key_ids,
            final(self).num_parties == old(self).num_parties,
    {
        let comms = &dkg_public_shares.comms;
        let ghost start = self.commitments_view();
        let mut i: usize = 0;
        while i < comms.len()
            invariant
                0 <= i <= comms@.len(),
                self.commitments_view() == start.union_prefer_right(comms_map(comms@.take(i as int))),
                self.public_keys == old(self).public_keys,
                self.decrypted_shares == old(self).decrypted_shares,
                self.invalid_private_shares == old(self).invalid_private_shares,
                self.public_nonces == old(self).public_nonces,
                self.signer == old(self).signer,
                self.state == old(self).state,
                self.dkg_id == old(self).dkg_id,
                self.signer_id == old(self).signer_id,
                self.key_ids == old(self).key_ids,
                self.num_parties == old(self).num_parties,
            decreases comms@.len() - i,
        {
            let party_id = comms[i].0;
            let comm = comms[i].1.duplicate();
            let ghost before = self.commitments_view();
            self.commitments.insert(party_id, comm);
            proof {
                let t = comms@.take(i + 1);
                assert(t.drop_last() == comms@.take(i as int));
                assert(t.last() == comms@[i as int]);
                assert(self.commitments_view() =~= before.insert(party_id, comms@[i as int].1@));
                assert(self.commitments_view() =~= start.union_prefer_right(comms_map(t)));
            }
            i = i + 1;
        }
        assert(comms@.take(comms@.len() as int) == comms@);
        Ok(Vec::new())
    }

    /// The keys of the decrypted shares held for each source.
    pub open spec fn share_keys(&self) -> Map<u32, Set<u32>> {
        self.decrypted_shares@.map_values(|m: BTreeMap<u32, Scalar>| m@.dom())
    }

    /// `after` is `self` with the decryption results `plains` of `shares`
    /// recorded.
    pub open spec fn recorded(
        self,
        shares: Seq<(u32, Vec<(u32, Vec<u8>)>)>,
        plains: Seq<Vec<Option<Vec<u8>>>>,
        after: Self,
    ) -> bool {
        &&& after.invalid_private_shares@ == self.invalid_private_shares@ + all_failures(
            shares,
            plains,
            self.key_ids@,
        )
        &&& after.share_keys() == self.share_keys().union_prefer_right(
            keys_map(shares, plains, self.key_ids@),
        )
        &&& after.decrypted_shares@.dom() == self.decrypted_shares@.dom().union(share_sources(shares))
        &&& after == (SigningRound {
            decrypted_shares: after.decrypted_shares,
            invalid_private_shares: after.invalid_private_shares,
            ..self
        })
    }

    /// Decrypt, with `secret`, each ciphertext of `shares` addressed to one
    /// of this signer's keys.
    fn decrypt_owned(&self, secret: &Vec<u8>, shares: &Vec<(u32, Vec<(u32, Vec<u8>)>)>) -> (r: Vec<
        Vec<Option<Vec<u8>>>,
    >)
        ensures
            plaintexts_fit(shares@, r@, self.key_ids@),
    {
        let mut r: Vec<Vec<Option<Vec<u8>>>> = Vec::new();
        let mut i: usize = 0;
        while i < shares.len()
            invariant
                0 <= i <= shares@.len(),
                plaintexts_fit(shares@.take(i as int), r@, self.key_ids@),
            decreases shares@.len() - i,
        {
            let row = &shares[i].1;
            let mut plains: Vec<Option<Vec<u8>>> = Vec::new();
            let mut j: usize = 0;
            while j < row.len()
                invariant
                    0 <= j <= row@.len(),
                    plains@.len() == j,
                    forall|b: int|
                        0 <= b < j && !self.key_ids@.contains(#[trigger] row@[b].0)
                            ==> plains@[b] is None,
                decreases row@.len() - j,
            {
                if contains_id(&self.key_ids, row[j].0) {
                    plains.push(self.network.decrypt(secret, &row[j].1));
                } else {
                    plains.push(None);
                }
                j = j + 1;
            }
            let ghost prev = r@;
            r.push(plains);
            proof {
                assert forall|a: int, b: int|
                    0 <= a < i + 1 && 0 <= b < shares@.take(i + 1)[a].1@.len() && !self.key_ids@.contains(
                        #[trigger] shares@.take(i + 1)[a].1@[b].0,
                    ) implies r@[a]@[b] is None by {
                    if a < i {
                        assert(shares@.take(i + 1)[a] == shares@.take(i as int)[a]);
                    }
                }
                assert forall|a: int| 0 <= a < i + 1 implies (#[trigger] r@[a])@.len()
                    == shares@.take(i + 1)[a].1@.len() by {
                    if a < i {
                        assert(shares@.take(i + 1)[a] == shares@.take(i as int)[a]);
                    }
                }
            }
            i = i + 1;
        }
        assert(shares@.take(shares@.len() as int) =~= shares@);
        r
    }

    /// Record the decryption results `plaintexts` of `shares`: for each
    /// entry, the ciphertexts addressed to one of this signer's keys whose
    /// plaintext is a scalar become that source's shares, each other one
    /// records the source as invalid; every source is noted as heard from,
    /// its last entry winning.
    pub fn record_private_shares(
        &mut self,
        shares: &Vec<(u32, Vec<(u32, Vec<u8>)>)>,
        plaintexts: &Vec<Vec<Option<Vec<u8>>>>,
    )
        requires
            old(self).wf(),
            plaintexts@.len() == shares@.len(),
            forall|i: int|
                0 <= i < shares@.len() ==> (#[trigger] plaintexts@[i])@.len() == shares@[i].1@.len(),
        ensures
            final(self).wf(),
            old(self).recorded(shares@, plaintexts@, *final(self)),
    {
        let ghost start = *self;
        let ghost keys = self.key_ids@;
        proof {
            let e = shares@.take(0);
            assert(self.invalid_private_shares@ =~= start.invalid_private_shares@ + all_failures(e, plaintexts@, keys));
            assert(self.share_keys() =~= start.share_keys().union_prefer_right(keys_map(e, plaintexts@, keys)));
            assert(share_sources(e) =~= Set::<u32>::empty());
            assert(self.decrypted_shares@.dom() =~= start.decrypted_shares@.dom().union(share_sources(e)));
        }
        let mut i: usize = 0;
        while i < shares.len()
            invariant
                0 <= i <= shares@.len(),
                plaintexts@.len() == shares@.len(),
                forall|k: int|
                    0 <= k < shares@.len() ==> (#[trigger] plaintexts@[k])@.len() == shares@[k].1@.len(),
                keys == start.key_ids@,
                self.wf(),
                start.recorded(shares@.take(i as int), plaintexts@, *self),
            decreases shares@.len() - i,
        {
            let src_id = shares[i].0;
            let row = &shares[i].1;
            let plains = &plaintexts[i];
            let ghost base_invalid = self.invalid_private_shares@;
            let ghost inner_start = *self;
            let mut decrypted: BTreeMap<u32, Scalar> = BTreeMap::new();
            let mut j: usize = 0;
            while j < row.len()
                invariant
                    0 <= j <= row@.len(),
                    plains@.len() == row@.len(),
                    keys == self.key_ids@,
                    forall|d: u32| #[trigger] decrypted@.contains_key(d) ==> self.key_ids@.contains(d),
                    decrypted@.dom() == row_keys(row@.take(j as int), plains@, keys),
                    self.invalid_private_shares@ == base_invalid + row_failures(
                        src_id,
                        row@.take(j as int),
                        plains@,
                        keys,
                    ),
                    self.wf(),
                    *self == (SigningRound { invalid_private_shares: self.invalid_private_shares, ..inner_start }),
                decreases row@.len() - j,
            {
                let ghost t = row@.take(j + 1);
                assert(t.drop_last() =~= row@.take(j as int));
                assert(t.last() == row@[j as int]);
                let dst_key_id = row[j].0;
                if contains_id(&self.key_ids, dst_key_id) {
                    accept_share(&mut decrypted, &mut self.invalid_private_shares, src_id, dst_key_id, &plains[j]);
                }
                assert(decrypted@.dom() =~= row_keys(t, plains@, keys));
                assert(self.invalid_private_shares@ =~= base_invalid + row_failures(src_id, t, plains@, keys));
                j = j + 1;
            }
            assert(row@.take(row@.len() as int) =~= row@);
            let ghost before_insert = *self;
            self.decrypted_shares.insert(src_id, decrypted);
            proof {
                let t = shares@.take(i + 1);
                assert(t.drop_last() =~= shares@.take(i as int));
                assert(t.last() == shares@[i as int]);
                assert(*plains == plaintexts@[i as int]);
                assert(decrypted@.dom() == row_keys(t.last().1@, plaintexts@[t.len() - 1]@, keys));
                assert(keys_map(t, plaintexts@, keys) == keys_map(shares@.take(i as int), plaintexts@, keys).insert(src_id, decrypted@.dom()));
                assert(self.share_keys() =~= before_insert.share_keys().insert(src_id, decrypted@.dom()));
                assert(self.share_keys() =~= start.share_keys().union_prefer_right(keys_map(t, plaintexts@, keys)));
                assert(self.invalid_private_shares@ =~= start.invalid_private_shares@ + all_failures(t, plaintexts@, keys));
                assert(share_sources(t) =~= share_sources(shares@.take(i as int)).insert(src_id)) by {
                    assert forall|x: u32| share_sources(t).contains(x) implies (x == src_id || share_sources(shares@.take(i as int)).contains(x)) by {
                        let k = choose|k: int| 0 <= k < t.len() && #[trigger] t[k].0 == x;
                        if k < i {
                            assert(shares@.take(i as int)[k] == t[k]);
                        }
                    }
                    assert forall|x: u32| share_sources(shares@.take(i as int)).contains(x) implies share_sources(t).contains(x) by {
                        let k = choose|k: int| 0 <= k < i && #[trigger] shares@.take(i as int)[k].0 == x;
                        assert(t[k] == shares@.take(i as int)[k]);
                    }
                    assert(t[i as int].0 == src_id);
                }
                assert(self.decrypted_shares@.dom() =~= start.decrypted_shares@.dom().union(share_sources(t)));
            }
            i = i + 1;
        }
        assert(shares@.take(shares@.len() as int) =~= shares@);
    }

    /// Handle incoming DkgPrivateShares: decrypt the shares addressed to our
    /// key ids with the secret shared with the sender's listed key, and
    /// record the results.
    pub fn dkg_private_shares(&mut self, dkg_private_shares: &DkgPrivateShares) -> (r: Result<
        Vec<Message>,
        Error,
    >)
        requires
            old(self).wf(),
        ensures
            final(self).wf(),
            !has_key(old(self).public_keys.signers@, dkg_private_shares.signer_id) ==> (r matches Err(
                Error::InvalidPartyID,
            )),
            r is Ok <==> (key_for(old(self).public_keys.signers@, dkg_private_shares.signer_id) matches Some(
                k,
            ) && key_decodes(k)),
            r is Err ==> (r matches Err(Error::InvalidPartyID) && *final(self) == *old(self)),
            r is Ok ==> (r matches Ok(out) && out@.len() == 0 && exists|plains: Seq<Vec<Option<Vec<u8>>>>|
                plaintexts_fit(dkg_private_shares.shares@, plains, old(self).key_ids@)
                    && #[trigger] old(self).recorded(dkg_private_shares.shares@, plains, *final(self))),
    {
        let public_key = match lookup_key(&self.public_keys.signers, dkg_private_shares.signer_id) {
            Some(k) => k,
            None => {
                return Err(Error::InvalidPartyID);
            },
        };
        let point = match decode_public_key(public_key) {
            Some(p) => p,
            None => {
                return Err(Error::InvalidPartyID);
            },
        };
        let shared_secret = self.network.shared_secret(&self.network_private_key, &point);
        let plaintexts = self.decrypt_owned(&shared_secret, &dkg_private_shares.shares);
        self.record_private_shares(&dkg_private_shares.shares, &plaintexts);
        Ok(Vec::new())
    }

    /// DKG is done, so compute the secrets and report the outcome.
    pub fn dkg_ended(&mut self) -> (r: Result<Message, Error>)
        ensures
            r matches Ok(Message::DkgEnd(e)) && e.dkg_id == old(self).dkg_id && e.signer_id
                == old(self).signer_id && (old(self).invalid_private_shares@.len() > 0 ==> (
            e.status matches DkgStatus::Failure(t) && t@ == debug_text(
                old(self).invalid_private_shares@,
            ))),
            old(self).invalid_private_shares@.len() > 0 ==> *final(self) == *old(self),
            old(self).invalid_private_shares@.len() == 0 ==> (r matches Ok(Message::DkgEnd(e)) && (
            e.status is Success || exists|p: Seq<u32>|
                e.status matches DkgStatus::Failure(t) && t@ == #[trigger] debug_text(p))),
            final(self).commitments == old(self).commitments,
            final(self).decrypted_shares == old(self).decrypted_shares,
            final(self).invalid_private_shares == old(self).invalid_private_shares,
            final(self).public_nonces == old(self).public_nonces,
            final(self).state == old(self).state,
            final(self).dkg_id == old(self).dkg_id,
            final(self).signer_id == old(self).signer_id,
            final(self).key_ids == old(self).key_ids,
            final(self).num_parties == old(self).num_parties,
            final(self).public_keys == old(self).public_keys,
    {
        let secrets = if self.invalid_private_shares.len() == 0 {
            self.signer.compute_secrets(&self.decrypted_shares, &self.commitments)
        } else {
            Ok(())
        };
        let status = dkg_end_status(&self.invalid_private_shares, secrets);
        Ok(Message::DkgEnd(DkgEnd { dkg_id: self.dkg_id, signer_id: self.signer_id, status }))
    }

    /// Emit this signer's polynomial commitments and move to DkgPublicGather.
    fn dkg_public_begin(&mut self) -> (r: Result<Vec<Message>, Error>)
        ensures
            r is Ok <==> old(self).state == State::DkgPublicDistribute,
            r is Err ==> (r matches Err(Error::BadStateChange(t)) && t@ == state_change_text(
                old(self).state,
                State::DkgPublicGather,
            )),
            r is Ok ==> (r matches Ok(out) && out@.len() == 1 && (out@[0] matches Message::DkgPublicShares(
                p,
            ) && p.dkg_id == old(self).dkg_id && p.signer_id == old(self).signer_id && forall|k: int|
                0 <= k < p.comms@.len() ==> (#[trigger] p.comms@[k]).0 == p.comms@[k].1.party_id)),
            final(self).state == (if r is Ok { State::DkgPublicGather } else { old(self).state }),
            final(self).commitments == old(self).commitments,
            final(self).decrypted_shares == old(self).decrypted_shares,
            final(self).invalid_private_shares == old(self).invalid_private_shares,
            final(self).public_nonces == old(self).public_nonces,
            final(self).signer == old(self).signer,
            final(self).dkg_id == old(self).dkg_id,
            final(self).signer_id == old(self).signer_id,
            final(self).key_ids == old(self).key_ids,
            final(self).num_parties == old(self).num_parties,
            final(self).public_keys == old(self).public_keys,
    {
        let comms = self.signer.get_poly_commitments();
        let mut pairs: Vec<(u32, PolyCommitment)> = Vec::new();
        let mut i: usize = 0;
        while i < comms.len()
            invariant
                0 <= i <= comms@.len(),
                pairs@.len() == i,
                forall|k: int| 0 <= k < i ==> (#[trigger] pairs@[k]).0 == pairs@[k].1.party_id,
            decreases comms@.len() - i,
        {
            pairs.push((comms[i].party_id, comms[i].duplicate()));
            i = i + 1;
        }
        let public_share = DkgPublicShares {
            dkg_id: self.dkg_id,
            signer_id: self.signer_id,
            comms: pairs,
        };
        let mut msgs: Vec<Message> = Vec::new();
        msgs.push(Message::DkgPublicShares(public_share));
        self.move_to(State::DkgPublicGather)?;
        Ok(msgs)
    }

    /// Encrypt each private share this signer deals for the key it is meant
    /// for, emit them, and move to DkgPrivateGather.
    ///
    /// Destinations in the dealt shares are 0-based key ids, while the public
    /// keys are listed by 1-based key id: the share for destination `d` is
    /// encrypted to the key listed under `d + 1`.
    fn dkg_private_begin(&mut self) -> (r: Result<Vec<Message>, Error>)
        ensures
            old(self).state != State::DkgPrivateDistribute ==> (r matches Err(
                Error::BadStateChange(t),
            ) && t@ == state_change_text(old(self).state, State::DkgPrivateGather)),
            r is Ok ==> old(self).state == State::DkgPrivateDistribute,
            r is Ok ==> (r matches Ok(out) && out@.len() == 1 && (out@[0] matches Message::DkgPrivateShares(p)
                && p.dkg_id == old(self).dkg_id && p.signer_id == old(self).signer_id)),
            r is Err ==> (r matches Err(Error::BadStateChange(_)) || r matches Err(
                Error::InvalidPartyID,
            )),
            old(self).state == State::DkgPrivateDistribute ==> (r is Ok || r matches Err(
                Error::InvalidPartyID,
            )),
            final(self).state == (if r is Ok { State::DkgPrivateGather } else { old(self).state }),
            final(self).commitments == old(self).commitments,
            final(self).decrypted_shares == old(self).decrypted_shares,
            final(self).invalid_private_shares == old(self).invalid_private_shares,
            final(self).public_nonces == old(self).public_nonces,
            final(self).signer == old(self).signer,
            final(self).dkg_id == old(self).dkg_id,
            final(self).signer_id == old(self).signer_id,
            final(self).key_ids == old(self).key_ids,
            final(self).num_parties == old(self).num_parties,
            final(self).public_keys == old(self).public_keys,
            final(self).network_private_key == old(self).network_private_key,
    {
        self.can_move_to(&State::DkgPrivateGather)?;
        let dealt = self.signer.get_shares();
        let shares = encrypt_dealt(
            &mut self.network,
            &self.network_private_key,
            &self.public_keys.key_ids,
            &dealt,
        )?;
        let private_shares = DkgPrivateShares { dkg_id: self.dkg_id, signer_id: self.signer_id, shares };
        let mut msgs: Vec<Message> = Vec::new();
        msgs.push(Message::DkgPrivateShares(private_shares));
        self.move_to(State::DkgPrivateGather)?;
        Ok(msgs)
    }

    /// Open DKG round `dkg_begin.dkg_id`: clear the bookkeeping, regenerate the
    /// polynomials and emit this signer's commitments.
    fn dkg_begin(&mut self, dkg_begin: &DkgBegin) -> (r: Result<Vec<Message>, Error>)
        requires
            old(self).wf(),
        ensures
            final(self).wf(),
            final(self).round_cleared(),
            final(self).dkg_id == dkg_begin.dkg_id,
            r is Ok <==> transition_allowed(old(self).state, State::DkgPublicDistribute),
            r is Err ==> (r matches Err(Error::BadStateChange(t)) && t@ == state_change_text(
                old(self).state,
                State::DkgPublicDistribute,
            )),
            r is Ok ==> (r matches Ok(out) && out@.len() == 1 && (out@[0] matches Message::DkgPublicShares(
                p,
            ) && p.dkg_id == dkg_begin.dkg_id && p.signer_id == old(self).signer_id)),
            final(self).state == (if r is Ok { State::DkgPublicGather } else { old(self).state }),
            final(self).signer_id == old(self).signer_id,
            final(self).key_ids == old(self).key_ids,
            final(self).num_parties == old(self).num_parties,
            final(self).public_keys == old(self).public_keys,
    {
        self.reset(dkg_begin.dkg_id);
        self.move_to(State::DkgPublicDistribute)?;
        self.dkg_public_begin()
    }

    /// Answer a NonceRequest with fresh nonces for each of this signer's keys.
    fn nonce_request(&mut self, nonce_request: &NonceRequest) -> (r: Result<Vec<Message>, Error>)
        requires
            old(self).wf(),
        ensures
            final(self).wf(),
            r matches Ok(out) && out@.len() == 1 && (out@[0] matches Message::NonceResponse(nr)
                && nonce_response_answers(nr, *nonce_request, old(self).signer_id)
                && nr.key_ids@ == old(self).key_ids@),
            final(self).commitments == old(self).commitments,
            final(self).decrypted_shares == old(self).decrypted_shares,
            final(self).invalid_private_shares == old(self).invalid_private_shares,
            final(self).public_nonces == old(self).public_nonces,
            final(self).state == old(self).state,
            final(self).dkg_id == old(self).dkg_id,
            final(self).signer_id == old(self).signer_id,
            final(self).key_ids == old(self).key_ids,
            final(self).num_parties == old(self).num_parties,
            final(self).public_keys == old(self).public_keys,
    {
        let key_ids = self.key_ids.clone();
        let nonces = self.signer.gen_nonces();
        let response = NonceResponse {
            dkg_id: nonce_request.dkg_id,
            sign_id: nonce_request.sign_id,
            sign_iter_id: nonce_request.sign_iter_id,
            signer_id: self.signer_id,
            key_ids,
            nonces,
        };
        let mut msgs: Vec<Message> = Vec::new();
        msgs.push(Message::NonceResponse(response));
        Ok(msgs)
    }

    /// Answer a SignatureShareRequest: one SignatureShareResponse when this
    /// signer is in the request's quorum, none otherwise.
    fn sign_share_request(&mut self, sign_request: &SignatureShareRequest) -> (r: Result<
        Vec<Message>,
        Error,
    >)
        ensures
            r matches Ok(out) && out@.len() == (if quorum_ids(sign_request.nonce_responses@).contains(
                old(self).signer_id,
            ) {
                1int
            } else {
                0int
            }) && forall|k: int|
                0 <= k < out@.len() ==> (#[trigger] out@[k] matches Message::SignatureShareResponse(
                    sr,
                ) && share_response_answers(sr, *sign_request, old(self).signer_id)),
            *final(self) == *old(self),
    {
        let mut msgs: Vec<Message> = Vec::new();
        if let Some(call) = signing_call(sign_request, self.signer_id) {
            let signature_shares = if call.taproot {
                self.signer.sign_taproot(
                    sign_request.message.as_slice(),
                    call.signer_ids.as_slice(),
                    call.key_ids.as_slice(),
                    call.nonces.as_slice(),
                    call.merkle_root,
                )
            } else {
                self.signer.sign(
                    sign_request.message.as_slice(),
                    call.signer_ids.as_slice(),
                    call.key_ids.as_slice(),
                    call.nonces.as_slice(),
                )
            };
            let response = SignatureShareResponse {
                dkg_id: sign_request.dkg_id,
                sign_id: sign_request.sign_id,
                sign_iter_id: sign_request.sign_iter_id,
                signer_id: self.signer_id,
                signature_shares,
            };
            msgs.push(Message::SignatureShareResponse(response));
        }
        Ok(msgs)
    }

    /// The completion checks that follow every handler: once all commitments
    /// are in, move on to distributing private shares; once all private
    /// shares are in as well, append a DkgEnd and go back to Idle.
    fn advance(&mut self, out: Vec<Message>) -> (r: Result<Vec<Message>, Error>)
        requires
            old(self).wf(),
        ensures
            final(self).wf(),
            final(self).commitments == old(self).commitments,
            final(self).decrypted_shares == old(self).decrypted_shares,
            final(self).invalid_private_shares == old(self).invalid_private_shares,
            final(self).public_nonces == old(self).public_nonces,
            final(self).dkg_id == old(self).dkg_id,
            final(self).signer_id == old(self).signer_id,
            final(self).key_ids == old(self).key_ids,
            final(self).num_parties == old(self).num_parties,
            final(self).public_keys == old(self).public_keys,
            r matches Ok(o) && o@.len() >= out@.len() && o@.take(out@.len() as int) == out@,
            final(self).state == old(self).state || transition_allowed(old(self).state, final(self).state),
            final(self).state == after_checks(
                old(self).state,
                old(self).commitments@.len(),
                old(self).decrypted_shares@.len(),
                old(self).num_parties as nat,
            ),
            r matches Ok(o) && o@.len() == out@.len() + (if old(self).can_dkg_end_spec() {
                1int
            } else {
                0int
            }),
            r matches Ok(o) && (o@.len() > out@.len() ==> (o@.len() == out@.len() + 1
                && o@.last() is DkgEnd && final(self).state == State::Idle)),
            old(self).public_shares_done_spec() ==> {
                &&& r matches Ok(o) && o@ == out@
                &&& final(self).state == State::DkgPrivateDistribute
            },
            !old(self).public_shares_done_spec() && old(self).can_dkg_end_spec() ==> {
                &&& r matches Ok(o) && o@.len() == out@.len() + 1 && o@.take(out@.len() as int)
                    == out@ && (o@.last() matches Message::DkgEnd(e) && e.dkg_id == old(self).dkg_id
                    && e.signer_id == old(self).signer_id && (old(self).invalid_private_shares@.len()
                    > 0 ==> (e.status matches DkgStatus::Failure(t) && t@ == debug_text(
                    old(self).invalid_private_shares@,
                ))))
                &&& final(self).state == State::Idle
            },
            !old(self).public_shares_done_spec() && !old(self).can_dkg_end_spec() ==> {
                &&& r matches Ok(o) && o@ == out@
                &&& *final(self) == *old(self)
            },
    {
        let mut out = out;
        if self.public_shares_done() {
            self.move_to(State::DkgPrivateDistribute)?;
        } else if self.can_dkg_end() {
            let dkg_end = self.dkg_ended()?;
            out.push(dkg_end);
            self.move_to(State::Idle)?;
        }
        Ok(out)
    }

    /// Process one incoming message and return the outgoing messages it calls
    /// for.
    pub fn process(&mut self, message: &Message) -> (r: Result<Vec<Message>, Error>)
        requires
            old(self).wf(),
        ensures
            final(self).wf(),
            old(self).processed(*message, *final(self), r),
    {
        let ghost start = self.state;
        let ghost mut via = self.state;
        let out = match message {
            Message::DkgBegin(dkg_begin) => {
                let r = self.dkg_begin(dkg_begin);
                proof {
                    if r is Ok {
                        via = State::DkgPublicDistribute;
                    }
                }
                r
            },
            Message::DkgPrivateBegin(_) => {
                let r = self.dkg_private_begin();
                proof {
                    via = self.state;
                }
                r
            },
            Message::DkgPublicShares(dkg_public_shares) => self.dkg_public_share(dkg_public_shares),
            Message::DkgPrivateShares(dkg_private_shares) => self.dkg_private_shares(
                dkg_private_shares,
            ),
            Message::SignatureShareRequest(sign_share_request) => self.sign_share_request(
                sign_share_request,
            ),
            Message::NonceRequest(nonce_request) => self.nonce_request(nonce_request),
            _ => Ok(Vec::new()),
        };
        match out {
            Ok(out) => {
                let ghost h = out@;
                assert(forall|k: int| 0 <= k < h.len() ==> !(#[trigger] h[k] is DkgEnd));
                let ghost mid = self.state;
                assert(at_most_one_move(start, via) && at_most_one_move(via, mid));
                let res = self.advance(out);
                proof {
                    assert(at_most_one_move(mid, self.state));
                    assert(at_most_one_move(start, via) && at_most_one_move(via, mid)
                        && at_most_one_move(mid, self.state));
                    let o = res->Ok_0@;
                    assert forall|k: int| 0 <= k < h.len() implies #[trigger] o[k] == h[k] by {
                        assert(o.take(h.len() as int)[k] == o[k]);
                    }
                    match message {
                        Message::SignatureShareRequest(req) => {
                            if h.len() > 0 {
                                assert(o[0] is SignatureShareResponse);
                            }
                            if exists|k: int| 0 <= k < o.len() && #[trigger] o[k] is SignatureShareResponse {
                                let k = choose|k: int| 0 <= k < o.len() && #[trigger] o[k] is SignatureShareResponse;
                                assert(k < h.len());
                                assert(h[k] is SignatureShareResponse);
                            }
                        },
                        _ => {},
                    }
                }
                res
            },
            Err(e) => {
                assert(at_most_one_move(start, start) && at_most_one_move(start, start)
                    && at_most_one_move(start, self.state));
                Err(e)
            },
        }
    }

    /// Process a batch of incoming packets in order, and return the outgoing
    /// messages each calls for, in the same order, each signed with this
    /// signer's network key. The first error ends the batch.
    pub fn process_inbound_messages(&mut self, messages: &[Packet]) -> (r: Result<
        Vec<Packet>,
        Error,
    >)
        requires
            old(self).wf(),
        ensures
            final(self).wf(),
            final(self).signer_id == old(self).signer_id,
            final(self).public_keys == old(self).public_keys,
            exists|path: Seq<State>|
                path.len() >= 1 && path[0] == old(self).state && path.last() == final(self).state
                    && #[trigger] graph_path(path),
            old(self).state == State::Idle && (forall|k: int|
                0 <= k < messages@.len() ==> !(#[trigger] messages@[k].msg is DkgBegin)) ==> (
            final(self).state == State::Idle && (r matches Ok(v) ==> forall|k: int|
                0 <= k < v@.len() ==> !(#[trigger] v@[k].msg is DkgEnd))),
            messages@.len() == 0 ==> (r matches Ok(out) && out@.len() == 0 && *final(self)
                == *old(self)),
            exists|rounds: Seq<Self>, outs: Seq<Vec<Message>>|
                #[trigger] old(self).batch_run(messages@, rounds, outs, *final(self), r),
    {
        let ghost mut rounds: Seq<Self> = seq![*self];
        let ghost mut outs: Seq<Vec<Message>> = Seq::empty();
        let mut responses: Vec<Packet> = Vec::new();
        let ghost mut path: Seq<State> = seq![self.state];
        let ghost quiet: bool = self.state == State::Idle;
        let mut i: usize = 0;
        while i < messages.len()
            invariant
                0 <= i <= messages@.len(),
                self.wf(),
                self.signer_id == old(self).signer_id,
                self.public_keys == old(self).public_keys,
                i == 0 ==> responses@.len() == 0 && *self == *old(self),
                rounds.len() == i + 1,
                outs.len() == i,
                rounds[0] == *old(self),
                rounds.last() == *self,
                forall|k: int|
                    0 <= k < i ==> #[trigger] rounds[k].processed(
                        messages@[k].msg,
                        rounds[k + 1],
                        Ok(outs[k]),
                    ),
                packet_msgs(responses@) == flatten(outs),
                path.len() >= 1 && path[0] == old(self).state && path.last() == self.state,
                graph_path(path),
                quiet == (old(self).state == State::Idle),
                quiet && (forall|k: int| 0 <= k < i ==> !(#[trigger] messages@[k].msg is DkgBegin))
                    ==> (self.state == State::Idle && forall|k: int|
                    0 <= k < responses@.len() ==> !(#[trigger] responses@[k].msg is DkgEnd)),
            decreases messages@.len() - i,
        {
            let ghost before = self.state;
            let ghost was_quiet = quiet && (forall|k: int|
                0 <= k < i ==> !(#[trigger] messages@[k].msg is DkgBegin));
            let ghost cur = *self;
            let res = self.process(&messages[i].msg);
            proof {
                let (x, y) = choose|x: State, y: State|
                    #![trigger at_most_one_move(before, x), at_most_one_move(y, self.state)]
                    at_most_one_move(before, x) && at_most_one_move(x, y) && at_most_one_move(y, self.state);
                lemma_graph_path_push(path, x);
                lemma_graph_path_push(path.push(x), y);
                lemma_graph_path_push(path.push(x).push(y), self.state);
                path = path.push(x).push(y).push(self.state);
            }
            let mut outbounds = match res {
                Ok(o) => o,
                Err(e) => {
                    proof {
                        assert(old(self).batch_run(messages@, rounds, outs, *self, Err(e)));
                    }
                    return Err(e);
                },
            };
            let ghost produced = outbounds;
            let ghost prev_flat = flatten(outs);
            let ghost old_outs = outs;
            proof {
                assert(cur.processed(messages@[i as int].msg, *self, Ok(produced)));
                outs = outs.push(produced);
                rounds = rounds.push(*self);
                assert(outs.drop_last() =~= old_outs);
                assert(flatten(outs) == prev_flat + produced@);
            }
            let ghost calm = was_quiet && !(messages@[i as int].msg is DkgBegin);
            proof {
                if calm {
                    assert(handled_state(before, messages@[i as int].msg) == State::Idle);
                    assert(forall|k: int| 0 <= k < outbounds@.len() ==> !(#[trigger] outbounds@[k] is DkgEnd));
                }
            }
            while outbounds.len() > 0
                invariant
                    packet_msgs(responses@) == prev_flat + produced@.take(produced@.len() - outbounds@.len()),
                    outbounds@ == produced@.skip(produced@.len() - outbounds@.len()),
                    outbounds@.len() <= produced@.len(),
                    self.wf(),
                    self.signer_id == old(self).signer_id,
                    self.public_keys == old(self).public_keys,
                    path.len() >= 1 && path[0] == old(self).state && path.last() == self.state,
                    graph_path(path),
                    calm ==> (self.state == State::Idle && (forall|k: int|
                        0 <= k < responses@.len() ==> !(#[trigger] responses@[k].msg is DkgEnd))
                        && (forall|k: int| 0 <= k < outbounds@.len() ==> !(#[trigger] outbounds@[k] is DkgEnd))),
                decreases outbounds@.len(),
            {
                let ghost rest = outbounds@;
                let out = outbounds.remove(0);
                proof {
                    if calm {
                        assert(!(rest[0] is DkgEnd));
                        assert forall|k: int| 0 <= k < outbounds@.len() implies !(#[trigger] outbounds@[k] is DkgEnd) by {
                            assert(outbounds@[k] == rest[k + 1]);
                        }
                    }
                }
                let ghost consumed = produced@.len() - rest.len();
                let sig = self.network.sign_message(&self.network_private_key, &out);
                let ghost before_push = responses@;
                responses.push(Packet { sig, msg: out });
                proof {
                    assert(out == produced@[consumed]);
                    assert(produced@.take(consumed + 1) =~= produced@.take(consumed).push(out));
                    assert(packet_msgs(responses@) =~= packet_msgs(before_push).push(out));
                    assert(outbounds@ =~= produced@.skip(consumed + 1));
                }
            proof {
                assert(produced@.take(produced@.len() as int) =~= produced@);
            }
            }
            proof {
                if quiet && (forall|k: int| 0 <= k < i + 1 ==> !(#[trigger] messages@[k].msg is DkgBegin)) {
                    assert(!(messages@[i as int].msg is DkgBegin));
                    assert(was_quiet);
                }
            }
            i = i + 1;
        }
        proof {
            assert(old(self).batch_run(messages@, rounds, outs, *self, Ok(responses)));
        }
        Ok(responses)
    }
}

} // verus!
