use std::collections::BTreeMap;

use frost_signer::{
    accept_share, check_transition, decode_public_key, encrypt_dealt, encryption_plan, render_ids,
    signing_call, contains_id, dkg_end_status, key_ids_of, lookup_key,
    nonces_of, signer_ids_of, DkgBegin, DkgPrivateShares, DkgPublicShares, DkgStatus, Error,
    Message, Network, NonceRequest, NonceResponse, Packet, PolyCommitment, PublicKeys,
    PublicNonce, SignatureShare, SignatureShareRequest, Signer, SigningRound, State,
};
use p256k1::point::Point;
use p256k1::scalar::Scalar;

const TAG: u8 = 0xAA;

/// A stand-in for the cryptographic signer: deterministic commitments,
/// shares and nonces derived from the key ids.
struct TestSigner {
    id: u32,
    key_ids: Vec<u32>,
    num_keys: u32,
    nonce_counter: u8,
    taproot_calls: u32,
}

impl Signer for TestSigner {
    fn new(party_id: u32, key_ids: &[u32], _num_signers: u32, num_keys: u32, _threshold: u32) -> Self {
        TestSigner { id: party_id, key_ids: key_ids.to_vec(), num_keys, nonce_counter: 0, taproot_calls: 0 }
    }
    fn get_id(&self) -> u32 {
        self.id
    }
    fn get_key_ids(&self) -> Vec<u32> {
        self.key_ids.clone()
    }
    fn get_num_parties(&self) -> u32 {
        self.num_keys
    }
    fn get_poly_commitments(&self) -> Vec<PolyCommitment> {
        self.key_ids.iter().map(|k| PolyCommitment { party_id: *k, poly: vec![*k as u8; 4] }).collect()
    }
    fn reset_polys(&mut self) {}
    fn get_shares(&self) -> Vec<(u32, Vec<(u32, Scalar)>)> {
        self.key_ids
            .iter()
            .map(|k| (*k, (0..self.num_keys).map(|d| (d, Scalar::from(100 * k + d))).collect()))
            .collect()
    }
    fn compute_secrets(
        &mut self,
        shares: &BTreeMap<u32, BTreeMap<u32, Scalar>>,
        polys: &BTreeMap<u32, PolyCommitment>,
    ) -> Result<(), Vec<u32>> {
        let missing: Vec<u32> = polys.keys().filter(|p| !shares.contains_key(p)).copied().collect();
        if missing.is_empty() {
            Ok(())
        } else {
            Err(missing)
        }
    }
    fn gen_nonces(&mut self) -> Vec<PublicNonce> {
        self.nonce_counter += 1;
        self.key_ids.iter().map(|k| PublicNonce { bytes: vec![*k as u8, self.nonce_counter] }).collect()
    }
    fn sign(&self, _msg: &[u8], _signer_ids: &[u32], _key_ids: &[u32], _nonces: &[PublicNonce]) -> Vec<SignatureShare> {
        self.key_ids
            .iter()
            .map(|k| SignatureShare { id: *k, z_i: Scalar::from(*k), key_ids: vec![*k] })
            .collect()
    }
    fn sign_taproot(
        &self,
        _msg: &[u8],
        _signer_ids: &[u32],
        _key_ids: &[u32],
        _nonces: &[PublicNonce],
        merkle_root: Option<[u8; 32]>,
    ) -> Vec<SignatureShare> {
        let marker = if merkle_root.is_some() { 1000 } else { 2000 };
        self.key_ids
            .iter()
            .map(|k| SignatureShare { id: *k, z_i: Scalar::from(marker + *k), key_ids: vec![*k] })
            .collect()
    }
}

/// A stand-in for the network layer: the shared secret is the compressed
/// Diffie-Hellman point, and a ciphertext is a tag followed by the plaintext
/// masked with two bytes of the secret.
struct TestNetwork;

fn public_key(owner: u32) -> Vec<u8> {
    Point::from(Scalar::from(owner)).compress().data.to_vec()
}

fn secret_between(a: u32, b: u32) -> Vec<u8> {
    (Point::from(Scalar::from(a)) * Scalar::from(b)).compress().data.to_vec()
}

impl Network for TestNetwork {
    fn shared_secret(&self, private_key: &Scalar, public_key: &Point) -> Vec<u8> {
        (*public_key * *private_key).compress().data.to_vec()
    }
    fn encrypt(&mut self, secret: &Vec<u8>, plaintext: &Vec<u8>) -> Vec<u8> {
        let mask = secret[0] ^ secret[1];
        let mut out = vec![TAG];
        out.extend(plaintext.iter().map(|b| b ^ mask));
        out
    }
    fn decrypt(&self, secret: &Vec<u8>, ciphertext: &Vec<u8>) -> Option<Vec<u8>> {
        if ciphertext.first() != Some(&TAG) {
            return None;
        }
        let mask = secret[0] ^ secret[1];
        Some(ciphertext[1..].iter().map(|b| b ^ mask).collect())
    }
    fn sign_message(&self, _private_key: &Scalar, _msg: &Message) -> Vec<u8> {
        vec![1, 2, 3]
    }
}

fn public_keys() -> PublicKeys {
    PublicKeys {
        signers: vec![(1, public_key(1)), (2, public_key(2)), (3, public_key(3))],
        key_ids: vec![(1, public_key(1)), (2, public_key(2)), (3, public_key(3))],
    }
}

fn new_round() -> SigningRound<TestSigner, TestNetwork> {
    SigningRound::new(2, 3, 3, 1, vec![1], Scalar::from(1u32), public_keys(), TestNetwork)
}

fn packet(msg: Message) -> Packet {
    Packet { sig: vec![], msg }
}

fn public_shares_from(signer_id: u32) -> Message {
    Message::DkgPublicShares(DkgPublicShares {
        dkg_id: 7,
        signer_id,
        comms: vec![(signer_id, PolyCommitment { party_id: signer_id, poly: vec![signer_id as u8; 4] })],
    })
}

/// The private shares that `signer_id` sends to key 1, encrypted as the test
/// network does, optionally with a broken tag.
fn private_shares_from(signer_id: u32, corrupt: bool) -> Message {
    let secret = secret_between(1, signer_id);
    let mut net = TestNetwork;
    let mut ct = net.encrypt(&secret, &Scalar::from(100 * signer_id + 1).to_bytes().to_vec());
    if corrupt {
        ct[0] = 0;
    }
    Message::DkgPrivateShares(DkgPrivateShares { dkg_id: 7, signer_id, shares: vec![(signer_id, vec![(1, ct)])] })
}

fn own_private_shares(round: &mut SigningRound<TestSigner, TestNetwork>) -> Message {
    let out = round.process_inbound_messages(&[packet(Message::DkgPrivateBegin(DkgBegin { dkg_id: 7 }))]).unwrap();
    assert_eq!(out.len(), 1);
    match &out[0].msg {
        Message::DkgPrivateShares(p) => Message::DkgPrivateShares(p.clone()),
        _ => panic!("expected DkgPrivateShares"),
    }
}

fn run_dkg(corrupt_from_two: bool) -> (SigningRound<TestSigner, TestNetwork>, Vec<Packet>) {
    let mut round = new_round();
    let out = round.process_inbound_messages(&[packet(Message::DkgBegin(DkgBegin { dkg_id: 7 }))]).unwrap();
    assert_eq!(out.len(), 1);
    assert!(matches!(&out[0].msg, Message::DkgPublicShares(p) if p.dkg_id == 7 && p.signer_id == 1));
    assert_eq!(round.state, State::DkgPublicGather);
    let out = round
        .process_inbound_messages(&[
            packet(public_shares_from(1)),
            packet(public_shares_from(2)),
            packet(public_shares_from(3)),
        ])
        .unwrap();
    assert!(out.is_empty());
    assert_eq!(round.state, State::DkgPrivateDistribute);
    let own = own_private_shares(&mut round);
    assert_eq!(round.state, State::DkgPrivateGather);
    let out = round
        .process_inbound_messages(&[
            packet(own),
            packet(private_shares_from(2, corrupt_from_two)),
            packet(private_shares_from(3, false)),
        ])
        .unwrap();
    (round, out)
}

#[test]
fn dkg_round_succeeds() {
    let (round, out) = run_dkg(false);
    assert_eq!(out.len(), 1);
    match &out[0].msg {
        Message::DkgEnd(e) => {
            assert_eq!(e.dkg_id, 7);
            assert_eq!(e.signer_id, 1);
            assert!(matches!(e.status, DkgStatus::Success));
        }
        _ => panic!("expected DkgEnd"),
    }
    assert_eq!(out[0].sig, vec![1, 2, 3]);
    assert_eq!(round.state, State::Idle);
    assert!(round.invalid_private_shares.is_empty());
    assert_eq!(round.decrypted_shares.len(), 3);
    for (_, shares) in &round.decrypted_shares {
        assert!(shares.keys().all(|k| *k == 1));
    }
}

#[test]
fn dkg_round_fails_on_corrupted_share() {
    let (round, out) = run_dkg(true);
    assert_eq!(out.len(), 1);
    match &out[0].msg {
        Message::DkgEnd(e) => {
            assert_eq!(e.dkg_id, 7);
            assert_eq!(e.signer_id, 1);
            match &e.status {
                DkgStatus::Failure(text) => assert_eq!(text, "[2]"),
                DkgStatus::Success => panic!("expected failure"),
            }
        }
        _ => panic!("expected DkgEnd"),
    }
    assert_eq!(round.state, State::Idle);
    assert_eq!(round.invalid_private_shares, vec![2]);
}

#[test]
fn dkg_end_emitted_once() {
    let (mut round, out) = run_dkg(false);
    assert_eq!(out.iter().filter(|p| matches!(p.msg, Message::DkgEnd(_))).count(), 1);
    let again = round.process_inbound_messages(&[packet(private_shares_from(3, false))]).unwrap();
    assert!(again.is_empty());
    assert_eq!(round.state, State::Idle);
}

#[test]
fn nonce_request_echoes_identifiers() {
    let mut round = new_round();
    let req = NonceRequest { dkg_id: 7, sign_id: 4, sign_iter_id: 1 };
    let out = round.process_inbound_messages(&[packet(Message::NonceRequest(req))]).unwrap();
    assert_eq!(out.len(), 1);
    match &out[0].msg {
        Message::NonceResponse(nr) => {
            assert_eq!((nr.dkg_id, nr.sign_id, nr.sign_iter_id, nr.signer_id), (7, 4, 1, 1));
            assert_eq!(nr.key_ids, vec![1]);
            assert_eq!(nr.nonces.len(), 1);
        }
        _ => panic!("expected NonceResponse"),
    }
}

#[test]
fn nonces_are_fresh_per_request() {
    let mut round = new_round();
    let req = NonceRequest { dkg_id: 7, sign_id: 4, sign_iter_id: 1 };
    let a = round.process(&Message::NonceRequest(req)).unwrap();
    let b = round.process(&Message::NonceRequest(req)).unwrap();
    match (&a[0], &b[0]) {
        (Message::NonceResponse(x), Message::NonceResponse(y)) => assert_ne!(x.nonces[0].bytes, y.nonces[0].bytes),
        _ => panic!("expected NonceResponse"),
    }
}

fn nonce_response(signer_id: u32) -> NonceResponse {
    NonceResponse {
        dkg_id: 7,
        sign_id: 4,
        sign_iter_id: 1,
        signer_id,
        key_ids: vec![signer_id],
        nonces: vec![PublicNonce { bytes: vec![signer_id as u8] }],
    }
}

fn sign_request(quorum: &[u32], is_taproot: bool, merkle_root: Option<[u8; 32]>) -> SignatureShareRequest {
    SignatureShareRequest {
        dkg_id: 7,
        sign_id: 4,
        sign_iter_id: 1,
        nonce_responses: quorum.iter().map(|s| nonce_response(*s)).collect(),
        message: b"hello".to_vec(),
        is_taproot,
        merkle_root,
    }
}

#[test]
fn signature_share_for_quorum_member() {
    let mut round = new_round();
    let out = round.process_inbound_messages(&[packet(Message::SignatureShareRequest(sign_request(&[1, 2], false, None)))]).unwrap();
    assert_eq!(out.len(), 1);
    match &out[0].msg {
        Message::SignatureShareResponse(sr) => {
            assert_eq!((sr.dkg_id, sr.sign_id, sr.sign_iter_id, sr.signer_id), (7, 4, 1, 1));
            assert_eq!(sr.signature_shares.len(), 1);
            assert!(sr.signature_shares[0].z_i == Scalar::from(1u32));
        }
        _ => panic!("expected SignatureShareResponse"),
    }
    let out = round.process_inbound_messages(&[packet(Message::SignatureShareRequest(sign_request(&[2, 3], false, None)))]).unwrap();
    assert!(out.is_empty());
    let out = round.process(&Message::SignatureShareRequest(sign_request(&[1, 2, 1], false, None))).unwrap();
    assert_eq!(out.len(), 1);
}

#[test]
fn signature_share_taproot_path() {
    let mut round = new_round();
    let out = round.process(&Message::SignatureShareRequest(sign_request(&[1, 2], true, Some([0u8; 32])))).unwrap();
    assert_eq!(out.len(), 1);
    match &out[0] {
        Message::SignatureShareResponse(sr) => {
            assert_eq!(sr.signature_shares.len(), 1);
            assert!(sr.signature_shares[0].z_i == Scalar::from(1001u32));
        }
        _ => panic!("expected SignatureShareResponse"),
    }
}

#[test]
fn bad_state_change_from_idle() {
    let mut round = new_round();
    assert_eq!(
        round.move_to(State::DkgPrivateDistribute),
        Err(Error::BadStateChange("Idle → DkgPrivateDistribute".to_string()))
    );
    assert_eq!(round.state, State::Idle);
    let err = round.process(&Message::DkgPrivateBegin(DkgBegin { dkg_id: 7 })).unwrap_err();
    assert_eq!(err, Error::BadStateChange("Idle → DkgPrivateGather".to_string()));
}

#[test]
fn transition_graph() {
    assert!(check_transition(State::Idle, State::DkgPublicDistribute).is_ok());
    assert!(check_transition(State::DkgPublicGather, State::DkgPublicDistribute).is_ok());
    assert!(check_transition(State::DkgPrivateDistribute, State::DkgPublicDistribute).is_ok());
    assert!(check_transition(State::DkgPrivateGather, State::DkgPublicDistribute).is_err());
    assert!(check_transition(State::DkgPublicDistribute, State::DkgPublicGather).is_ok());
    assert!(check_transition(State::DkgPublicGather, State::DkgPrivateDistribute).is_ok());
    assert!(check_transition(State::DkgPrivateDistribute, State::DkgPrivateGather).is_ok());
    assert!(check_transition(State::DkgPrivateGather, State::Idle).is_ok());
    for prev in [State::Idle, State::DkgPublicDistribute, State::DkgPublicGather, State::DkgPrivateDistribute, State::SignGather, State::Signed] {
        assert_eq!(
            check_transition(prev, State::Idle),
            Err(Error::BadStateChange(format!("{} → Idle", prev.name())))
        );
    }
    assert!(check_transition(State::Idle, State::SignGather).is_ok());
    assert!(check_transition(State::SignGather, State::Signed).is_ok());
    assert_eq!(
        check_transition(State::Signed, State::DkgPrivateGather),
        Err(Error::BadStateChange("Signed → DkgPrivateGather".to_string()))
    );
}

#[test]
fn dkg_begin_clears_round() {
    let (mut round, _) = run_dkg(true);
    round.public_nonces.push(PublicNonce { bytes: vec![9] });
    let out = round.process(&Message::DkgBegin(DkgBegin { dkg_id: 8 })).unwrap();
    assert_eq!(out.len(), 1);
    assert_eq!(round.dkg_id, 8);
    assert!(round.commitments.is_empty());
    assert!(round.decrypted_shares.is_empty());
    assert!(round.invalid_private_shares.is_empty());
    assert!(round.public_nonces.is_empty());
    assert_eq!(round.state, State::DkgPublicGather);
}

#[test]
fn dkg_begin_refused_while_gathering_private_shares() {
    let mut round = new_round();
    round.state = State::DkgPrivateGather;
    let err = round.process(&Message::DkgBegin(DkgBegin { dkg_id: 9 })).unwrap_err();
    assert_eq!(err, Error::BadStateChange("DkgPrivateGather → DkgPublicDistribute".to_string()));
}

#[test]
fn replayed_public_shares_are_idempotent() {
    let mut round = new_round();
    let msg = DkgPublicShares {
        dkg_id: 7,
        signer_id: 2,
        comms: vec![
            (2, PolyCommitment { party_id: 2, poly: vec![1] }),
            (2, PolyCommitment { party_id: 2, poly: vec![2] }),
        ],
    };
    round.dkg_public_share(&msg).unwrap();
    let once: Vec<(u32, Vec<u8>)> = round.commitments.iter().map(|(k, c)| (*k, c.poly.clone())).collect();
    round.dkg_public_share(&msg).unwrap();
    let twice: Vec<(u32, Vec<u8>)> = round.commitments.iter().map(|(k, c)| (*k, c.poly.clone())).collect();
    assert_eq!(once, vec![(2, vec![2])]);
    assert_eq!(once, twice);
}

#[test]
fn private_shares_from_unknown_sender() {
    let mut round = new_round();
    let msg = DkgPrivateShares { dkg_id: 7, signer_id: 9, shares: vec![(9, vec![(1, vec![TAG])])] };
    assert_eq!(round.dkg_private_shares(&msg).unwrap_err(), Error::InvalidPartyID);
    assert!(round.decrypted_shares.is_empty());
}

#[test]
fn private_shares_for_other_keys_still_count() {
    let mut round = new_round();
    let msg = DkgPrivateShares { dkg_id: 7, signer_id: 2, shares: vec![(2, vec![(3, vec![0])])] };
    assert!(round.dkg_private_shares(&msg).unwrap().is_empty());
    assert_eq!(round.decrypted_shares.len(), 1);
    assert!(round.decrypted_shares[&2].is_empty());
    assert!(round.invalid_private_shares.is_empty());
}

#[test]
fn private_begin_encrypts_each_share() {
    let mut round = new_round();
    round.state = State::DkgPrivateDistribute;
    let out = round.process(&Message::DkgPrivateBegin(DkgBegin { dkg_id: 7 })).unwrap();
    match &out[0] {
        Message::DkgPrivateShares(p) => {
            assert_eq!(p.shares.len(), 1);
            assert_eq!(p.shares[0].0, 1);
            let row = &p.shares[0].1;
            assert_eq!(row.iter().map(|(d, _)| *d).collect::<Vec<u32>>(), vec![0, 1, 2]);
            // destination 0 goes to key 1, listed with this signer's own key
            let plain = TestNetwork.decrypt(&secret_between(1, 1), &row[0].1).unwrap();
            assert_eq!(plain.len(), 32);
            assert!(Scalar::try_from(&plain[..]).unwrap() == Scalar::from(100u32));
        }
        _ => panic!("expected DkgPrivateShares"),
    }
    assert_eq!(round.state, State::DkgPrivateGather);
}

#[test]
fn private_begin_with_unknown_key() {
    let keys = PublicKeys { signers: vec![(1, public_key(1))], key_ids: vec![(1, public_key(1))] };
    let mut round: SigningRound<TestSigner, TestNetwork> =
        SigningRound::new(2, 3, 3, 1, vec![1], Scalar::from(1u32), keys, TestNetwork);
    round.state = State::DkgPrivateDistribute;
    assert_eq!(round.process(&Message::DkgPrivateBegin(DkgBegin { dkg_id: 7 })).unwrap_err(), Error::InvalidPartyID);
    assert_eq!(round.state, State::DkgPrivateDistribute);
}

#[test]
fn completion_predicates() {
    let mut round = new_round();
    assert!(!round.public_shares_done());
    round.state = State::DkgPublicGather;
    for id in 1..=3u32 {
        round.commitments.insert(id, PolyCommitment { party_id: id, poly: vec![] });
    }
    assert!(round.public_shares_done());
    assert!(!round.can_dkg_end());
    round.state = State::DkgPrivateGather;
    for id in 1..=3u32 {
        round.decrypted_shares.insert(id, BTreeMap::new());
    }
    assert!(round.can_dkg_end());
}

#[test]
fn new_round_starts_idle() {
    let round = new_round();
    assert_eq!(round.state, State::Idle);
    assert_eq!((round.dkg_id, round.sign_id, round.sign_iter_id), (0, 1, 1));
    assert_eq!(round.signer.key_ids, vec![1]);
    assert_eq!(round.key_ids, vec![1]);
    assert_eq!(round.num_parties, 3);
}

#[test]
fn accept_share_outcomes() {
    let mut shares: BTreeMap<u32, Scalar> = BTreeMap::new();
    let mut invalid: Vec<u32> = vec![];
    accept_share(&mut shares, &mut invalid, 2, 1, &Some(Scalar::from(5u32).to_bytes().to_vec()));
    assert!(shares[&1] == Scalar::from(5u32));
    assert!(invalid.is_empty());
    accept_share(&mut shares, &mut invalid, 3, 1, &Some(vec![0u8; 31]));
    accept_share(&mut shares, &mut invalid, 4, 1, &None);
    assert_eq!(invalid, vec![3, 4]);
    assert_eq!(shares.len(), 1);
}

#[test]
fn dkg_end_status_cases() {
    assert!(matches!(dkg_end_status(&vec![], Ok(())), DkgStatus::Success));
    match dkg_end_status(&vec![2, 3], Ok(())) {
        DkgStatus::Failure(t) => assert_eq!(t, "[2, 3]"),
        DkgStatus::Success => panic!("expected failure"),
    }
    assert_eq!(render_ids(&vec![]), "[]");
    assert_eq!(render_ids(&vec![2]), "[2]");
    assert_eq!(render_ids(&vec![10, 4294967295, 0]), "[10, 4294967295, 0]");
    match dkg_end_status(&vec![], Err(vec![5])) {
        DkgStatus::Failure(t) => assert_eq!(t, "[5]"),
        DkgStatus::Success => panic!("expected failure"),
    }
}

#[test]
fn lookups() {
    let keys = public_keys();
    assert_eq!(lookup_key(&keys.signers, 2), Some(&public_key(2)));
    let twice = vec![(4, vec![1]), (4, vec![2])];
    assert_eq!(lookup_key(&twice, 4), Some(&vec![1]));
    assert!(decode_public_key(&public_key(3)).is_some());
    assert!(decode_public_key(&vec![2]).is_none());
    let mut beyond_field = vec![2u8];
    beyond_field.extend([0xFFu8; 32]);
    assert!(decode_public_key(&beyond_field).is_none());
    assert_eq!(lookup_key(&keys.signers, 4), None);
    assert!(contains_id(&vec![1, 5], 5));
    assert!(!contains_id(&vec![1, 5], 4));
}

#[test]
fn quorum_flattening() {
    let mut req = sign_request(&[3, 1], false, None);
    req.nonce_responses[0].key_ids = vec![3, 4];
    assert_eq!(signer_ids_of(&req), vec![3, 1]);
    assert_eq!(key_ids_of(&req), vec![3, 4, 1]);
    let nonces: Vec<Vec<u8>> = nonces_of(&req).into_iter().map(|n| n.bytes).collect();
    assert_eq!(nonces, vec![vec![3], vec![1]]);
}

#[test]
fn state_names() {
    assert_eq!(State::DkgPublicGather.name(), "DkgPublicGather");
    assert_eq!(State::Signed.name(), "Signed");
}

#[test]
fn private_shares_from_sender_with_bad_key() {
    let keys = PublicKeys { signers: vec![(1, public_key(1)), (2, vec![2])], key_ids: vec![(1, public_key(1))] };
    let mut round: SigningRound<TestSigner, TestNetwork> =
        SigningRound::new(2, 3, 3, 1, vec![1], Scalar::from(1u32), keys, TestNetwork);
    let msg = DkgPrivateShares { dkg_id: 7, signer_id: 2, shares: vec![(2, vec![(1, vec![TAG])])] };
    assert_eq!(round.dkg_private_shares(&msg).unwrap_err(), Error::InvalidPartyID);
    assert!(round.decrypted_shares.is_empty());
}

#[test]
fn encrypt_dealt_keeps_layout() {
    let keys = public_keys().key_ids;
    let mut net = TestNetwork;
    let dealt = vec![(1, vec![(2, Scalar::from(5u32)), (0, Scalar::from(6u32))]), (4, vec![])];
    let out = encrypt_dealt(&mut net, &Scalar::from(1u32), &keys, &dealt).unwrap();
    assert_eq!(out.len(), 2);
    assert_eq!((out[0].0, out[1].0), (1, 4));
    assert_eq!(out[0].1.iter().map(|(d, _)| *d).collect::<Vec<u32>>(), vec![2, 0]);
    assert!(out[1].1.is_empty());
    let plain = TestNetwork.decrypt(&secret_between(3, 1), &out[0].1[0].1).unwrap();
    assert!(Scalar::try_from(&plain[..]).unwrap() == Scalar::from(5u32));
    let too_far = vec![(1, vec![(3, Scalar::from(5u32))])];
    assert_eq!(encrypt_dealt(&mut net, &Scalar::from(1u32), &keys, &too_far).unwrap_err(), Error::InvalidPartyID);
    let overflow = vec![(1, vec![(u32::MAX, Scalar::from(5u32))])];
    assert_eq!(encrypt_dealt(&mut net, &Scalar::from(1u32), &keys, &overflow).unwrap_err(), Error::InvalidPartyID);
}

#[test]
fn no_second_dkg_end_while_idle() {
    let (mut round, _) = run_dkg(false);
    let out = round
        .process_inbound_messages(&[
            packet(public_shares_from(2)),
            packet(private_shares_from(2, false)),
            packet(Message::NonceRequest(NonceRequest { dkg_id: 7, sign_id: 1, sign_iter_id: 1 })),
        ])
        .unwrap();
    assert_eq!(out.len(), 1);
    assert!(out.iter().all(|p| !matches!(p.msg, Message::DkgEnd(_))));
    assert_eq!(round.state, State::Idle);
}

#[test]
fn record_private_shares_exactly() {
    let mut round = new_round();
    let shares = vec![
        (2, vec![(1, vec![]), (3, vec![]), (1, vec![])]),
        (3, vec![(1, vec![])]),
    ];
    let plaintexts = vec![
        vec![None, None, Some(Scalar::from(9u32).to_bytes().to_vec())],
        vec![Some(vec![1, 2, 3])],
    ];
    round.record_private_shares(&shares, &plaintexts);
    assert_eq!(round.invalid_private_shares, vec![2, 3]);
    assert!(round.decrypted_shares[&2][&1] == Scalar::from(9u32));
    assert_eq!(round.decrypted_shares[&2].len(), 1);
    assert!(round.decrypted_shares[&3].is_empty());
}

#[test]
fn encryption_plan_uses_next_key_id() {
    let keys = public_keys().key_ids;
    let dealt = vec![(1, vec![(2, Scalar::from(5u32)), (0, Scalar::from(6u32))])];
    let plan = encryption_plan(&keys, &dealt).unwrap();
    assert_eq!(plan[0].0, 1);
    assert_eq!(plan[0].1[0].0, 2);
    assert_eq!(plan[0].1[0].1, public_key(3));
    assert_eq!(plan[0].1[0].2, Scalar::from(5u32).to_bytes().to_vec());
    assert_eq!(plan[0].1[1].1, public_key(1));
    assert_eq!(encryption_plan(&keys, &vec![(1, vec![(3, Scalar::from(1u32))])]).unwrap_err(), Error::InvalidPartyID);
}

#[test]
fn signing_call_follows_request() {
    let mut req = sign_request(&[3, 1], true, Some([7u8; 32]));
    req.nonce_responses[0].key_ids = vec![3, 4];
    let call = signing_call(&req, 1).unwrap();
    assert_eq!(call.signer_ids, vec![3, 1]);
    assert_eq!(call.key_ids, vec![3, 4, 1]);
    assert_eq!(call.nonces.len(), 2);
    assert!(call.taproot);
    assert_eq!(call.merkle_root, Some([7u8; 32]));
    assert!(signing_call(&req, 2).is_none());
    let plain = signing_call(&sign_request(&[1], false, None), 1).unwrap();
    assert!(!plain.taproot);
    assert_eq!(plain.merkle_root, None);
}
