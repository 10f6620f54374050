use vstd::prelude::*;
use crate::common::PublicNonce;
use crate::net::{NonceResponse, SignatureShareRequest};
use crate::shares::contains_id;

verus! {

/// The signer ids of a quorum, in the order given.
pub open spec fn quorum_ids(nrs: Seq<NonceResponse>) -> Seq<u32> {
    nrs.map_values(|nr: NonceResponse| nr.signer_id)
}

/// The key ids of a quorum, flattened in the order given.
pub open spec fn quorum_key_ids(nrs: Seq<NonceResponse>) -> Seq<u32>
    decreases nrs.len(),
{
    if nrs.len() == 0 {
        Seq::empty()
    } else {
        quorum_key_ids(nrs.drop_last()) + nrs.last().key_ids@
    }
}

/// The public nonces of a quorum, flattened in the order given.
pub open spec fn quorum_nonces(nrs: Seq<NonceResponse>) -> Seq<Seq<u8>>
    decreases nrs.len(),
{
    if nrs.len() == 0 {
        Seq::empty()
    } else {
        quorum_nonces(nrs.drop_last()) + nrs.last().nonces@.map_values(|n: PublicNonce| n@)
    }
}

/// The signer ids of the request's quorum.
pub fn signer_ids_of(req: &SignatureShareRequest) -> (r: Vec<u32>)
    ensures
        r@ == quorum_ids(req.nonce_responses@),
{
    let nrs = &req.nonce_responses;
    let mut r: Vec<u32> = Vec::new();
    let mut i: usize = 0;
    while i < nrs.len()
        invariant
            0 <= i <= nrs@.len(),
            r@ == quorum_ids(nrs@.take(i as int)),
        decreases nrs@.len() - i,
    {
        r.push(nrs[i].signer_id);
        assert(quorum_ids(nrs@.take(i + 1)) =~= quorum_ids(nrs@.take(i as int)).push(nrs@[i as int].signer_id));
        i = i + 1;
    }
    assert(nrs@.take(nrs@.len() as int) == nrs@);
    r
}

/// The key ids of the request's quorum, flattened in order.
pub fn key_ids_of(req: &SignatureShareRequest) -> (r: Vec<u32>)
    ensures
        r@ == quorum_key_ids(req.nonce_responses@),
{
    let nrs = &req.nonce_responses;
    let mut r: Vec<u32> = Vec::new();
    let mut i: usize = 0;
    while i < nrs.len()
        invariant
            0 <= i <= nrs@.len(),
            r@ == quorum_key_ids(nrs@.take(i as int)),
        decreases nrs@.len() - i,
    {
        let ids = &nrs[i].key_ids;
        let ghost base = r@;
        let mut j: usize = 0;
        while j < ids.len()
            invariant
                0 <= j <= ids@.len(),
                r@ == base + ids@.take(j as int),
            decreases ids@.len() - j,
        {
            r.push(ids[j]);
            assert(ids@.take(j + 1) == ids@.take(j as int).push(ids@[j as int]));
            assert(r@ =~= base + ids@.take(j + 1));
            j = j + 1;
        }
        assert(ids@.take(ids@.len() as int) == ids@);
        assert(nrs@.take(i + 1).drop_last() == nrs@.take(i as int));
        i = i + 1;
    }
    assert(nrs@.take(nrs@.len() as int) == nrs@);
    r
}

/// The public nonces of the request's quorum, flattened in order.
pub fn nonces_of(req: &SignatureShareRequest) -> (r: Vec<PublicNonce>)
    ensures
        r@.map_values(|n: PublicNonce| n@) == quorum_nonces(req.nonce_responses@),
{
    let nrs = &req.nonce_responses;
    let mut r: Vec<PublicNonce> = Vec::new();
    let mut i: usize = 0;
    while i < nrs.len()
        invariant
            0 <= i <= nrs@.len(),
            r@.map_values(|n: PublicNonce| n@) == quorum_nonces(nrs@.take(i as int)),
        decreases nrs@.len() - i,
    {
        let ns = &nrs[i].nonces;
        let ghost base = r@.map_values(|n: PublicNonce| n@);
        let mut j: usize = 0;
        while j < ns.len()
            invariant
                0 <= j <= ns@.len(),
                r@.map_values(|n: PublicNonce| n@) == base + ns@.take(j as int).map_values(
                    |n: PublicNonce| n@,
                ),
            decreases ns@.len() - j,
        {
            let ghost prev = r@;
            let n = ns[j].duplicate();
            r.push(n);
            assert(ns@.take(j + 1) == ns@.take(j as int).push(ns@[j as int]));
            assert(r@ == prev.push(n));
            assert(r@.map_values(|n: PublicNonce| n@) =~= prev.map_values(|n: PublicNonce| n@).push(ns@[j as int]@));
            assert(r@.map_values(|n: PublicNonce| n@) =~= base + ns@.take(j + 1).map_values(
                |n: PublicNonce| n@,
            ));
            j = j + 1;
        }
        assert(ns@.take(ns@.len() as int) == ns@);
        assert(nrs@.take(i + 1).drop_last() == nrs@.take(i as int));
        i = i + 1;
    }
    assert(nrs@.take(nrs@.len() as int) == nrs@);
    r
}

/// The arguments of the signing call that a request asks of one signer.
pub struct SigningCall {
    /// the signer ids of the quorum, in order
    pub signer_ids: Vec<u32>,
    /// the key ids of the quorum, flattened in order
    pub key_ids: Vec<u32>,
    /// the public nonces of the quorum, flattened in order
    pub nonces: Vec<PublicNonce>,
    /// whether to sign for the key tweaked by `merkle_root`
    pub taproot: bool,
    /// the taproot merkle root, if any
    pub merkle_root: Option<[u8; 32]>,
}

/// The signing call that `req` asks of signer `signer_id`: none when the
/// signer is not in the quorum, else one over the flattened quorum, taproot
/// with the request's merkle root when the request says so.
pub fn signing_call(req: &SignatureShareRequest, signer_id: u32) -> (r: Option<SigningCall>)
    ensures
        r is Some <==> quorum_ids(req.nonce_responses@).contains(signer_id),
        r matches Some(c) ==> {
            &&& c.signer_ids@ == quorum_ids(req.nonce_responses@)
            &&& c.key_ids@ == quorum_key_ids(req.nonce_responses@)
            &&& c.nonces@.map_values(|n: PublicNonce| n@) == quorum_nonces(req.nonce_responses@)
            &&& c.taproot == req.is_taproot
            &&& c.merkle_root == req.merkle_root
        },
{
    let signer_ids = signer_ids_of(req);
    if !contains_id(&signer_ids, signer_id) {
        return None;
    }
    Some(
        SigningCall {
            signer_ids,
            key_ids: key_ids_of(req),
            nonces: nonces_of(req),
            taproot: req.is_taproot,
            merkle_root: req.merkle_root,
        },
    )
}

} // verus!
