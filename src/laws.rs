use vstd::prelude::*;
use crate::common::PolyCommitment;
use crate::signer::{comms_map, share_sources};

verus! {

/// The parties a sequence of `(party_id, commitment)` pairs speaks of.
pub open spec fn comms_parties(comms: Seq<(u32, PolyCommitment)>) -> Set<u32> {
    Set::new(|x: u32| exists|k: int| 0 <= k < comms.len() && #[trigger] comms[k].0 == x)
}

/// The parties stored by a sequence of commitments are the parties it names.
pub proof fn lemma_comms_map_dom(comms: Seq<(u32, PolyCommitment)>)
    ensures
        comms_map(comms).dom() == comms_parties(comms),
    decreases comms.len(),
{
    if comms.len() > 0 {
        let init = comms.drop_last();
        lemma_comms_map_dom(init);
        assert forall|x: u32| comms_parties(comms).contains(x) implies comms_map(comms).dom().contains(x) by {
            let k = choose|k: int| 0 <= k < comms.len() && #[trigger] comms[k].0 == x;
            if k < comms.len() - 1 {
                assert(init[k].0 == x);
            }
        }
        assert forall|x: u32| comms_map(comms).dom().contains(x) implies comms_parties(comms).contains(x) by {
            if x != comms.last().0 {
                let k = choose|k: int| 0 <= k < init.len() && #[trigger] init[k].0 == x;
                assert(comms[k].0 == x);
            } else {
                assert(comms[comms.len() - 1].0 == x);
            }
        }
        assert(comms_map(comms).dom() =~= comms_parties(comms));
    } else {
        assert(comms_map(comms).dom() =~= comms_parties(comms));
    }
}

/// Storing the commitments of a DkgPublicShares message keeps the number of
/// commitments within the number of parties, as long as the commitments
/// held before and the message speak only of the `parties` taking part.
pub proof fn lemma_commitments_bounded(
    held: Map<u32, (u32, Seq<u8>)>,
    comms: Seq<(u32, PolyCommitment)>,
    parties: Set<u32>,
)
    requires
        parties.finite(),
        held.dom().subset_of(parties),
        comms_parties(comms).subset_of(parties),
    ensures
        held.union_prefer_right(comms_map(comms)).dom().subset_of(parties),
        held.union_prefer_right(comms_map(comms)).len() <= parties.len(),
{
    lemma_comms_map_dom(comms);
    let m = held.union_prefer_right(comms_map(comms));
    assert(m.dom() =~= held.dom().union(comms_map(comms).dom()));
    vstd::set_lib::lemma_len_subset(m.dom(), parties);
}

/// Recording the sources of a DkgPrivateShares message keeps the number of
/// sources heard from within the number of parties, as long as the sources
/// heard before and the message speak only of the `parties` taking part.
pub proof fn lemma_decrypted_shares_bounded(
    heard: Set<u32>,
    shares: Seq<(u32, Vec<(u32, Vec<u8>)>)>,
    parties: Set<u32>,
)
    requires
        parties.finite(),
        heard.subset_of(parties),
        share_sources(shares).subset_of(parties),
    ensures
        heard.union(share_sources(shares)).subset_of(parties),
        heard.union(share_sources(shares)).len() <= parties.len(),
{
    vstd::set_lib::lemma_len_subset(heard.union(share_sources(shares)), parties);
}

/// Storing the commitments of the same DkgPublicShares message twice leaves
/// the same commitments as storing them once.
pub proof fn lemma_public_shares_idempotent(
    held: Map<u32, (u32, Seq<u8>)>,
    comms: Seq<(u32, PolyCommitment)>,
)
    ensures
        held.union_prefer_right(comms_map(comms)).union_prefer_right(comms_map(comms))
            == held.union_prefer_right(comms_map(comms)),
{
    assert(held.union_prefer_right(comms_map(comms)).union_prefer_right(comms_map(comms))
        =~= held.union_prefer_right(comms_map(comms)));
}

} // verus!
