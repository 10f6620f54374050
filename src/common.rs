use vstd::prelude::*;
use p256k1::scalar::Scalar;

verus! {

/// The polynomial commitment of one party, in its encoded form.
#[derive(Debug, Clone)]
pub struct PolyCommitment {
    /// the party that committed
    pub party_id: u32,
    /// the encoded commitment points
    pub poly: Vec<u8>,
}

impl PolyCommitment {
    /// A field-by-field copy.
    pub fn duplicate(&self) -> (r: PolyCommitment)
        ensures
            r@ == self@,
    {
        PolyCommitment { party_id: self.party_id, poly: self.poly.clone() }
    }
}

impl View for PolyCommitment {
    type V = (u32, Seq<u8>);

    open spec fn view(&self) -> (u32, Seq<u8>) {
        (self.party_id, self.poly@)
    }
}

/// A public nonce of one key, in its encoded form.
#[derive(Debug, Clone)]
pub struct PublicNonce {
    /// the encoded nonce points
    pub bytes: Vec<u8>,
}

impl PublicNonce {
    /// A field-by-field copy.
    pub fn duplicate(&self) -> (r: PublicNonce)
        ensures
            r@ == self@,
    {
        PublicNonce { bytes: self.bytes.clone() }
    }
}

impl View for PublicNonce {
    type V = Seq<u8>;

    open spec fn view(&self) -> Seq<u8> {
        self.bytes@
    }
}

/// The share of a signature computed by one party.
#[derive(Debug)]
pub struct SignatureShare {
    /// the party that computed the share
    pub id: u32,
    /// the share itself
    pub z_i: Scalar,
    /// the keys the share was computed with
    pub key_ids: Vec<u32>,
}

/// The network public keys of all participants, in compressed encoding.
///
/// Signers are looked up by `signer_id`, keys by 1-based `key_id`.
#[derive(Debug, Clone)]
pub struct PublicKeys {
    /// public key of each signer
    pub signers: Vec<(u32, Vec<u8>)>,
    /// public key of each key id
    pub key_ids: Vec<(u32, Vec<u8>)>,
}

/// Whether `id` is listed in `table`.
pub open spec fn has_key(table: Seq<(u32, Vec<u8>)>, id: u32) -> bool {
    exists|i: int| 0 <= i < table.len() && #[trigger] table[i].0 == id
}

/// The key listed first under `id` in `table`.
pub open spec fn key_for(table: Seq<(u32, Vec<u8>)>, id: u32) -> Option<Seq<u8>>
    decreases table.len(),
{
    if table.len() == 0 {
        None
    } else if table[0].0 == id {
        Some(table[0].1@)
    } else {
        key_for(table.subrange(1, table.len() as int), id)
    }
}

/// The first entry for `id` in `table`.
pub fn lookup_key(table: &Vec<(u32, Vec<u8>)>, id: u32) -> (r: Option<&Vec<u8>>)
    ensures
        r is Some <==> has_key(table@, id),
        r is Some <==> key_for(table@, id) is Some,
        r matches Some(k) ==> key_for(table@, id) == Some(k@),
{
    let mut i: usize = 0;
    assert(table@.subrange(0, table@.len() as int) =~= table@);
    while i < table.len()
        invariant
            0 <= i <= table@.len(),
            forall|j: int| 0 <= j < i ==> table@[j].0 != id,
            key_for(table@, id) == key_for(table@.subrange(i as int, table@.len() as int), id),
        decreases table@.len() - i,
    {
        let ghost rest = table@.subrange(i as int, table@.len() as int);
        assert(rest[0] == table@[i as int]);
        if table[i].0 == id {
            return Some(&table[i].1);
        }
        assert(rest.subrange(1, rest.len() as int) =~= table@.subrange(i + 1, table@.len() as int));
        i = i + 1;
    }
    assert(table@.subrange(i as int, table@.len() as int).len() == 0);
    None
}

} // verus!
