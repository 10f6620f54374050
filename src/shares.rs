use vstd::prelude::*;
use vstd::string::*;
use std::collections::BTreeMap;
use p256k1::scalar::Scalar;
use crate::net::DkgStatus;
use crate::scalar::parse_scalar;

verus! {

broadcast use vstd::std_specs::btree::group_btree_axioms, vstd::laws_cmp::group_laws_cmp;

/// The decimal digit `d`.
pub open spec fn digit_text(d: nat) -> Seq<char> {
    if d == 0 { "0"@ } else if d == 1 { "1"@ } else if d == 2 { "2"@ } else if d == 3 { "3"@ }
    else if d == 4 { "4"@ } else if d == 5 { "5"@ } else if d == 6 { "6"@ } else if d == 7 { "7"@ }
    else if d == 8 { "8"@ } else { "9"@ }
}

/// The decimal text of `n`, without leading zeros.
pub open spec fn decimal(n: nat) -> Seq<char>
    decreases n,
{
    if n < 10 {
        digit_text(n)
    } else {
        decimal(n / 10) + digit_text(n % 10)
    }
}

/// The decimal texts of `ids`, separated by `", "`.
pub open spec fn ids_joined(ids: Seq<u32>) -> Seq<char>
    decreases ids.len(),
{
    if ids.len() == 0 {
        Seq::empty()
    } else if ids.len() == 1 {
        decimal(ids[0] as nat)
    } else {
        ids_joined(ids.drop_last()) + ", "@ + decimal(ids.last() as nat)
    }
}

/// A list of ids as diagnostics show it: `[2, 3]`.
pub open spec fn debug_text(ids: Seq<u32>) -> Seq<char> {
    "["@ + ids_joined(ids) + "]"@
}

fn digit_str(d: u32) -> (r: &'static str)
    requires
        d < 10,
    ensures
        r@ == digit_text(d as nat),
{
    match d {
        0 => "0",
        1 => "1",
        2 => "2",
        3 => "3",
        4 => "4",
        5 => "5",
        6 => "6",
        7 => "7",
        8 => "8",
        _ => "9",
    }
}

fn append_decimal(s: &mut String, n: u32)
    ensures
        final(s)@ == old(s)@ + decimal(n as nat),
    decreases n,
{
    if n >= 10 {
        append_decimal(s, n / 10);
    }
    s.append(digit_str(n % 10));
    proof {
        if n >= 10 {
            assert(final(s)@ =~= old(s)@ + decimal(n as nat));
        } else {
            assert(final(s)@ =~= old(s)@ + decimal(n as nat));
        }
    }
}

/// Renders `ids` as diagnostics show them.
pub fn render_ids(ids: &Vec<u32>) -> (r: String)
    ensures
        r@ == debug_text(ids@),
{
    let mut s = String::from_str("[");
    let mut i: usize = 0;
    while i < ids.len()
        invariant
            0 <= i <= ids@.len(),
            s@ == "["@ + ids_joined(ids@.take(i as int)),
        decreases ids@.len() - i,
    {
        let ghost before = s@;
        assert(ids@.take(i + 1).drop_last() =~= ids@.take(i as int));
        if i > 0 {
            s.append(", ");
        }
        append_decimal(&mut s, ids[i]);
        assert(s@ =~= "["@ + ids_joined(ids@.take(i + 1)));
        i = i + 1;
    }
    assert(ids@.take(ids@.len() as int) =~= ids@);
    s.append("]");
    s
}

/// Whether `id` is one of `ids`.
pub fn contains_id(ids: &Vec<u32>, id: u32) -> (r: bool)
    ensures
        r == ids@.contains(id),
{
    let mut i: usize = 0;
    while i < ids.len()
        invariant
            0 <= i <= ids@.len(),
            forall|j: int| 0 <= j < i ==> ids@[j] != id,
        decreases ids@.len() - i,
    {
        if ids[i] == id {
            assert(ids@[i as int] == id);
            return true;
        }
        i = i + 1;
    }
    false
}

/// Records the outcome of decrypting the private share that party `src`
/// sent to key `dst`: a 32-byte plaintext becomes the share of `dst`; a
/// failed decryption or a plaintext of another length marks `src` invalid.
pub fn accept_share(
    shares: &mut BTreeMap<u32, Scalar>,
    invalid: &mut Vec<u32>,
    src: u32,
    dst: u32,
    plaintext: &Option<Vec<u8>>,
)
    ensures
        (*plaintext matches Some(p) && p@.len() == 32) ==> {
            &&& final(shares)@ == old(shares)@.insert(dst, final(shares)@[dst])
            &&& final(invalid)@ == old(invalid)@
        },
        !(*plaintext matches Some(p) && p@.len() == 32) ==> {
            &&& final(shares)@ == old(shares)@
            &&& final(invalid)@ == old(invalid)@.push(src)
        },
{
    match plaintext {
        Some(plain) => match parse_scalar(plain) {
            Some(s) => {
                shares.insert(dst, s);
            },
            None => {
                invalid.push(src);
            },
        },
        None => {
            invalid.push(src);
        },
    }
}

/// The outcome of a DKG round: failure naming the invalid senders if there
/// are any, else the outcome of computing the secrets.
pub fn dkg_end_status(invalid: &Vec<u32>, secrets: Result<(), Vec<u32>>) -> (r: DkgStatus)
    ensures
        invalid@.len() > 0 ==> (r matches DkgStatus::Failure(t) && t@ == debug_text(invalid@)),
        invalid@.len() == 0 ==> match secrets {
            Ok(_) => r is Success,
            Err(p) => r matches DkgStatus::Failure(t) && t@ == debug_text(p@),
        },
{
    if invalid.len() > 0 {
        DkgStatus::Failure(render_ids(invalid))
    } else {
        match secrets {
            Ok(()) => DkgStatus::Success,
            Err(parties) => DkgStatus::Failure(render_ids(&parties)),
        }
    }
}

} // verus!
