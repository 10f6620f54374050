use vstd::prelude::*;
use vstd::string::*;

verus! {

/// The phases of a signer.
#[derive(Debug, Clone, Copy, PartialEq, Eq, Structural)]
pub enum State {
    /// The signer is idle
    Idle,
    /// The signer is distributing DKG public shares
    DkgPublicDistribute,
    /// The signer is gathering DKG public shares
    DkgPublicGather,
    /// The signer is distributing DKG private shares
    DkgPrivateDistribute,
    /// The signer is gathering DKG private shares
    DkgPrivateGather,
    /// The signer is distributing signature shares
    SignGather,
    /// The signer is finished signing
    Signed,
}

/// The error type for a signer.
#[derive(Debug, Clone, PartialEq, Eq)]
pub enum Error {
    /// The party ID was invalid
    InvalidPartyID,
    /// A DKG public share was invalid
    InvalidDkgPublicShares,
    /// A DKG private share was invalid
    InvalidDkgPrivateShares(Vec<u32>),
    /// A nonce response was invalid
    InvalidNonceResponse,
    /// A signature share was invalid
    InvalidSignatureShare,
    /// A bad state change was made
    BadStateChange(String),
}

/// The edges of the phase graph: `transition_allowed(prev, next)` holds when a
/// signer in `prev` may move to `next`.
pub open spec fn transition_allowed(prev: State, next: State) -> bool {
    match next {
        State::Idle => prev == State::DkgPrivateGather,
        State::DkgPublicDistribute => prev == State::Idle || prev == State::DkgPublicGather
            || prev == State::DkgPrivateDistribute,
        State::DkgPublicGather => prev == State::DkgPublicDistribute,
        State::DkgPrivateDistribute => prev == State::DkgPublicGather,
        State::DkgPrivateGather => prev == State::DkgPrivateDistribute,
        State::SignGather => prev == State::Idle,
        State::Signed => prev == State::SignGather,
    }
}

/// `next` is `prev`, or one move along the phase graph away from it.
pub open spec fn at_most_one_move(prev: State, next: State) -> bool {
    prev == next || transition_allowed(prev, next)
}

/// `next` is reached from `prev` by at most three moves along the phase graph.
pub open spec fn within_three_moves(prev: State, next: State) -> bool {
    exists|x: State, y: State|
        #![trigger at_most_one_move(prev, x), at_most_one_move(y, next)]
        at_most_one_move(prev, x) && at_most_one_move(x, y) && at_most_one_move(y, next)
}

/// The name of a phase, as it appears in diagnostics.
pub open spec fn state_name(s: State) -> Seq<char> {
    match s {
        State::Idle => "Idle"@,
        State::DkgPublicDistribute => "DkgPublicDistribute"@,
        State::DkgPublicGather => "DkgPublicGather"@,
        State::DkgPrivateDistribute => "DkgPrivateDistribute"@,
        State::DkgPrivateGather => "DkgPrivateGather"@,
        State::SignGather => "SignGather"@,
        State::Signed => "Signed"@,
    }
}

/// The text carried by `Error::BadStateChange` for a refused move.
pub open spec fn state_change_text(prev: State, next: State) -> Seq<char> {
    state_name(prev) + " → "@ + state_name(next)
}

impl State {
    /// The name of this phase.
    pub fn name(&self) -> (r: &'static str)
        ensures
            r@ == state_name(*self),
    {
        match self {
            State::Idle => "Idle",
            State::DkgPublicDistribute => "DkgPublicDistribute",
            State::DkgPublicGather => "DkgPublicGather",
            State::DkgPrivateDistribute => "DkgPrivateDistribute",
            State::DkgPrivateGather => "DkgPrivateGather",
            State::SignGather => "SignGather",
            State::Signed => "Signed",
        }
    }
}

/// Checks a move from `prev` to `next` against the phase graph.
pub fn check_transition(prev: State, next: State) -> (r: Result<(), Error>)
    ensures
        r is Ok <==> transition_allowed(prev, next),
        r is Err ==> (r matches Err(Error::BadStateChange(t)) && t@ == state_change_text(prev, next)),
{
    let accepted = match next {
        State::Idle => prev == State::DkgPrivateGather,
        State::DkgPublicDistribute => prev == State::Idle || prev == State::DkgPublicGather
            || prev == State::DkgPrivateDistribute,
        State::DkgPublicGather => prev == State::DkgPublicDistribute,
        State::DkgPrivateDistribute => prev == State::DkgPublicGather,
        State::DkgPrivateGather => prev == State::DkgPrivateDistribute,
        State::SignGather => prev == State::Idle,
        State::Signed => prev == State::SignGather,
    };
    if accepted {
        Ok(())
    } else {
        let text = String::from_str(prev.name()).concat(" → ").concat(next.name());
        Err(Error::BadStateChange(text))
    }
}

} // verus!
