//! The vocabulary of the registry: accounts, block heights, claim records,
//! call origins, the error taxonomy and the event schema.

use vstd::prelude::*;

verus! {

/// An opaque, equality-comparable token identifying an authenticated account.
pub type AccountId = u64;

/// The host ledger's monotonic block counter; the registry only reads and
/// stores it.
pub type BlockNumber = u64;

/// Static parameters bound at host integration time.
#[derive(Clone, Copy, Debug, PartialEq, Eq, Structural)]
pub struct Config {
    /// Inclusive upper bound on the byte length of an accepted proof.
    pub max_proof_len: usize,
}

/// What the registry remembers about a claimed proof: the current owner and
/// the block height at which that owner acquired the claim.
#[derive(Clone, Copy, Debug, PartialEq, Eq, Structural)]
pub struct ClaimRecord {
    pub owner: AccountId,
    pub recorded_height: BlockNumber,
}

/// The provenance of a call, as established by the host's authentication
/// layer before the registry is entered.
#[derive(Clone, Copy, Debug, PartialEq, Eq, Structural)]
pub enum Origin {
    /// A transaction signed by the given account.
    Signed(AccountId),
    /// The host runtime itself; no transition accepts it.
    Root,
}

impl Origin {
    /// The signing account; meaningful only for a `Signed` origin.
    pub open spec fn spec_signer(self) -> AccountId {
        match self {
            Origin::Signed(a) => a,
            Origin::Root => 0,
        }
    }
}

/// The failure kinds a transition can surface.
#[derive(Clone, Copy, Debug, PartialEq, Eq, Structural)]
pub enum Error {
    /// `create` found the proof already bound to an owner.
    ProofAlreadyClaimed,
    /// `revoke` or `transfer` found no record under the proof.
    NoSuchProof,
    /// The caller is not the stored owner of the proof.
    NotProofOwner,
    /// The proof exceeds the configured maximum length.
    ClaimTooLong,
}

/// What a transition returns to the host dispatcher: either a registry error
/// or an authentication failure passed through unchanged.
#[derive(Clone, Copy, Debug, PartialEq, Eq, Structural)]
pub enum DispatchError {
    /// The origin could not be resolved to a signing account.
    BadOrigin,
    /// A registry-level failure.
    Module(Error),
}

pub type DispatchResult = Result<(), DispatchError>;

/// Resolves the signing account of an origin, passing authentication
/// failure through as `BadOrigin`.
pub fn ensure_signed(origin: Origin) -> (r: Result<AccountId, DispatchError>)
    ensures
        origin is Signed ==> r == Result::<AccountId, DispatchError>::Ok(origin.spec_signer()),
        !(origin is Signed) ==> r == Result::<AccountId, DispatchError>::Err(
            DispatchError::BadOrigin,
        ),
{
    match origin {
        Origin::Signed(a) => Ok(a),
        Origin::Root => Err(DispatchError::BadOrigin),
    }
}

/// An entry of the host event stream.
#[derive(Clone, Debug, PartialEq, Eq)]
pub enum Event {
    /// A successful `create` by the account for the proof.
    ClaimCreated(AccountId, Vec<u8>),
    /// A successful `revoke` by the account for the proof.
    ClaimRevoked(AccountId, Vec<u8>),
}

/// The mathematical image of an `Event`, with the proof as a byte sequence.
pub enum EventV {
    ClaimCreated(AccountId, Seq<u8>),
    ClaimRevoked(AccountId, Seq<u8>),
}

impl View for Event {
    type V = EventV;

    open spec fn view(&self) -> EventV {
        match self {
            Event::ClaimCreated(who, proof) => EventV::ClaimCreated(*who, proof@),
            Event::ClaimRevoked(who, proof) => EventV::ClaimRevoked(*who, proof@),
        }
    }
}

/// The event stream, entry by entry, as its mathematical image.
pub open spec fn events_view(events: Seq<Event>) -> Seq<EventV> {
    events.map_values(|e: Event| e@)
}

} // verus!
