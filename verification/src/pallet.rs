//! The transition handlers and their mathematical model.
//!
//! A `Pallet` holds the registry, the event stream and the host-supplied
//! block height. Each entry point is a pure function of (origin, arguments,
//! registry snapshot, block height): all guards run before any mutation, so
//! a failing transition leaves the state untouched. The meaning of every
//! handler is stated once, as a spec function over the abstract state
//! `StateV`, and each handler ensures that it returns and transitions
//! exactly as that spec function says.

use vstd::prelude::*;

use crate::store::ProofStore;
use crate::types::{
    events_view, AccountId, BlockNumber, ClaimRecord, Config, DispatchError, DispatchResult,
    Error, Event, EventV, Origin,
};
use crate::types::ensure_signed;

verus! {

/// The abstract state of the registry module: the configuration bound, the
/// current block height, the proof map, and the event stream so far.
#[verifier::ext_equal]
pub struct StateV {
    pub max_proof_len: usize,
    pub height: BlockNumber,
    pub registry: Map<Seq<u8>, ClaimRecord>,
    pub events: Seq<EventV>,
}

impl StateV {
    /// Every bound proof respects the configured length bound.
    pub open spec fn wf(self) -> bool {
        forall|k: Seq<u8>| #[trigger]
            self.registry.contains_key(k) ==> k.len() <= self.max_proof_len
    }
}

/// The length guard: a proof the configuration accepts; failing it costs
/// `ClaimTooLong`.
pub open spec fn length_ok(s: StateV, proof: Seq<u8>) -> bool {
    proof.len() <= s.max_proof_len
}

/// The existence guard: `revoke` and `transfer` demand a bound proof;
/// failing it costs `NoSuchProof`.
pub open spec fn present(s: StateV, proof: Seq<u8>) -> bool {
    s.registry.contains_key(proof)
}

/// The ownership guard: the stored owner must be the caller; failing it
/// costs `NotProofOwner`.
pub open spec fn is_owner(s: StateV, proof: Seq<u8>, caller: AccountId) -> bool {
    s.registry[proof].owner == caller
}

/// What `create_claim` returns, for every origin, proof and state. The
/// guard order is fixed: length before existence.
pub open spec fn create_result(s: StateV, origin: Origin, proof: Seq<u8>) -> DispatchResult {
    if !(origin is Signed) {
        Err(DispatchError::BadOrigin)
    } else if !length_ok(s, proof) {
        Err(DispatchError::Module(Error::ClaimTooLong))
    } else if present(s, proof) {
        Err(DispatchError::Module(Error::ProofAlreadyClaimed))
    } else {
        Ok(())
    }
}

/// The state `create_claim` leaves behind: on success the proof is bound to
/// the caller at the current height and one `ClaimCreated` event is
/// appended; on failure nothing changes.
pub open spec fn create_transition(s: StateV, origin: Origin, proof: Seq<u8>) -> StateV {
    if create_result(s, origin, proof) is Ok {
        let caller = origin.spec_signer();
        StateV {
            registry: s.registry.insert(
                proof,
                ClaimRecord { owner: caller, recorded_height: s.height },
            ),
            events: s.events.push(EventV::ClaimCreated(caller, proof)),
            ..s
        }
    } else {
        s
    }
}

/// What `revoke_claim` returns. The length guard is deliberately absent:
/// an over-long proof is never bound, so it fails as `NoSuchProof`.
pub open spec fn revoke_result(s: StateV, origin: Origin, proof: Seq<u8>) -> DispatchResult {
    if !(origin is Signed) {
        Err(DispatchError::BadOrigin)
    } else if !present(s, proof) {
        Err(DispatchError::Module(Error::NoSuchProof))
    } else if !is_owner(s, proof, origin.spec_signer()) {
        Err(DispatchError::Module(Error::NotProofOwner))
    } else {
        Ok(())
    }
}

/// The state `revoke_claim` leaves behind: on success the proof is unbound
/// and one `ClaimRevoked` event is appended; on failure nothing changes.
pub open spec fn revoke_transition(s: StateV, origin: Origin, proof: Seq<u8>) -> StateV {
    if revoke_result(s, origin, proof) is Ok {
        StateV {
            registry: s.registry.remove(proof),
            events: s.events.push(EventV::ClaimRevoked(origin.spec_signer(), proof)),
            ..s
        }
    } else {
        s
    }
}

/// What `transfer_claim` returns, for every origin, proof, destination and
/// state.
pub open spec fn transfer_result(
    s: StateV,
    origin: Origin,
    proof: Seq<u8>,
    dest: AccountId,
) -> DispatchResult {
    if !(origin is Signed) {
        Err(DispatchError::BadOrigin)
    } else if !length_ok(s, proof) {
        Err(DispatchError::Module(Error::ClaimTooLong))
    } else if !present(s, proof) {
        Err(DispatchError::Module(Error::NoSuchProof))
    } else if !is_owner(s, proof, origin.spec_signer()) {
        Err(DispatchError::Module(Error::NotProofOwner))
    } else {
        Ok(())
    }
}

/// The state `transfer_claim` leaves behind: on success the record is
/// overwritten in place with the destination owner at the current height.
/// No event is emitted; the host observes transfers only through the store.
pub open spec fn transfer_transition(
    s: StateV,
    origin: Origin,
    proof: Seq<u8>,
    dest: AccountId,
) -> StateV {
    if transfer_result(s, origin, proof, dest) is Ok {
        StateV {
            registry: s.registry.insert(
                proof,
                ClaimRecord { owner: dest, recorded_height: s.height },
            ),
            ..s
        }
    } else {
        s
    }
}

/// The registry module: three guarded transitions over a keyed store, an
/// event stream, and the block height the host last announced.
#[derive(Clone, Debug, PartialEq, Eq)]
pub struct Pallet {
    pub config: Config,
    pub proofs: ProofStore,
    pub events: Vec<Event>,
    pub height: BlockNumber,
}

impl View for Pallet {
    type V = StateV;

    open spec fn view(&self) -> StateV {
        StateV {
            max_proof_len: self.config.max_proof_len,
            height: self.height,
            registry: self.proofs@,
            events: events_view(self.events@),
        }
    }
}

impl Pallet {
    /// Validity: the store binds each proof once, and every bound proof
    /// respects the length bound.
    pub open spec fn wf(self) -> bool {
        &&& self.proofs.wf()
        &&& self@.wf()
    }

    /// A fresh module under `config`: empty registry, empty event stream,
    /// height zero.
    pub fn new(config: Config) -> (p: Pallet)
        ensures
            p.wf(),
            p@ == (StateV {
                max_proof_len: config.max_proof_len,
                height: 0,
                registry: Map::empty(),
                events: Seq::empty(),
            }),
    {
        let p = Pallet { config, proofs: ProofStore::new(), events: Vec::new(), height: 0 };
        proof {
            assert(events_view(p.events@) =~= Seq::<EventV>::empty());
            assert(p@ =~= StateV {
                max_proof_len: config.max_proof_len,
                height: 0,
                registry: Map::empty(),
                events: Seq::empty(),
            });
        }
        p
    }

    /// The host announces the block height under which the next
    /// transitions run.
    pub fn set_block_number(&mut self, height: BlockNumber)
        ensures
            final(self)@ == (StateV { height, ..old(self)@ }),
            old(self).wf() ==> final(self).wf(),
    {
        self.height = height;
        proof {
            assert(self@ =~= StateV { height, ..old(self)@ });
        }
    }

    /// The block height the host last announced.
    pub fn block_number(&self) -> (h: BlockNumber)
        ensures
            h == self@.height,
    {
        self.height
    }

    /// The read accessor over the registry: the claim record bound to
    /// `proof`, or `None` when the proof is unclaimed.
    pub fn proofs(&self, proof: &Vec<u8>) -> (r: Option<ClaimRecord>)
        requires
            self.wf(),
        ensures
            r == if self@.registry.contains_key(proof@) {
                Some(self@.registry[proof@])
            } else {
                Option::<ClaimRecord>::None
            },
    {
        if self.proofs.contains(proof) {
            Some(self.proofs.get(proof))
        } else {
            None
        }
    }

    /// Whether `proof` is currently claimed.
    pub fn contains_key(&self, proof: &Vec<u8>) -> (b: bool)
        ensures
            b == self@.registry.contains_key(proof@),
    {
        self.proofs.contains(proof)
    }

    /// The event stream emitted so far, in dispatch order.
    pub fn events(&self) -> (r: &Vec<Event>)
        ensures
            events_view(r@) == self@.events,
    {
        &self.events
    }

    /// Claims `proof` for the signing account: after the length and
    /// non-existence guards pass, binds it to the caller at the current
    /// height and emits `ClaimCreated`.
    pub fn create_claim(&mut self, origin: Origin, proof: Vec<u8>) -> (r: DispatchResult)
        requires
            old(self).wf(),
        ensures
            final(self).wf(),
            r == create_result(old(self)@, origin, proof@),
            final(self)@ == create_transition(old(self)@, origin, proof@),
    {
        let ghost proof_bytes: Seq<u8> = proof@;
        let caller = match ensure_signed(origin) {
            Ok(c) => c,
            Err(e) => {
                return Err(e);
            },
        };
        if proof.len() > self.config.max_proof_len {
            return Err(DispatchError::Module(Error::ClaimTooLong));
        }
        if self.proofs.contains(&proof) {
            return Err(DispatchError::Module(Error::ProofAlreadyClaimed));
        }
        let current_block = self.height;
        let record = ClaimRecord { owner: caller, recorded_height: current_block };
        let stored = proof.clone();
        proof {
            assert(stored@ =~= proof_bytes);
        }
        self.proofs.insert(stored, record);
        self.events.push(Event::ClaimCreated(caller, proof));
        proof {
            assert(events_view(self.events@) =~= events_view(old(self).events@).push(
                EventV::ClaimCreated(caller, proof_bytes),
            ));
            assert(self@ =~= create_transition(old(self)@, origin, proof_bytes));
        }
        Ok(())
    }

    /// Relinquishes `proof`: after the existence and ownership guards pass,
    /// unbinds it and emits `ClaimRevoked`. No length guard: an over-long
    /// proof is never bound, so it already fails as `NoSuchProof`.
    pub fn revoke_claim(&mut self, origin: Origin, proof: Vec<u8>) -> (r: DispatchResult)
        requires
            old(self).wf(),
        ensures
            final(self).wf(),
            r == revoke_result(old(self)@, origin, proof@),
            final(self)@ == revoke_transition(old(self)@, origin, proof@),
    {
        let ghost proof_bytes: Seq<u8> = proof@;
        let caller = match ensure_signed(origin) {
            Ok(c) => c,
            Err(e) => {
                return Err(e);
            },
        };
        if !self.proofs.contains(&proof) {
            return Err(DispatchError::Module(Error::NoSuchProof));
        }
        let record = self.proofs.get(&proof);
        if record.owner != caller {
            return Err(DispatchError::Module(Error::NotProofOwner));
        }
        self.proofs.remove(&proof);
        self.events.push(Event::ClaimRevoked(caller, proof));
        proof {
            assert(events_view(self.events@) =~= events_view(old(self).events@).push(
                EventV::ClaimRevoked(caller, proof_bytes),
            ));
            assert(self@ =~= revoke_transition(old(self)@, origin, proof_bytes));
        }
        Ok(())
    }

    /// Passes `proof` to `dest`: after the length, existence and ownership
    /// guards pass, overwrites the record in place with `dest` as owner at
    /// the current height. `dest` may equal the caller, which only
    /// refreshes the recorded height. No event is emitted.
    pub fn transfer_claim(
        &mut self,
        origin: Origin,
        proof: Vec<u8>,
        dest: AccountId,
    ) -> (r: DispatchResult)
        requires
            old(self).wf(),
        ensures
            final(self).wf(),
            r == transfer_result(old(self)@, origin, proof@, dest),
            final(self)@ == transfer_transition(old(self)@, origin, proof@, dest),
    {
        let ghost proof_bytes: Seq<u8> = proof@;
        let caller = match ensure_signed(origin) {
            Ok(c) => c,
            Err(e) => {
                return Err(e);
            },
        };
        if proof.len() > self.config.max_proof_len {
            return Err(DispatchError::Module(Error::ClaimTooLong));
        }
        if !self.proofs.contains(&proof) {
            return Err(DispatchError::Module(Error::NoSuchProof));
        }
        let record = self.proofs.get(&proof);
        if record.owner != caller {
            return Err(DispatchError::Module(Error::NotProofOwner));
        }
        let current_block = self.height;
        self.proofs.insert(proof, ClaimRecord { owner: dest, recorded_height: current_block });
        proof {
            assert(self@ =~= transfer_transition(old(self)@, origin, proof_bytes, dest));
        }
        Ok(())
    }
}

} // verus!
