//! Registry-wide laws, proved over the transition model.
//!
//! A `CallV` is one invocation of an entry point, abstracted to the values
//! it carries; `apply_call` and `call_result` are the one-step transition
//! relation the handlers in `pallet` are proved to implement. The proof
//! functions here state what holds of every state a sequence of calls can
//! reach: keys stay unique, stored proofs respect the length bound, failed
//! calls change nothing, ownership and height come from the deciding call,
//! and the event stream records exactly the successful creates and revokes
//! in dispatch order.

use vstd::prelude::*;

use crate::pallet::{
    create_result, create_transition, revoke_result, revoke_transition, transfer_result,
    transfer_transition, StateV,
};
use crate::store::ProofStore;
use crate::types::{AccountId, ClaimRecord, DispatchResult, EventV, Origin};

verus! {

/// One call of an entry point, abstracted to its arguments.
pub enum CallV {
    Create(Origin, Seq<u8>),
    Revoke(Origin, Seq<u8>),
    Transfer(Origin, Seq<u8>, AccountId),
}

/// What the call returns when dispatched in state `s`.
pub open spec fn call_result(s: StateV, c: CallV) -> DispatchResult {
    match c {
        CallV::Create(origin, proof) => create_result(s, origin, proof),
        CallV::Revoke(origin, proof) => revoke_result(s, origin, proof),
        CallV::Transfer(origin, proof, dest) => transfer_result(s, origin, proof, dest),
    }
}

/// The state the call leaves behind when dispatched in state `s`.
pub open spec fn apply_call(s: StateV, c: CallV) -> StateV {
    match c {
        CallV::Create(origin, proof) => create_transition(s, origin, proof),
        CallV::Revoke(origin, proof) => revoke_transition(s, origin, proof),
        CallV::Transfer(origin, proof, dest) => transfer_transition(s, origin, proof, dest),
    }
}

/// The events the call appends when dispatched in state `s`: one for a
/// successful create or revoke, none otherwise.
pub open spec fn emitted(s: StateV, c: CallV) -> Seq<EventV> {
    if call_result(s, c) is Ok {
        match c {
            CallV::Create(origin, proof) => seq![
                EventV::ClaimCreated(origin.spec_signer(), proof),
            ],
            CallV::Revoke(origin, proof) => seq![
                EventV::ClaimRevoked(origin.spec_signer(), proof),
            ],
            CallV::Transfer(_, _, _) => Seq::empty(),
        }
    } else {
        Seq::empty()
    }
}

/// The state reached by dispatching the calls of `t` in order, from `s`.
pub open spec fn apply_trace(s: StateV, t: Seq<CallV>) -> StateV
    decreases t.len(),
{
    if t.len() == 0 {
        s
    } else {
        apply_call(apply_trace(s, t.drop_last()), t.last())
    }
}

/// The events the calls of `t` append, in dispatch order, from `s`.
pub open spec fn trace_emitted(s: StateV, t: Seq<CallV>) -> Seq<EventV>
    decreases t.len(),
{
    if t.len() == 0 {
        Seq::empty()
    } else {
        trace_emitted(s, t.drop_last()) + emitted(apply_trace(s, t.drop_last()), t.last())
    }
}

/// Law: every proof key in the registry maps to exactly one record. At the
/// model level the registry is a map, so this is carried by the store's
/// representation: no proof ever occupies two slots.
pub proof fn lemma_registry_uniqueness(s: ProofStore, i: int, j: int)
    requires
        s.wf(),
        0 <= i < s.entries@.len(),
        0 <= j < s.entries@.len(),
        s.entries@[i].proof@ == s.entries@[j].proof@,
    ensures
        i == j,
{
}

/// Law: a failed transition leaves the registry, the event stream, the
/// height and the configuration exactly as they were.
pub proof fn lemma_atomicity(s: StateV, c: CallV)
    requires
        call_result(s, c) is Err,
    ensures
        apply_call(s, c) == s,
{
}

/// Law: transitions preserve validity; in particular every proof bound in
/// a reachable state respects the length bound.
pub proof fn lemma_transition_preserves_wf(s: StateV, c: CallV)
    requires
        s.wf(),
    ensures
        apply_call(s, c).wf(),
{
    let s2 = apply_call(s, c);
    assert forall|k: Seq<u8>| #[trigger] s2.registry.contains_key(k) implies k.len()
        <= s2.max_proof_len by {
        if s.registry.contains_key(k) {
        } else {
            match c {
                CallV::Create(origin, proof) => {
                    assert(k == proof);
                },
                CallV::Revoke(origin, proof) => {},
                CallV::Transfer(origin, proof, dest) => {
                    assert(k == proof);
                },
            }
        }
    }
}

/// Law: every state a sequence of calls reaches from a valid state is
/// valid; in particular no stored proof ever exceeds the length bound.
pub proof fn lemma_trace_preserves_wf(s: StateV, t: Seq<CallV>)
    requires
        s.wf(),
    ensures
        apply_trace(s, t).wf(),
    decreases t.len(),
{
    if t.len() > 0 {
        lemma_trace_preserves_wf(s, t.drop_last());
        lemma_transition_preserves_wf(apply_trace(s, t.drop_last()), t.last());
    }
}

/// The record a successful create or transfer writes: the deciding account
/// as owner, at the height observed when the call ran.
pub open spec fn written_record(s: StateV, c: CallV) -> ClaimRecord {
    match c {
        CallV::Create(origin, _) => ClaimRecord {
            owner: origin.spec_signer(),
            recorded_height: s.height,
        },
        CallV::Transfer(_, _, dest) => ClaimRecord { owner: dest, recorded_height: s.height },
        CallV::Revoke(_, _) => ClaimRecord { owner: 0, recorded_height: 0 },
    }
}

/// Whether the call is a create or transfer of key `k` that succeeds in
/// state `s` — the only way a record under `k` is written.
pub open spec fn claims_key(s: StateV, c: CallV, k: Seq<u8>) -> bool {
    call_result(s, c) is Ok && match c {
        CallV::Create(_, proof) => proof == k,
        CallV::Transfer(_, proof, _) => proof == k,
        CallV::Revoke(_, _) => false,
    }
}

/// Law: after one call, a key present in the registry either was just
/// written — by a successful create or transfer of that key, with the
/// caller (or destination) as owner and the observed height recorded — or
/// carries its previous record unchanged.
pub proof fn lemma_owner_height_fidelity(s: StateV, c: CallV, k: Seq<u8>)
    requires
        apply_call(s, c).registry.contains_key(k),
    ensures
        claims_key(s, c, k) ==> apply_call(s, c).registry[k] == written_record(s, c),
        !claims_key(s, c, k) ==> s.registry.contains_key(k) && apply_call(s, c).registry[k]
            == s.registry[k],
{
}

/// Call `i` of `t` is a successful create or transfer of `k`, given the
/// state it actually ran in.
pub open spec fn claims_key_at(s0: StateV, t: Seq<CallV>, i: int, k: Seq<u8>) -> bool {
    0 <= i < t.len() && claims_key(apply_trace(s0, t.take(i)), t[i], k)
}

/// Whether a call claims `k` does not depend on the calls after it.
proof fn lemma_claims_key_at_prefix(s0: StateV, t: Seq<CallV>, i: int, k: Seq<u8>)
    requires
        0 <= i < t.len() - 1,
    ensures
        claims_key_at(s0, t, i, k) == claims_key_at(s0, t.drop_last(), i, k),
{
    assert(t.take(i) =~= t.drop_last().take(i));
    assert(t[i] == t.drop_last()[i]);
}

/// Law: in any state a sequence of calls reaches, the record under a
/// present key comes from the last successful create or transfer of that
/// key — its caller (or destination) as owner, the height it observed as
/// recorded height — and if no call claimed the key, the record is the one
/// the initial state already held.
pub proof fn lemma_owner_height_fidelity_trace(s0: StateV, t: Seq<CallV>, k: Seq<u8>)
    requires
        apply_trace(s0, t).registry.contains_key(k),
    ensures
        (forall|i: int| !claims_key_at(s0, t, i, k)) ==> s0.registry.contains_key(k)
            && apply_trace(s0, t).registry[k] == s0.registry[k],
        (exists|i: int| claims_key_at(s0, t, i, k)) ==> exists|i: int|
            {
                &&& claims_key_at(s0, t, i, k)
                &&& forall|j: int| j > i ==> !claims_key_at(s0, t, j, k)
                &&& apply_trace(s0, t).registry[k] == written_record(
                    apply_trace(s0, t.take(i)),
                    t[i],
                )
            },
    decreases t.len(),
{
    if t.len() == 0 {
    } else {
        let t0 = t.drop_last();
        let c = t.last();
        let s1 = apply_trace(s0, t0);
        let n = t.len() - 1;
        assert(t.take(n) =~= t0);
        assert forall|i: int| 0 <= i < n implies claims_key_at(s0, t, i, k) == claims_key_at(
            s0,
            t0,
            i,
            k,
        ) by {
            lemma_claims_key_at_prefix(s0, t, i, k);
        }
        lemma_owner_height_fidelity(s1, c, k);
        if claims_key(s1, c, k) {
            assert(claims_key_at(s0, t, n, k));
            assert(apply_trace(s0, t).registry[k] == written_record(
                apply_trace(s0, t.take(n)),
                t[n],
            ));
            assert(forall|j: int| j > n ==> !claims_key_at(s0, t, j, k));
        } else {
            lemma_owner_height_fidelity_trace(s0, t0, k);
            if exists|i: int| claims_key_at(s0, t0, i, k) {
                let i = choose|i: int|
                    {
                        &&& claims_key_at(s0, t0, i, k)
                        &&& forall|j: int| j > i ==> !claims_key_at(s0, t0, j, k)
                        &&& apply_trace(s0, t0).registry[k] == written_record(
                            apply_trace(s0, t0.take(i)),
                            t0[i],
                        )
                    };
                assert(claims_key_at(s0, t, i, k));
                assert(t.take(i) =~= t0.take(i));
                assert forall|j: int| j > i implies !claims_key_at(s0, t, j, k) by {
                    if 0 <= j < n {
                        assert(!claims_key_at(s0, t0, j, k));
                    }
                }
                assert(apply_trace(s0, t).registry[k] == written_record(
                    apply_trace(s0, t.take(i)),
                    t[i],
                ));
            } else {
                assert(forall|i: int| !claims_key_at(s0, t, i, k));
            }
        }
    }
}

/// Law: the event stream of a reached state is the prior stream followed,
/// in dispatch order, by exactly one `ClaimCreated` per successful create
/// and one `ClaimRevoked` per successful revoke, and nothing else.
pub proof fn lemma_event_correspondence(s: StateV, t: Seq<CallV>)
    ensures
        apply_trace(s, t).events == s.events + trace_emitted(s, t),
    decreases t.len(),
{
    if t.len() == 0 {
        assert(apply_trace(s, t).events =~= s.events + trace_emitted(s, t));
    } else {
        let t0 = t.drop_last();
        let c = t.last();
        let s1 = apply_trace(s, t0);
        lemma_event_correspondence(s, t0);
        assert(apply_call(s1, c).events =~= s1.events + emitted(s1, c));
        assert(s.events + (trace_emitted(s, t0) + emitted(s1, c)) =~= (s.events + trace_emitted(
            s,
            t0,
        )) + emitted(s1, c));
    }
}

} // verus!
