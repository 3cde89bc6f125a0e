//! Who controls an event.
use crate::env::EnvView;
use crate::errors::Error;
use crate::event_ops::cancel::{
    batch_end, batch_processed, cancel_finalized, cancel_started, refunded_between,
};
use crate::event_ops::create::event_created;
use crate::event_ops::funds::funds_added;
use crate::event_ops::manager::{
    accept_manager_refusal, manager_accepted, manager_of_event, pending_manager_cancelled,
    proposal, proposal_voided, proposed,
};
use crate::event_ops::submissions::{submitted, withdrawn};
use crate::event_ops::winners::{prize_claimed, selected, winners_recorded};
use crate::host::Text;
use crate::idempotency::next_id_in;
use crate::laws::frame::{lemma_refunds_keep, lemma_selection_keeps};
use crate::storage::{address_in, cancellation_in, entry_in, event_in, pending_manager_in};
use crate::types::{Address, Bytes32, CreateEventParams, DataKey, WinnerSpec};
use vstd::prelude::*;

verus! {

/// The manager who has taken over an event from its owner, if one has.
pub open spec fn appointed(env: EnvView, id: u64) -> Option<Address> {
    address_in(env.store, DataKey::EventManager(id))
}

/// The owner manages an event from its creation on, even where the creation names
/// another manager: that one is only proposed.
pub proof fn law_named_manager_is_only_proposed(
    env: EnvView,
    params: CreateEventParams,
    op_id: Bytes32,
)
    requires
        address_in(env.store, DataKey::EventManager(next_id_in(env.store))) is None,
        pending_manager_in(env.store, next_id_in(env.store)) is None,
    ensures
        manager_of_event(event_created(env, params, op_id).store, next_id_in(env.store))
            == params.owner,
        pending_manager_in(event_created(env, params, op_id).store, next_id_in(env.store))
            == match params.manager {
            Some(manager) => Some(proposal(manager, env.sequence)),
            None => None,
        },
{
}

/// A proposal alone changes no manager and asks the manager in office for authorization.
/// It replaces a proposal that was pending.
pub proof fn law_proposal_leaves_manager(env: EnvView, id: u64, target: Address)
    requires
        event_in(env.store, id) is Some,
    ensures
        manager_of_event(proposed(proposal_voided(env, id), id, target).store, id)
            == manager_of_event(env.store, id),
        pending_manager_in(proposed(proposal_voided(env, id), id, target).store, id) == Some(
            proposal(target, env.sequence),
        ),
{
}

/// Who is proposed and accepts in time is the manager, and nothing stays pending.
/// `later` is any environment in which the proposal is still on file.
pub proof fn law_accepted_proposal_takes_over(
    env: EnvView,
    later: EnvView,
    id: u64,
    target: Address,
)
    requires
        event_in(later.store, id) is Some,
        !later.settings.paused,
        pending_manager_in(later.store, id) == Some(proposal(target, env.sequence)),
    ensures
        later.sequence <= proposal(target, env.sequence).expires_at_ledger
            ==> accept_manager_refusal(later, id) is None,
        later.sequence > proposal(target, env.sequence).expires_at_ledger
            ==> accept_manager_refusal(later, id) == Some(Error::PendingRotationExpired),
        manager_of_event(manager_accepted(later, id).store, id) == target,
        pending_manager_in(manager_accepted(later, id).store, id) is None,
        manager_accepted(later, id).auths == later.auths.push(target),
{
}

/// A proposal that has been withdrawn can no longer be accepted, and the manager stays.
pub proof fn law_withdrawn_proposal_is_void(env: EnvView, id: u64)
    requires
        event_in(env.store, id) is Some,
        !env.settings.paused,
    ensures
        accept_manager_refusal(pending_manager_cancelled(env, id), id) == Some(
            Error::PendingRotationMismatch,
        ),
        manager_of_event(pending_manager_cancelled(env, id).store, id) == manager_of_event(
            env.store,
            id,
        ),
{
}

/// Only acceptance by the one who was proposed changes who manages an event: every other
/// operation leaves the manager of every event in office.
pub proof fn law_only_acceptance_changes_manager(
    env: EnvView,
    id: u64,
    who: Address,
    amount: i128,
    text: Text,
    params: CreateEventParams,
    winners: Seq<WinnerSpec>,
    position: u32,
    max_refunds: u32,
    op_id: Bytes32,
    any: u64,
)
    requires
        event_in(env.store, id) is Some,
    ensures
        appointed(event_created(env, params, op_id), any) == appointed(env, any),
        appointed(proposed(proposal_voided(env, id), id, who), any) == appointed(env, any),
        appointed(pending_manager_cancelled(env, id), any) == appointed(env, any),
        appointed(funds_added(env, id, who, amount, op_id), any) == appointed(env, any),
        appointed(cancel_started(env, id, op_id), any) == appointed(env, any),
        appointed(batch_processed(env, id, max_refunds, op_id), any) == appointed(env, any),
        appointed(cancel_finalized(env, id, op_id), any) == appointed(env, any),
        appointed(submitted(env, id, who, text, op_id), any) == appointed(env, any),
        appointed(withdrawn(env, id, who, op_id), any) == appointed(env, any),
        appointed(winners_recorded(env, id, winners, op_id), any) == appointed(env, any),
        appointed(prize_claimed(env, id, position, op_id), any) == appointed(env, any),
        any != id ==> appointed(manager_accepted(env, id), any) == appointed(env, any),
{
    let key = DataKey::EventManager(any);
    let state = cancellation_in(env.store, id).unwrap();
    let token = event_in(env.store, id).unwrap().token;
    let end = batch_end(state, max_refunds) as int;
    lemma_refunds_keep(env, id, token, state, state.next_idx as int, end, key);
    lemma_selection_keeps(env.store, id, winners, env.timestamp, key);
    let refunded = refunded_between(env, id, token, state, state.next_idx as int, end).store;
    let after = batch_processed(env, id, max_refunds, op_id).store;
    assert(entry_in(after, key) == entry_in(refunded, key));
    let chosen = selected(env.store, id, winners, env.timestamp);
    assert(entry_in(winners_recorded(env, id, winners, op_id).store, key) == entry_in(chosen, key));
}

} // verus!
