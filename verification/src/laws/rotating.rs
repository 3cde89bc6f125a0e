//! How an event changes hands.
use crate::env::{Effect, Env, EnvView, Event};
use crate::errors::Error;
use crate::event_ops::manager::{
    accept_manager, cancel_pending_manager, get_manager, get_pending_manager, propose_manager,
    resolve_manager,
};
use crate::storage::{address_in, event_in, pending_manager_in, Entry};
use crate::types::{Address, DataKey, EventRecord, PendingManager};
use vstd::prelude::*;

verus! {

/// The manager of an event is whoever is on file as such, and its owner where nobody is.
pub proof fn law_manager_is_on_file(
    env: &Env,
    id: u64,
    owner: Address,
    resolved: Address,
    r: Result<Address, Error>,
    pending: Result<Option<PendingManager>, Error>,
)
    requires
        call_ensures(resolve_manager, (env, id, owner), resolved),
        call_ensures(get_manager, (env, id), r),
        call_ensures(get_pending_manager, (env, id), pending),
    ensures
        ({
            let on_file = address_in(env@.store, DataKey::EventManager(id));
            let event = event_in(env@.store, id);
            &&& on_file is Some ==> resolved == on_file.unwrap()
            &&& on_file is None ==> resolved == owner
            &&& event is None ==> r == Err::<Address, Error>(Error::EventNotFound)
            &&& event is Some && on_file is Some ==> r == Ok::<Address, Error>(on_file.unwrap())
            &&& event is Some && on_file is None ==> r == Ok::<Address, Error>(event.unwrap().owner)
            &&& event is None ==> pending == Err::<Option<PendingManager>, Error>(
                Error::EventNotFound,
            )
            &&& event is Some ==> pending == Ok::<Option<PendingManager>, Error>(
                pending_manager_in(env@.store, id),
            )
        }),
{
}

/// The manager of any event may propose anyone as the next one while the contract is not
/// paused. The proposal stands for 17280 ledgers, and for less only where the ledgers run
/// out; one that was pending goes, with an announcement.
pub proof fn law_manager_may_propose(
    env: &mut Env,
    id: u64,
    target: Address,
    r: Result<(), Error>,
    event: EventRecord,
    manager: Address,
)
    requires
        call_ensures(propose_manager, (env, id, target), r),
        event_in(old(env)@.store, id) == Some(event),
        address_in(old(env)@.store, DataKey::EventManager(id)) == Some(manager) || address_in(
            old(env)@.store,
            DataKey::EventManager(id),
        ) is None && manager == event.owner,
    ensures
        old(env)@.settings.paused ==> r == Err::<(), Error>(Error::Paused) && final(env)@
            == old(env)@,
        !old(env)@.settings.paused ==> r == Ok::<(), Error>(()) && ({
            let last = old(env)@.sequence + 17_280;
            let expires_at_ledger = if last > u32::MAX {
                u32::MAX
            } else {
                last as u32
            };
            let void = Effect::Publish(Event::PendingManagerCancelled { event_id: id });
            let told = Effect::Publish(
                Event::ManagerProposed { event_id: id, target, expires_at_ledger },
            );
            final(env)@ == (EnvView {
                store: old(env)@.store.insert(
                    DataKey::PendingManager(id),
                    Entry::PendingManager(PendingManager { target, expires_at_ledger }),
                ),
                auths: old(env)@.auths.push(manager),
                effects: if pending_manager_in(old(env)@.store, id) is Some {
                    old(env)@.effects.push(void).push(told)
                } else {
                    old(env)@.effects.push(told)
                },
                ..old(env)@
            })
        }),
{
}

/// Whoever is proposed may take over, up to and including the last ledger of the proposal,
/// while the contract is not paused; the proposal is used up by that.
pub proof fn law_proposed_manager_may_accept(env: &mut Env, id: u64, r: Result<(), Error>)
    requires
        call_ensures(accept_manager, (env, id), r),
    ensures
        ({
            let s = old(env)@.store;
            let paused = old(env)@.settings.paused;
            let there = event_in(s, id) is Some;
            let proposal = pending_manager_in(s, id);
            let target = proposal.unwrap().target;
            let in_time = old(env)@.sequence <= proposal.unwrap().expires_at_ledger;
            &&& r is Ok <==> !paused && there && proposal is Some && in_time
            &&& paused ==> r == Err::<(), Error>(Error::Paused)
            &&& !paused && !there ==> r == Err::<(), Error>(Error::EventNotFound)
            &&& !paused && there && proposal is None ==> r == Err::<(), Error>(
                Error::PendingRotationMismatch,
            )
            &&& !paused && there && proposal is Some && !in_time ==> r == Err::<(), Error>(
                Error::PendingRotationExpired,
            )
            &&& r is Err ==> final(env)@ == old(env)@
            &&& r is Ok ==> final(env)@ == (EnvView {
                store: s.insert(DataKey::EventManager(id), Entry::Address(target)).remove(
                    DataKey::PendingManager(id),
                ),
                auths: old(env)@.auths.push(target),
                effects: old(env)@.effects.push(
                    Effect::Publish(Event::ManagerChanged { event_id: id, new_manager: target }),
                ),
                ..old(env)@
            })
        }),
{
}

/// The manager may withdraw a proposal that is pending while the contract is not paused,
/// whether it has expired or not.
pub proof fn law_manager_may_withdraw_proposal(
    env: &mut Env,
    id: u64,
    r: Result<(), Error>,
    event: EventRecord,
    manager: Address,
)
    requires
        call_ensures(cancel_pending_manager, (env, id), r),
        event_in(old(env)@.store, id) == Some(event),
        address_in(old(env)@.store, DataKey::EventManager(id)) == Some(manager) || address_in(
            old(env)@.store,
            DataKey::EventManager(id),
        ) is None && manager == event.owner,
    ensures
        ({
            let s = old(env)@.store;
            let paused = old(env)@.settings.paused;
            let pending = pending_manager_in(s, id) is Some;
            &&& paused ==> r == Err::<(), Error>(Error::Paused) && final(env)@ == old(env)@
            &&& !paused && !pending ==> r == Err::<(), Error>(Error::PendingRotationMismatch)
                && final(env)@ == (EnvView { auths: old(env)@.auths.push(manager), ..old(env)@ })
            &&& !paused && pending ==> r == Ok::<(), Error>(()) && final(env)@ == (EnvView {
                store: s.remove(DataKey::PendingManager(id)),
                auths: old(env)@.auths.push(manager),
                effects: old(env)@.effects.push(
                    Effect::Publish(Event::PendingManagerCancelled { event_id: id }),
                ),
                ..old(env)@
            })
        }),
{
}

/// What is not there has no manager who could propose another.
pub proof fn law_missing_event_gets_no_proposal(
    env: &mut Env,
    id: u64,
    target: Address,
    r: Result<(), Error>,
)
    requires
        call_ensures(propose_manager, (env, id, target), r),
        event_in(old(env)@.store, id) is None,
    ensures
        old(env)@.settings.paused ==> r == Err::<(), Error>(Error::Paused),
        !old(env)@.settings.paused ==> r == Err::<(), Error>(Error::EventNotFound),
        final(env)@ == old(env)@,
{
}

/// What is not there has no proposal to withdraw.
pub proof fn law_missing_event_has_no_proposal(env: &mut Env, id: u64, r: Result<(), Error>)
    requires
        call_ensures(cancel_pending_manager, (env, id), r),
        event_in(old(env)@.store, id) is None,
    ensures
        old(env)@.settings.paused ==> r == Err::<(), Error>(Error::Paused),
        !old(env)@.settings.paused ==> r == Err::<(), Error>(Error::EventNotFound),
        final(env)@ == old(env)@,
{
}

} // verus!
