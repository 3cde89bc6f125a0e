//! Who manages an event: its owner, until a manager that was proposed accepts.
use crate::env::{writes_behind, Effect, Env, EnvView, Event};
use crate::errors::Error;
use crate::event_ops::PENDING_MANAGER_TTL_LEDGERS;
use crate::storage::{address_in, event_in, pending_manager_in, Entry, Store};
use crate::types::{Address, DataKey, EventRecord, PendingManager};
use vstd::prelude::*;

verus! {

/// The manager of an event that `owner` owns.
pub open spec fn manager_in(s: Store, id: u64, owner: Address) -> Address {
    match address_in(s, DataKey::EventManager(id)) {
        Some(manager) => manager,
        None => owner,
    }
}

/// The manager of an event that exists.
pub open spec fn manager_of_event(s: Store, id: u64) -> Address {
    manager_in(s, id, event_in(s, id).unwrap().owner)
}

/// The proposal of `target` as manager, made at ledger `sequence`.
pub open spec fn proposal(target: Address, sequence: u32) -> PendingManager {
    PendingManager {
        target,
        expires_at_ledger: sequence.saturating_add(PENDING_MANAGER_TTL_LEDGERS),
    }
}

/// The environment once `target` has been proposed as manager.
pub open spec fn proposed(env: EnvView, id: u64, target: Address) -> EnvView {
    let pending = proposal(target, env.sequence);
    env.put(DataKey::PendingManager(id), Entry::PendingManager(pending)).with(
        Effect::Publish(
            Event::ManagerProposed {
                event_id: id,
                target,
                expires_at_ledger: pending.expires_at_ledger,
            },
        ),
    )
}

/// The environment once a pending proposal, if there is one, has been announced as void.
pub open spec fn proposal_voided(env: EnvView, id: u64) -> EnvView {
    if pending_manager_in(env.store, id) is Some {
        env.with(Effect::Publish(Event::PendingManagerCancelled { event_id: id }))
    } else {
        env
    }
}

/// Why an operation on an event is refused before anything else is looked at: the
/// contract is paused, or there is no such event.
pub open spec fn no_event(env: EnvView, id: u64) -> Option<Error> {
    if env.settings.paused {
        Some(Error::Paused)
    } else if event_in(env.store, id) is None {
        Some(Error::EventNotFound)
    } else {
        None
    }
}

pub open spec fn accept_manager_refusal(env: EnvView, id: u64) -> Option<Error> {
    if no_event(env, id) is Some {
        no_event(env, id)
    } else {
        match pending_manager_in(env.store, id) {
            None => Some(Error::PendingRotationMismatch),
            Some(pending) => if env.sequence > pending.expires_at_ledger {
                Some(Error::PendingRotationExpired)
            } else {
                None
            },
        }
    }
}

/// The environment once the proposed manager has taken over.
pub open spec fn manager_accepted(env: EnvView, id: u64) -> EnvView {
    let target = pending_manager_in(env.store, id).unwrap().target;
    env.authorized_by(target).put(DataKey::EventManager(id), Entry::Address(target)).erase(
        DataKey::PendingManager(id),
    ).with(Effect::Publish(Event::ManagerChanged { event_id: id, new_manager: target }))
}

/// The environment once the proposal has been withdrawn.
pub open spec fn pending_manager_cancelled(env: EnvView, id: u64) -> EnvView {
    env.erase(DataKey::PendingManager(id)).with(
        Effect::Publish(Event::PendingManagerCancelled { event_id: id }),
    )
}

pub fn resolve_manager(env: &Env, event_id: u64, owner: Address) -> (r: Address)
    ensures
        r == manager_in(env@.store, event_id, owner),
{
    match env.storage.address(DataKey::EventManager(event_id)) {
        Some(manager) => manager,
        None => owner,
    }
}

/// Looks up an event for an operation that changes it.
pub(crate) fn event_to_change(env: &Env, event_id: u64) -> (r: Result<EventRecord, Error>)
    ensures
        r == match no_event(env@, event_id) {
            Some(error) => Err::<EventRecord, Error>(error),
            None => Ok(event_in(env@.store, event_id).unwrap()),
        },
{
    if env.settings.paused {
        return Err(Error::Paused);
    }
    match env.storage.event(event_id) {
        Some(event) => Ok(event),
        None => Err(Error::EventNotFound),
    }
}

/// Records the proposal of a manager and announces it.
pub(crate) fn record_proposal(env: &mut Env, event_id: u64, target: Address)
    ensures
        final(env)@ == proposed(old(env)@, event_id, target),
        writes_behind(*old(env), *final(env), true),
{
    let expires_at_ledger: u32 = env.sequence.saturating_add(PENDING_MANAGER_TTL_LEDGERS);
    env.put(
        DataKey::PendingManager(event_id),
        Entry::PendingManager(PendingManager { target, expires_at_ledger }),
    );
    env.publish(Event::ManagerProposed { event_id, target, expires_at_ledger });
}

/// The manager proposes a successor, who still has to accept. A proposal that was
/// pending is void from then on, and announced as such.
pub fn propose_manager(env: &mut Env, event_id: u64, new_manager: Address) -> (r: Result<(), Error>)
    ensures
        match no_event(old(env)@, event_id) {
            Some(error) => r == Err::<(), Error>(error) && final(env)@ == old(env)@,
            None => r == Ok::<(), Error>(()) && final(env)@ == proposed(
                proposal_voided(
                    old(env)@.authorized_by(manager_of_event(old(env)@.store, event_id)),
                    event_id,
                ),
                event_id,
                new_manager,
            ),
        },
        writes_behind(*old(env), *final(env), r is Ok),
{
    let event: EventRecord = event_to_change(env, event_id)?;
    let manager: Address = resolve_manager(env, event_id, event.owner);
    env.require_auth(manager);
    if env.storage.pending_manager(event_id).is_some() {
        env.publish(Event::PendingManagerCancelled { event_id });
    }
    record_proposal(env, event_id, new_manager);
    Ok(())
}

/// The proposed manager takes over, unless the proposal has expired.
pub fn accept_manager(env: &mut Env, event_id: u64) -> (r: Result<(), Error>)
    ensures
        match accept_manager_refusal(old(env)@, event_id) {
            Some(error) => r == Err::<(), Error>(error) && final(env)@ == old(env)@,
            None => r == Ok::<(), Error>(()) && final(env)@ == manager_accepted(
                old(env)@,
                event_id,
            ),
        },
        writes_behind(*old(env), *final(env), r is Ok),
{
    let _ = event_to_change(env, event_id)?;
    let pending: PendingManager = match env.storage.pending_manager(event_id) {
        Some(pending) => pending,
        None => return Err(Error::PendingRotationMismatch),
    };
    if env.sequence > pending.expires_at_ledger {
        return Err(Error::PendingRotationExpired);
    }
    env.require_auth(pending.target);
    env.put(DataKey::EventManager(event_id), Entry::Address(pending.target));
    env.erase(DataKey::PendingManager(event_id));
    env.publish(Event::ManagerChanged { event_id, new_manager: pending.target });
    Ok(())
}

/// The manager withdraws the pending proposal.
pub fn cancel_pending_manager(env: &mut Env, event_id: u64) -> (r: Result<(), Error>)
    ensures
        match no_event(old(env)@, event_id) {
            Some(error) => r == Err::<(), Error>(error) && final(env)@ == old(env)@,
            None => {
                let asked = old(env)@.authorized_by(manager_of_event(old(env)@.store, event_id));
                if pending_manager_in(old(env)@.store, event_id) is None {
                    r == Err::<(), Error>(Error::PendingRotationMismatch) && final(env)@ == asked
                } else {
                    r == Ok::<(), Error>(()) && final(env)@ == pending_manager_cancelled(
                        asked,
                        event_id,
                    )
                }
            },
        },
        writes_behind(*old(env), *final(env), r is Ok),
{
    let event: EventRecord = event_to_change(env, event_id)?;
    let manager: Address = resolve_manager(env, event_id, event.owner);
    env.require_auth(manager);
    if env.storage.pending_manager(event_id).is_none() {
        return Err(Error::PendingRotationMismatch);
    }
    env.erase(DataKey::PendingManager(event_id));
    env.publish(Event::PendingManagerCancelled { event_id });
    Ok(())
}

pub fn get_manager(env: &Env, event_id: u64) -> (r: Result<Address, Error>)
    ensures
        r == match event_in(env@.store, event_id) {
            Some(event) => Ok::<Address, Error>(manager_in(env@.store, event_id, event.owner)),
            None => Err(Error::EventNotFound),
        },
{
    match env.storage.event(event_id) {
        Some(event) => Ok(resolve_manager(env, event_id, event.owner)),
        None => Err(Error::EventNotFound),
    }
}

pub fn get_pending_manager(env: &Env, event_id: u64) -> (r: Result<Option<PendingManager>, Error>)
    ensures
        r == match event_in(env@.store, event_id) {
            Some(_) => Ok::<Option<PendingManager>, Error>(
                pending_manager_in(env@.store, event_id),
            ),
            None => Err(Error::EventNotFound),
        },
{
    match env.storage.event(event_id) {
        Some(_) => Ok(env.storage.pending_manager(event_id)),
        None => Err(Error::EventNotFound),
    }
}

} // verus!
