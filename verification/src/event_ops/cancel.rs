//! Cancelling an event and refunding its escrow, contributor by contributor in batches
//! that anyone may run.
use crate::amounts::{saturated, saturating_sub, share, share_of};
use crate::env::{writes_behind, Effect, Env, EnvView, Event};
use crate::errors::Error;
use crate::escrow::{release, released};
use crate::event_ops::funds::{get_or_init_non_owner_total, partner_total};
use crate::event_ops::manager::{event_to_change, manager_of_event, no_event, resolve_manager};
use crate::event_ops::MAX_REFUNDS_PER_BATCH;
use crate::idempotency::{mark_seen, marked_seen, require_unseen, seen_in};
use crate::storage::{
    cancellation_in, claim_expiry_in, continues, contribution_in, contributor_count_in,
    contributor_in, event_in, unclaimed_in, Entry, Store,
};
use crate::types::{
    Address, Bytes32, CancellationBranch, CancellationState, DataKey, EventRecord, EventStatus,
    ReleaseKind,
};
use vstd::prelude::*;

verus! {

/// Whether prizes are waiting for their winners and the time to claim them still runs.
pub open spec fn claims_open(env: EnvView, id: u64) -> bool {
    &&& event_in(env.store, id).unwrap().release_kind == ReleaseKind::Single
    &&& unclaimed_in(env.store, id) > 0
    &&& env.timestamp <= match claim_expiry_in(env.store, id) {
        Some(expiry) => expiry,
        None => 0,
    }
}

/// Why a cancellation is refused before the manager is asked for authorization.
pub open spec fn start_cancel_denial(env: EnvView, id: u64) -> Option<Error> {
    if no_event(env, id) is Some {
        no_event(env, id)
    } else if event_in(env.store, id).unwrap().status != EventStatus::Active {
        Some(Error::EventNotActive)
    } else if cancellation_in(env.store, id) is Some {
        Some(Error::CancellationAlreadyStarted)
    } else if claims_open(env, id) {
        Some(Error::WinnersAlreadySelected)
    } else {
        None
    }
}

/// Why a cancellation is refused after the manager has been asked for authorization.
pub open spec fn start_cancel_refusal(env: EnvView, id: u64, op_id: Bytes32) -> Option<Error> {
    if seen_in(env.store, manager_of_event(env.store, id), op_id) {
        Some(Error::DuplicateOperation)
    } else if partner_total(env.store, id) is Err {
        Some(Error::CancellationTotalMissing)
    } else {
        None
    }
}

/// How an escrow of `remaining` is refunded to contributors of `total` and to the owner.
pub open spec fn branch_for(total: i128, remaining: i128) -> CancellationBranch {
    if total <= 0 {
        CancellationBranch::OwnerOnly
    } else if remaining >= total {
        CancellationBranch::FullPartnerThenResidual
    } else {
        CancellationBranch::ProRataPartners
    }
}

/// The environment once the owner has got `amount` back, if it is anything.
pub open spec fn owner_refunded(
    env: EnvView,
    id: u64,
    event: EventRecord,
    amount: i128,
) -> EnvView {
    if amount > 0 {
        released(env, event.token, event.owner, amount).with(
            Effect::Publish(
                Event::OwnerResidualRefunded { event_id: id, owner: event.owner, amount },
            ),
        )
    } else {
        env
    }
}

/// The event once it has been cancelled for good.
pub open spec fn cancelled(event: EventRecord) -> EventRecord {
    EventRecord { remaining_escrow: 0, status: EventStatus::Cancelled, ..event }
}

/// What the cancellation that starts now has to refund.
pub open spec fn opening_state(s: Store, id: u64) -> CancellationState {
    let total = partner_total(s, id).unwrap();
    let remaining = event_in(s, id).unwrap().remaining_escrow;
    CancellationState {
        non_owner_total: total,
        remaining_at_start: remaining,
        count_at_start: contributor_count_in(s, id),
        next_idx: 0,
        branch: branch_for(total, remaining),
    }
}

/// The environment once the cancellation has started; if the owner alone is to be
/// refunded it is over with that.
pub open spec fn cancel_started(env: EnvView, id: u64, op_id: Bytes32) -> EnvView {
    let event = event_in(env.store, id).unwrap();
    let manager = manager_of_event(env.store, id);
    let state = opening_state(env.store, id);
    let asked = env.authorized_by(manager);
    if state.branch == CancellationBranch::OwnerOnly {
        marked_seen(
            owner_refunded(asked, id, event, event.remaining_escrow).put(
                DataKey::Event(id),
                Entry::Event(cancelled(event)),
            ).put(DataKey::NonOwnerContributionTotal(id), Entry::Amount(0)).with(
                Effect::Publish(Event::EventCancelled { id }),
            ),
            manager,
            op_id,
        )
    } else {
        marked_seen(
            asked.put(DataKey::CancellationState(id), Entry::Cancellation(state)).put(
                DataKey::Event(id),
                Entry::Event(EventRecord { status: EventStatus::Cancelling, ..event }),
            ),
            manager,
            op_id,
        )
    }
}

/// Why a step of a running cancellation is refused. Anyone may take such a step, so its
/// identifiers are kept under the contract's own address.
pub open spec fn cancel_step_refusal(env: EnvView, id: u64, op_id: Bytes32) -> Option<Error> {
    if env.settings.paused {
        Some(Error::Paused)
    } else if seen_in(env.store, env.contract, op_id) {
        Some(Error::DuplicateOperation)
    } else {
        match event_in(env.store, id) {
            None => Some(Error::EventNotFound),
            Some(event) => if event.status != EventStatus::Cancelling || cancellation_in(
                env.store,
                id,
            ) is None {
                Some(Error::CancellationNotStarted)
            } else {
                None
            },
        }
    }
}

/// Whether the cancellation of an event, if it shares the escrow out in proportion to
/// the contributions, has contributions to share it by. Every cancellation that
/// [`start_cancel`] starts has.
pub open spec fn divisible(s: Store, id: u64) -> bool {
    match cancellation_in(s, id) {
        Some(state) => state.branch == CancellationBranch::ProRataPartners
            ==> state.non_owner_total > 0,
        None => true,
    }
}

/// What a contributor of `amount` gets back.
pub open spec fn payout(state: CancellationState, amount: i128) -> i128 {
    match state.branch {
        CancellationBranch::FullPartnerThenResidual => amount,
        CancellationBranch::ProRataPartners => share(
            amount as int,
            state.remaining_at_start as int,
            state.non_owner_total as int,
        ),
        CancellationBranch::OwnerOnly => 0,
    }
}

/// The environment once the contributor at place `idx`, if there is one with anything
/// left, has been refunded.
pub open spec fn refunded_at(
    env: EnvView,
    id: u64,
    token: Address,
    state: CancellationState,
    idx: u32,
) -> EnvView {
    match contributor_in(env.store, id, idx) {
        None => env,
        Some(contributor) => {
            let amount = contribution_in(env.store, id, contributor);
            let back = payout(state, amount);
            if amount <= 0 {
                env
            } else {
                (if back > 0 {
                    released(env, token, contributor, back).with(
                        Effect::Publish(
                            Event::ContributorRefunded { event_id: id, contributor, amount: back },
                        ),
                    )
                } else {
                    env
                }).put(DataKey::ContributorAmount(id, contributor), Entry::Amount(0))
            }
        },
    }
}

/// The environment once the contributors at the places from `from` up to `to` have been
/// refunded, one after the other.
pub open spec fn refunded_between(
    env: EnvView,
    id: u64,
    token: Address,
    state: CancellationState,
    from: int,
    to: int,
) -> EnvView
    decreases to - from,
{
    if to <= from {
        env
    } else {
        refunded_at(
            refunded_between(env, id, token, state, from, to - 1),
            id,
            token,
            state,
            (to - 1) as u32,
        )
    }
}

/// Up to which place a batch of at most `max_refunds` goes.
pub open spec fn batch_end(state: CancellationState, max_refunds: u32) -> u32 {
    let cap = if max_refunds > MAX_REFUNDS_PER_BATCH {
        MAX_REFUNDS_PER_BATCH
    } else {
        max_refunds
    };
    if state.next_idx >= state.count_at_start {
        state.next_idx
    } else if state.next_idx + cap >= state.count_at_start {
        state.count_at_start
    } else {
        (state.next_idx + cap) as u32
    }
}

/// The environment once a batch has been refunded.
pub open spec fn batch_processed(
    env: EnvView,
    id: u64,
    max_refunds: u32,
    op_id: Bytes32,
) -> EnvView {
    let event = event_in(env.store, id).unwrap();
    let state = cancellation_in(env.store, id).unwrap();
    let end = batch_end(state, max_refunds);
    marked_seen(
        refunded_between(env, id, event.token, state, state.next_idx as int, end as int).put(
            DataKey::CancellationState(id),
            Entry::Cancellation(CancellationState { next_idx: end, ..state }),
        ),
        env.contract,
        op_id,
    )
}

/// How many contributors are still to be looked at.
pub open spec fn left_to_refund(state: CancellationState) -> u32 {
    if state.next_idx >= state.count_at_start {
        0
    } else {
        (state.count_at_start - state.next_idx) as u32
    }
}

/// Why a cancellation cannot be closed.
pub open spec fn finalize_cancel_refusal(env: EnvView, id: u64, op_id: Bytes32) -> Option<Error> {
    if cancel_step_refusal(env, id, op_id) is Some {
        cancel_step_refusal(env, id, op_id)
    } else if left_to_refund(cancellation_in(env.store, id).unwrap()) > 0 {
        Some(Error::CancellationNotFinished)
    } else {
        None
    }
}

/// What is left for the owner once every contributor has been refunded.
pub open spec fn owner_residual(state: CancellationState) -> i128 {
    if state.branch == CancellationBranch::FullPartnerThenResidual {
        saturated(state.remaining_at_start - state.non_owner_total)
    } else {
        0
    }
}

/// The environment once the cancellation has been closed.
pub open spec fn cancel_finalized(env: EnvView, id: u64, op_id: Bytes32) -> EnvView {
    let event = event_in(env.store, id).unwrap();
    let state = cancellation_in(env.store, id).unwrap();
    marked_seen(
        owner_refunded(env, id, event, owner_residual(state)).put(
            DataKey::Event(id),
            Entry::Event(cancelled(event)),
        ).erase(DataKey::CancellationState(id)).put(
            DataKey::NonOwnerContributionTotal(id),
            Entry::Amount(0),
        ).with(Effect::Publish(Event::EventCancelled { id })),
        env.contract,
        op_id,
    )
}

/// Pays `amount` back to the owner, if it is anything.
fn refund_owner(env: &mut Env, event_id: u64, event: &EventRecord, amount: i128)
    ensures
        final(env)@ == owner_refunded(old(env)@, event_id, *event, amount),
        final(env).storage == old(env).storage,
{
    if amount > 0 {
        release(env, event.token, event.owner, amount);
        env.publish(Event::OwnerResidualRefunded { event_id, owner: event.owner, amount });
    }
}

/// The manager cancels an active event. Prizes that winners have not claimed hold it up
/// until their time has run out; then they go back with the rest.
pub fn start_cancel(env: &mut Env, event_id: u64, op_id: Bytes32) -> (r: Result<(), Error>)
    ensures
        match start_cancel_denial(old(env)@, event_id) {
            Some(error) => r == Err::<(), Error>(error) && final(env)@ == old(env)@,
            None => match start_cancel_refusal(old(env)@, event_id, op_id) {
                Some(error) => r == Err::<(), Error>(error) && final(env)@
                    == old(env)@.authorized_by(manager_of_event(old(env)@.store, event_id)),
                None => r == Ok::<(), Error>(()) && final(env)@ == cancel_started(
                    old(env)@,
                    event_id,
                    op_id,
                ),
            },
        },
        writes_behind(*old(env), *final(env), r is Ok),
{
    let mut event: EventRecord = event_to_change(env, event_id)?;
    if event.status != EventStatus::Active {
        return Err(Error::EventNotActive);
    }
    if env.storage.cancellation(event_id).is_some() {
        return Err(Error::CancellationAlreadyStarted);
    }
    if event.release_kind == ReleaseKind::Single && env.storage.count(
        DataKey::EventUnclaimedPrizes(event_id),
    ) > 0 {
        let expiry: u64 = match env.storage.number(DataKey::EventPrizeClaimExpiry(event_id)) {
            Some(expiry) => expiry,
            None => 0,
        };
        if env.timestamp <= expiry {
            return Err(Error::WinnersAlreadySelected);
        }
    }
    let ghost pre = env@;
    let manager: Address = resolve_manager(env, event_id, event.owner);
    env.require_auth(manager);
    require_unseen(env, manager, op_id)?;

    let remaining: i128 = event.remaining_escrow;
    let count: u32 = env.storage.count(DataKey::ContributorCount(event_id));
    let non_owner_total: i128 = get_or_init_non_owner_total(env, event_id)?;

    if non_owner_total <= 0 {
        refund_owner(env, event_id, &event, remaining);
        event.remaining_escrow = 0;
        event.status = EventStatus::Cancelled;
        env.put(DataKey::Event(event_id), Entry::Event(event));
        env.put(DataKey::NonOwnerContributionTotal(event_id), Entry::Amount(0));
        env.publish(Event::EventCancelled { id: event_id });
        mark_seen(env, manager, op_id);
        assert(env@ =~= cancel_started(pre, event_id, op_id));
        return Ok(());
    }
    let branch: CancellationBranch = if remaining >= non_owner_total {
        CancellationBranch::FullPartnerThenResidual
    } else {
        CancellationBranch::ProRataPartners
    };
    let state: CancellationState = CancellationState {
        non_owner_total,
        remaining_at_start: remaining,
        count_at_start: count,
        next_idx: 0,
        branch,
    };
    env.put(DataKey::CancellationState(event_id), Entry::Cancellation(state));
    event.status = EventStatus::Cancelling;
    env.put(DataKey::Event(event_id), Entry::Event(event));
    mark_seen(env, manager, op_id);
    Ok(())
}

/// Refunds the contributor at place `idx`.
fn refund_contributor(
    env: &mut Env,
    event_id: u64,
    token: Address,
    state: CancellationState,
    idx: u32,
)
    requires
        state.branch == CancellationBranch::ProRataPartners ==> state.non_owner_total > 0,
    ensures
        final(env)@ == refunded_at(old(env)@, event_id, token, state, idx),
        writes_behind(*old(env), *final(env), true),
{
    let contributor: Address = match env.storage.address(DataKey::ContributorAt(event_id, idx)) {
        Some(contributor) => contributor,
        None => return,
    };
    let amount: i128 = env.storage.contribution(event_id, contributor);
    if amount <= 0 {
        return;
    }
    let back: i128 = match state.branch {
        CancellationBranch::FullPartnerThenResidual => amount,
        CancellationBranch::ProRataPartners => share_of(
            amount,
            state.remaining_at_start,
            state.non_owner_total,
        ),
        CancellationBranch::OwnerOnly => 0,
    };
    if back > 0 {
        release(env, token, contributor, back);
        env.publish(Event::ContributorRefunded { event_id, contributor, amount: back });
    }
    env.put(DataKey::ContributorAmount(event_id, contributor), Entry::Amount(0));
}

/// Looks up the event and the state of a running cancellation.
pub fn running_cancellation(env: &Env, event_id: u64, op_id: Bytes32) -> (r: Result<
    (EventRecord, CancellationState),
    Error,
>)
    ensures
        r == match cancel_step_refusal(env@, event_id, op_id) {
            Some(error) => Err::<(EventRecord, CancellationState), Error>(error),
            None => Ok(
                (
                    event_in(env@.store, event_id).unwrap(),
                    cancellation_in(env@.store, event_id).unwrap(),
                ),
            ),
        },
{
    if env.settings.paused {
        return Err(Error::Paused);
    }
    require_unseen(env, env.contract, op_id)?;
    let event: EventRecord = match env.storage.event(event_id) {
        Some(event) => event,
        None => return Err(Error::EventNotFound),
    };
    if event.status != EventStatus::Cancelling {
        return Err(Error::CancellationNotStarted);
    }
    match env.storage.cancellation(event_id) {
        Some(state) => Ok((event, state)),
        None => Err(Error::CancellationNotStarted),
    }
}

/// Refunds the next contributors of an event that is being cancelled, at most
/// `max_refunds` of them and at most [`MAX_REFUNDS_PER_BATCH`]. Returns how many are
/// still to be looked at. Anyone may call it.
pub fn process_cancel_batch(
    env: &mut Env,
    event_id: u64,
    max_refunds: u32,
    op_id: Bytes32,
) -> (r: Result<u32, Error>)
    requires
        cancel_step_refusal(old(env)@, event_id, op_id) is None ==> divisible(
            old(env)@.store,
            event_id,
        ),
    ensures
        match cancel_step_refusal(old(env)@, event_id, op_id) {
            Some(error) => r == Err::<u32, Error>(error) && final(env)@ == old(env)@,
            None => r == Ok::<u32, Error>(
                left_to_refund(cancellation_in(final(env)@.store, event_id).unwrap()),
            ) && final(env)@ == batch_processed(old(env)@, event_id, max_refunds, op_id),
        },
        writes_behind(*old(env), *final(env), r is Ok),
{
    let (event, before): (EventRecord, CancellationState) = running_cancellation(
        env,
        event_id,
        op_id,
    )?;
    let domain: Address = env.contract;
    let cap: u32 = if max_refunds > MAX_REFUNDS_PER_BATCH {
        MAX_REFUNDS_PER_BATCH
    } else {
        max_refunds
    };
    let mut processed: u32 = 0;
    let mut state: CancellationState = before;
    let ghost pre = env@;
    let ghost written = env.storage.log@;
    while processed < cap && state.next_idx < state.count_at_start
        invariant
            processed <= cap,
            cap == if max_refunds > MAX_REFUNDS_PER_BATCH {
                MAX_REFUNDS_PER_BATCH
            } else {
                max_refunds
            },
            before.branch == CancellationBranch::ProRataPartners ==> before.non_owner_total > 0,
            state == (CancellationState { next_idx: state.next_idx, ..before }),
            state.next_idx == before.next_idx + processed,
            processed > 0 ==> state.next_idx <= state.count_at_start,
            env@ == refunded_between(
                pre,
                event_id,
                event.token,
                before,
                before.next_idx as int,
                state.next_idx as int,
            ),
            continues(env.storage.log@, written),
        decreases cap - processed,
    {
        let idx: u32 = state.next_idx;
        state.next_idx = idx + 1;
        processed = processed + 1;
        refund_contributor(env, event_id, event.token, before, idx);
    }
    assert(state.next_idx == batch_end(before, max_refunds));
    env.put(DataKey::CancellationState(event_id), Entry::Cancellation(state));
    mark_seen(env, domain, op_id);
    Ok(state.count_at_start.saturating_sub(state.next_idx))
}

/// Closes a cancellation whose contributors have all been looked at: the owner gets what
/// is left, where the contributors have been refunded in full. Anyone may call it.
pub fn finalize_cancel(env: &mut Env, event_id: u64, op_id: Bytes32) -> (r: Result<(), Error>)
    ensures
        match finalize_cancel_refusal(old(env)@, event_id, op_id) {
            Some(error) => r == Err::<(), Error>(error) && final(env)@ == old(env)@,
            None => r == Ok::<(), Error>(()) && final(env)@ == cancel_finalized(
                old(env)@,
                event_id,
                op_id,
            ),
        },
        writes_behind(*old(env), *final(env), r is Ok),
{
    let (mut event, state): (EventRecord, CancellationState) = running_cancellation(
        env,
        event_id,
        op_id,
    )?;
    let domain: Address = env.contract;
    if state.next_idx < state.count_at_start {
        return Err(Error::CancellationNotFinished);
    }
    if state.branch == CancellationBranch::FullPartnerThenResidual {
        let residual: i128 = saturating_sub(state.remaining_at_start, state.non_owner_total);
        refund_owner(env, event_id, &event, residual);
    }
    event.remaining_escrow = 0;
    event.status = EventStatus::Cancelled;
    env.put(DataKey::Event(event_id), Entry::Event(event));
    env.erase(DataKey::CancellationState(event_id));
    env.put(DataKey::NonOwnerContributionTotal(event_id), Entry::Amount(0));
    env.publish(Event::EventCancelled { id: event_id });
    mark_seen(env, domain, op_id);
    Ok(())
}

} // verus!
