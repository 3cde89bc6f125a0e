//! When an event may be cancelled, and who gets what back.
use crate::env::{Effect, Env, EnvView, Event, Transfer};
use crate::errors::Error;
use crate::event_ops::cancel::{
    finalize_cancel, process_cancel_batch, refunded_at, refunded_between, running_cancellation,
    start_cancel,
};
use crate::laws::shares::lemma_share_floor;
use crate::storage::{
    address_in, cancellation_in, claim_expiry_in, contribution_in, contributor_count_in,
    contributor_in, entry_in, event_in, flag_in, non_owner_total_in, unclaimed_in, Entry,
};
use crate::types::{
    Address, Bytes32, CancellationBranch, CancellationState, DataKey, EventRecord, EventStatus,
    ReleaseKind,
};
use vstd::prelude::*;

verus! {

/// An active event may be cancelled by its manager while the contract is not paused,
/// unless a cancellation is on file or prizes wait to be claimed in time, once for each
/// identifier of an operation, if the books know what has been paid in.
pub proof fn law_active_event_may_be_cancelled(
    env: &mut Env,
    id: u64,
    op_id: Bytes32,
    r: Result<(), Error>,
    event: EventRecord,
    manager: Address,
)
    requires
        call_ensures(start_cancel, (env, id, op_id), r),
        event_in(old(env)@.store, id) == Some(event),
        address_in(old(env)@.store, DataKey::EventManager(id)) == Some(manager) || address_in(
            old(env)@.store,
            DataKey::EventManager(id),
        ) is None && manager == event.owner,
    ensures
        ({
            let s = old(env)@.store;
            let claimable = event.release_kind == ReleaseKind::Single && unclaimed_in(s, id) > 0
                && match claim_expiry_in(s, id) {
                Some(expiry) => old(env)@.timestamp <= expiry,
                None => old(env)@.timestamp == 0,
            };
            let asked = !old(env)@.settings.paused && event.status == EventStatus::Active
                && cancellation_in(s, id) is None && !claimable;
            let seen = flag_in(s, DataKey::OpSeen(manager, op_id));
            let known = non_owner_total_in(s, id) is Some || contributor_count_in(s, id) == 0;
            &&& r is Ok <==> asked && !seen && known
            &&& final(env)@.auths == if asked {
                old(env)@.auths.push(manager)
            } else {
                old(env)@.auths
            }
            &&& old(env)@.settings.paused ==> r == Err::<(), Error>(Error::Paused)
            &&& !old(env)@.settings.paused && event.status != EventStatus::Active ==> r == Err::<
                (),
                Error,
            >(Error::EventNotActive)
            &&& !old(env)@.settings.paused && event.status == EventStatus::Active
                && cancellation_in(s, id) is Some ==> r == Err::<(), Error>(
                Error::CancellationAlreadyStarted,
            )
            &&& !old(env)@.settings.paused && event.status == EventStatus::Active
                && cancellation_in(s, id) is None && claimable ==> r == Err::<(), Error>(
                Error::WinnersAlreadySelected,
            )
            &&& asked && seen ==> r == Err::<(), Error>(Error::DuplicateOperation)
            &&& asked && !seen && !known ==> r == Err::<(), Error>(Error::CancellationTotalMissing)
        }),
        r is Err ==> final(env)@ == (EnvView { auths: final(env)@.auths, ..old(env)@ }),
{
}

/// What is not there cannot be cancelled.
pub proof fn law_missing_event_cannot_be_cancelled(
    env: &mut Env,
    id: u64,
    op_id: Bytes32,
    r: Result<(), Error>,
)
    requires
        call_ensures(start_cancel, (env, id, op_id), r),
        event_in(old(env)@.store, id) is None,
    ensures
        old(env)@.settings.paused ==> r == Err::<(), Error>(Error::Paused),
        !old(env)@.settings.paused ==> r == Err::<(), Error>(Error::EventNotFound),
        final(env)@ == old(env)@,
{
}

/// As soon as anyone but the owner has money in an event, its cancellation moves nothing
/// by itself: the escrow stays where it is and a plan goes on file that starts with the
/// first contributor, counts everyone in the list, and refunds in full if the escrow
/// covers the contributions, be it only just, and in proportion if it does not.
pub proof fn law_contributors_are_refunded_first(
    env: &mut Env,
    id: u64,
    op_id: Bytes32,
    r: Result<(), Error>,
    event: EventRecord,
    manager: Address,
    total: i128,
)
    requires
        call_ensures(start_cancel, (env, id, op_id), r),
        r is Ok,
        event_in(old(env)@.store, id) == Some(event),
        address_in(old(env)@.store, DataKey::EventManager(id)) == Some(manager) || address_in(
            old(env)@.store,
            DataKey::EventManager(id),
        ) is None && manager == event.owner,
        entry_in(old(env)@.store, DataKey::NonOwnerContributionTotal(id)) == Some(
            Entry::Amount(total),
        ),
        total > 0,
    ensures
        final(env)@.effects == old(env)@.effects,
        ({
            let plan = |branch: CancellationBranch|
                CancellationState {
                    non_owner_total: total,
                    remaining_at_start: event.remaining_escrow,
                    count_at_start: contributor_count_in(old(env)@.store, id),
                    next_idx: 0,
                    branch,
                };
            let full = plan(CancellationBranch::FullPartnerThenResidual);
            let pro_rata = plan(CancellationBranch::ProRataPartners);
            let started = old(env)@.store.insert(
                DataKey::OpSeen(manager, op_id),
                Entry::Flag(true),
            ).insert(
                DataKey::Event(id),
                Entry::Event(EventRecord { status: EventStatus::Cancelling, ..event }),
            );
            let key = DataKey::CancellationState(id);
            &&& event.remaining_escrow >= total ==> final(env)@.store == started.insert(
                key,
                Entry::Cancellation(full),
            )
            &&& event.remaining_escrow < total ==> final(env)@.store == started.insert(
                key,
                Entry::Cancellation(pro_rata),
            )
        }),
        final(env)@ == (EnvView {
            store: final(env)@.store,
            auths: old(env)@.auths.push(manager),
            ..old(env)@
        }),
{
}

/// Where nobody but the owner has money in an event, the owner gets the whole escrow back,
/// if there is any, and the event is cancelled at once and for good.
pub proof fn law_owner_alone_is_refunded_at_once(
    env: &mut Env,
    id: u64,
    op_id: Bytes32,
    r: Result<(), Error>,
    event: EventRecord,
    manager: Address,
)
    requires
        call_ensures(start_cancel, (env, id, op_id), r),
        r is Ok,
        event_in(old(env)@.store, id) == Some(event),
        address_in(old(env)@.store, DataKey::EventManager(id)) == Some(manager) || address_in(
            old(env)@.store,
            DataKey::EventManager(id),
        ) is None && manager == event.owner,
        non_owner_total_in(old(env)@.store, id) is None || non_owner_total_in(
            old(env)@.store,
            id,
        ).unwrap() <= 0,
    ensures
        ({
            let back = Effect::Transfer(
                Transfer {
                    token: event.token,
                    from: old(env)@.contract,
                    to: event.owner,
                    amount: event.remaining_escrow,
                },
            );
            let refunded = Effect::Publish(
                Event::OwnerResidualRefunded {
                    event_id: id,
                    owner: event.owner,
                    amount: event.remaining_escrow,
                },
            );
            let over = Effect::Publish(Event::EventCancelled { id });
            &&& event.remaining_escrow > 0 ==> final(env)@.effects == old(env)@.effects.push(
                back,
            ).push(refunded).push(over)
            &&& event.remaining_escrow <= 0 ==> final(env)@.effects == old(env)@.effects.push(over)
        }),
        final(env)@.store == old(env)@.store.insert(
            DataKey::OpSeen(manager, op_id),
            Entry::Flag(true),
        ).insert(
            DataKey::Event(id),
            Entry::Event(
                EventRecord { remaining_escrow: 0, status: EventStatus::Cancelled, ..event },
            ),
        ).insert(DataKey::NonOwnerContributionTotal(id), Entry::Amount(0)),
        final(env)@ == (EnvView {
            store: final(env)@.store,
            auths: old(env)@.auths.push(manager),
            effects: final(env)@.effects,
            ..old(env)@
        }),
{
}

/// A cancellation that has started may be carried on by anyone while the contract is not
/// paused, once for each identifier of an operation that the contract itself has not seen;
/// nobody is asked for authorization.
pub proof fn law_anyone_may_carry_on(
    env: &mut Env,
    id: u64,
    max_refunds: u32,
    op_id: Bytes32,
    r: Result<u32, Error>,
)
    requires
        call_ensures(process_cancel_batch, (env, id, max_refunds, op_id), r),
    ensures
        ({
            let s = old(env)@.store;
            let paused = old(env)@.settings.paused;
            let seen = flag_in(s, DataKey::OpSeen(old(env)@.contract, op_id));
            let there = event_in(s, id) is Some;
            let running = there && event_in(s, id).unwrap().status == EventStatus::Cancelling
                && cancellation_in(s, id) is Some;
            &&& r is Ok <==> !paused && !seen && running
            &&& paused ==> r == Err::<u32, Error>(Error::Paused)
            &&& !paused && seen ==> r == Err::<u32, Error>(Error::DuplicateOperation)
            &&& !paused && !seen && !there ==> r == Err::<u32, Error>(Error::EventNotFound)
            &&& !paused && !seen && there && !running ==> r == Err::<u32, Error>(
                Error::CancellationNotStarted,
            )
        }),
        final(env)@.auths == old(env)@.auths,
        r is Err ==> final(env)@ == old(env)@,
{
    if r is Ok {
        lemma_refunds_ask_nobody(
            old(env)@,
            id,
            event_in(old(env)@.store, id).unwrap().token,
            cancellation_in(old(env)@.store, id).unwrap(),
            cancellation_in(old(env)@.store, id).unwrap().next_idx as int,
            cancellation_in(final(env)@.store, id).unwrap().next_idx as int,
        );
    }
}

/// Refunds change the books and move tokens, and nothing else.
proof fn lemma_refunds_ask_nobody(
    env: EnvView,
    id: u64,
    token: Address,
    state: CancellationState,
    from: int,
    to: int,
)
    ensures
        ({
            let after = refunded_between(env, id, token, state, from, to);
            after == (EnvView { store: after.store, effects: after.effects, ..env })
        }),
    decreases to - from,
{
    if from < to {
        lemma_refunds_ask_nobody(env, id, token, state, from, to - 1);
    }
}

/// A batch goes on where the last one stopped, and for as many places as it is asked for,
/// but not for more than twenty-five and not beyond the last contributor. It returns how
/// many places are left.
pub proof fn law_batch_goes_on_where_the_last_stopped(
    env: &mut Env,
    id: u64,
    max_refunds: u32,
    op_id: Bytes32,
    r: Result<u32, Error>,
    event: EventRecord,
    state: CancellationState,
)
    requires
        call_ensures(process_cancel_batch, (env, id, max_refunds, op_id), r),
        r is Ok,
        event_in(old(env)@.store, id) == Some(event),
        cancellation_in(old(env)@.store, id) == Some(state),
    ensures
        ({
            let end = cancellation_in(final(env)@.store, id).unwrap().next_idx;
            let most = if max_refunds > 25 {
                25int
            } else {
                max_refunds as int
            };
            &&& state.next_idx >= state.count_at_start ==> end == state.next_idx
            &&& state.next_idx < state.count_at_start && state.count_at_start - state.next_idx
                <= most ==> end == state.count_at_start
            &&& state.next_idx < state.count_at_start && state.count_at_start - state.next_idx
                > most ==> end == state.next_idx + most
            &&& end >= state.count_at_start ==> r == Ok::<u32, Error>(0)
            &&& end < state.count_at_start ==> r == Ok::<u32, Error>(
                (state.count_at_start - end) as u32,
            )
            &&& final(env)@ == (EnvView {
                store: refunded_between(
                    old(env)@,
                    id,
                    event.token,
                    state,
                    state.next_idx as int,
                    end as int,
                ).store.insert(
                    DataKey::CancellationState(id),
                    Entry::Cancellation(CancellationState { next_idx: end, ..state }),
                ).insert(DataKey::OpSeen(old(env)@.contract, op_id), Entry::Flag(true)),
                effects: refunded_between(
                    old(env)@,
                    id,
                    event.token,
                    state,
                    state.next_idx as int,
                    end as int,
                ).effects,
                ..old(env)@
            })
        }),
{
    let end = cancellation_in(final(env)@.store, id).unwrap().next_idx;
    lemma_refunds_ask_nobody(
        old(env)@,
        id,
        event.token,
        state,
        state.next_idx as int,
        end as int,
    );
}

/// The places of a batch are refunded one after the other: a batch that is one place
/// longer does the same and then refunds that place.
pub proof fn law_places_are_refunded_in_turn(
    env: EnvView,
    id: u64,
    token: Address,
    state: CancellationState,
    from: u32,
    to: u32,
)
    ensures
        to <= from ==> refunded_between(env, id, token, state, from as int, to as int) == env,
        from <= to ==> refunded_between(env, id, token, state, from as int, to + 1) == refunded_at(
            refunded_between(env, id, token, state, from as int, to as int),
            id,
            token,
            state,
            to,
        ),
{
}

/// A contributor with money in the event gets it back in full, or in proportion, that is
/// the largest amount that is to the contribution no more than the escrow is to all
/// contributions; the contributor has nothing in the event from then on. An amount of
/// nothing is not paid, and where there is no contributor with money in the event nothing
/// happens.
pub proof fn law_contributor_gets_the_due_part(
    env: EnvView,
    id: u64,
    token: Address,
    state: CancellationState,
    idx: u32,
    who: Address,
    amount: i128,
)
    requires
        contributor_in(env.store, id, idx) == Some(who),
        contribution_in(env.store, id, who) == amount,
        state.branch == CancellationBranch::ProRataPartners ==> state.non_owner_total > 0,
    ensures
        ({
            let after = refunded_at(env, id, token, state, idx);
            let n = env.effects.len() as int;
            let paid = |back: i128|
                Effect::Transfer(Transfer { token, from: env.contract, to: who, amount: back });
            let told = |back: i128|
                Effect::Publish(
                    Event::ContributorRefunded { event_id: id, contributor: who, amount: back },
                );
            let escrow = state.remaining_at_start;
            let total = state.non_owner_total;
            &&& amount <= 0 ==> after == env
            &&& amount > 0 ==> after == (EnvView {
                store: env.store.insert(DataKey::ContributorAmount(id, who), Entry::Amount(0)),
                effects: after.effects,
                ..env
            })
            &&& amount > 0 && state.branch == CancellationBranch::FullPartnerThenResidual
                ==> after.effects == env.effects.push(paid(amount)).push(told(amount))
            &&& amount > 0 && state.branch == CancellationBranch::OwnerOnly ==> after.effects
                == env.effects
            &&& amount > 0 && state.branch == CancellationBranch::ProRataPartners ==> {
                let nothing = escrow <= 0 || amount * escrow < total;
                &&& nothing ==> after.effects == env.effects
                &&& !nothing ==> (after.effects[n] matches Effect::Transfer(t) && {
                    &&& after.effects == env.effects.push(paid(t.amount)).push(told(t.amount))
                    &&& amount * escrow <= i128::MAX ==> total * t.amount <= amount * escrow < total
                        * t.amount + total
                    &&& amount * escrow > i128::MAX ==> total * t.amount <= i128::MAX < total
                        * t.amount + total
                })
            }
        }),
{
    if state.branch == CancellationBranch::ProRataPartners && amount > 0 {
        let escrow = state.remaining_at_start;
        let total = state.non_owner_total;
        lemma_share_floor(amount as int, escrow as int, total as int);
        let back = crate::amounts::share(amount as int, escrow as int, total as int);
        assert(back <= 0 ==> total * back <= 0) by (nonlinear_arith)
            requires
                total > 0,
        ;
        assert(back >= 1 ==> total * back >= total) by (nonlinear_arith)
            requires
                total > 0,
        ;
    }
}

/// Where nobody stands at a place nothing is refunded.
pub proof fn law_empty_place_is_passed_over(
    env: EnvView,
    id: u64,
    token: Address,
    state: CancellationState,
    idx: u32,
)
    requires
        contributor_in(env.store, id, idx) is None,
    ensures
        refunded_at(env, id, token, state, idx) == env,
{
}

/// A cancellation is closed by anyone, as it is carried on, once every contributor has had
/// a turn.
pub proof fn law_anyone_may_close_when_all_had_their_turn(
    env: &mut Env,
    id: u64,
    op_id: Bytes32,
    r: Result<(), Error>,
)
    requires
        call_ensures(finalize_cancel, (env, id, op_id), r),
    ensures
        ({
            let s = old(env)@.store;
            let paused = old(env)@.settings.paused;
            let seen = flag_in(s, DataKey::OpSeen(old(env)@.contract, op_id));
            let there = event_in(s, id) is Some;
            let running = there && event_in(s, id).unwrap().status == EventStatus::Cancelling
                && cancellation_in(s, id) is Some;
            let state = cancellation_in(s, id).unwrap();
            &&& r is Ok <==> !paused && !seen && running && state.next_idx >= state.count_at_start
            &&& paused ==> r == Err::<(), Error>(Error::Paused)
            &&& !paused && seen ==> r == Err::<(), Error>(Error::DuplicateOperation)
            &&& !paused && !seen && !there ==> r == Err::<(), Error>(Error::EventNotFound)
            &&& !paused && !seen && there && !running ==> r == Err::<(), Error>(
                Error::CancellationNotStarted,
            )
            &&& !paused && !seen && running && state.next_idx < state.count_at_start ==> r == Err::<
                (),
                Error,
            >(Error::CancellationNotFinished)
        }),
        final(env)@.auths == old(env)@.auths,
        r is Err ==> final(env)@ == old(env)@,
{
}

/// Closing a cancellation gives the owner what is over where the contributors were
/// refunded in full, that is the escrow that there was less all contributions, and nothing
/// in any other case. The event is cancelled for good, without escrow, plan or
/// contributions.
pub proof fn law_owner_gets_what_is_over(
    env: &mut Env,
    id: u64,
    op_id: Bytes32,
    r: Result<(), Error>,
    event: EventRecord,
    state: CancellationState,
)
    requires
        call_ensures(finalize_cancel, (env, id, op_id), r),
        r is Ok,
        event_in(old(env)@.store, id) == Some(event),
        cancellation_in(old(env)@.store, id) == Some(state),
    ensures
        ({
            let over = state.remaining_at_start - state.non_owner_total;
            let residual = if over > i128::MAX {
                i128::MAX
            } else {
                over as i128
            };
            let back = Effect::Transfer(
                Transfer {
                    token: event.token,
                    from: old(env)@.contract,
                    to: event.owner,
                    amount: residual,
                },
            );
            let told = Effect::Publish(
                Event::OwnerResidualRefunded { event_id: id, owner: event.owner, amount: residual },
            );
            let closed = Effect::Publish(Event::EventCancelled { id });
            let pays = state.branch == CancellationBranch::FullPartnerThenResidual && over > 0;
            &&& pays ==> final(env)@.effects == old(env)@.effects.push(back).push(told).push(closed)
            &&& !pays ==> final(env)@.effects == old(env)@.effects.push(closed)
        }),
        final(env)@ == (EnvView {
            store: old(env)@.store.insert(
                DataKey::OpSeen(old(env)@.contract, op_id),
                Entry::Flag(true),
            ).insert(
                DataKey::Event(id),
                Entry::Event(
                    EventRecord { remaining_escrow: 0, status: EventStatus::Cancelled, ..event },
                ),
            ).remove(DataKey::CancellationState(id)).insert(
                DataKey::NonOwnerContributionTotal(id),
                Entry::Amount(0),
            ),
            effects: final(env)@.effects,
            ..old(env)@
        }),
{
}

/// A running cancellation is looked up with its event and its plan, as they are on file,
/// where it may be carried on.
pub proof fn law_running_cancellation_is_on_file(
    env: &Env,
    id: u64,
    op_id: Bytes32,
    r: Result<(EventRecord, CancellationState), Error>,
)
    requires
        call_ensures(running_cancellation, (env, id, op_id), r),
    ensures
        r is Ok <==> !env@.settings.paused && !flag_in(
            env@.store,
            DataKey::OpSeen(env@.contract, op_id),
        ) && event_in(env@.store, id) is Some && event_in(env@.store, id).unwrap().status
            == EventStatus::Cancelling && cancellation_in(env@.store, id) is Some,
        r is Ok ==> event_in(env@.store, id) == Some(r.unwrap().0) && cancellation_in(
            env@.store,
            id,
        ) == Some(r.unwrap().1),
{
}

} // verus!
