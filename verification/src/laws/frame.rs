//! What an operation leaves alone.
use crate::env::EnvView;
use crate::event_ops::cancel::{
    batch_end, batch_processed, cancel_finalized, cancel_started, refunded_between,
};
use crate::event_ops::create::event_created;
use crate::event_ops::funds::funds_added;
use crate::event_ops::manager::{
    manager_accepted, manager_of_event, pending_manager_cancelled, proposal_voided, proposed,
};
use crate::event_ops::submissions::{submitted, withdrawn};
use crate::event_ops::winners::{
    base_recorded, lemma_awarding_keeps, prize_base, prize_claimed, prizes_awarded, rows_added,
    selected, winners_recorded,
};
use crate::host::Text;
use crate::idempotency::{next_id_in, seen_in};
use crate::storage::{award_in, cancellation_in, entry_in, event_in, Store};
use crate::types::{
    event_of, Address, Bytes32, CancellationState, CreateEventParams, DataKey, WinnerSpec,
};
use vstd::prelude::*;

verus! {

/// Whether two states of the ledger differ in the entries of the event `id` and in the
/// record of `caller`'s operation `op_id` alone.
pub open spec fn stays_within(
    before: Store,
    after: Store,
    id: u64,
    caller: Address,
    op_id: Bytes32,
) -> bool {
    forall|key: DataKey|
        #![trigger entry_in(after, key)]
        event_of(key) != Some(id) && key != DataKey::OpSeen(caller, op_id) ==> entry_in(after, key)
            == entry_in(before, key)
}

/// Whether two states of the ledger differ in the entries of the event `id` alone.
pub open spec fn stays_within_event(before: Store, after: Store, id: u64) -> bool {
    forall|key: DataKey|
        #![trigger entry_in(after, key)]
        event_of(key) != Some(id) ==> entry_in(after, key) == entry_in(before, key)
}

proof fn lemma_refunds_stay_within_event(
    env: EnvView,
    id: u64,
    token: Address,
    state: CancellationState,
    from: int,
    to: int,
)
    ensures
        stays_within_event(
            env.store,
            refunded_between(env, id, token, state, from, to).store,
            id,
        ),
    decreases to - from,
{
    if from < to {
        lemma_refunds_stay_within_event(env, id, token, state, from, to - 1);
        let before = refunded_between(env, id, token, state, from, to - 1).store;
        let after = refunded_between(env, id, token, state, from, to).store;
        assert forall|key: DataKey|
            event_of(key) != Some(id) implies #[trigger] entry_in(after, key) == entry_in(
            env.store,
            key,
        ) by {
            assert(entry_in(after, key) == entry_in(before, key));
        }
    }
}

/// Refunds touch nothing but what contributors have paid in.
pub proof fn lemma_refunds_keep(
    env: EnvView,
    id: u64,
    token: Address,
    state: CancellationState,
    from: int,
    to: int,
    key: DataKey,
)
    requires
        !(key is ContributorAmount),
    ensures
        entry_in(refunded_between(env, id, token, state, from, to).store, key) == entry_in(
            env.store,
            key,
        ),
    decreases to - from,
{
    if from < to {
        lemma_refunds_keep(env, id, token, state, from, to - 1, key);
    }
}

/// Rows touch nothing but the list of winners.
pub proof fn lemma_rows_keep(s: Store, id: u64, winners: Seq<WinnerSpec>, n: int, key: DataKey)
    requires
        !(key is EventWinnerAt),
        !(key is EventWinnerCount),
    ensures
        entry_in(rows_added(s, id, winners, n), key) == entry_in(s, key),
    decreases n,
{
    if n > 0 {
        lemma_rows_keep(s, id, winners, n - 1, key);
    }
}

/// A selection touches nothing of the event but its winners, its awards and the terms on
/// which prizes are claimed.
pub proof fn lemma_selection_keeps(
    s: Store,
    id: u64,
    winners: Seq<WinnerSpec>,
    now: u64,
    key: DataKey,
)
    requires
        event_in(s, id) is Some,
        !(key is EventWinnerAt),
        !(key is EventWinnerCount),
        !(key is EventPrizeAward),
        !(key is EventPrizeBaseEscrow),
        !(key is EventUnclaimedPrizes),
        !(key is EventPrizeClaimExpiry),
    ensures
        entry_in(selected(s, id, winners, now), key) == entry_in(s, key),
{
    let n = winners.len() as int;
    let distribution = event_in(s, id).unwrap().winner_distribution@;
    lemma_rows_keep(s, id, winners, n, key);
    lemma_awarding_keeps(
        base_recorded(s, id),
        id,
        winners,
        distribution,
        prize_base(s, id),
        n,
        key,
    );
}

proof fn lemma_awards_stay_within_event(
    s: Store,
    id: u64,
    winners: Seq<WinnerSpec>,
    distribution: Seq<(u32, u32)>,
    base: i128,
    n: int,
)
    ensures
        stays_within_event(s, prizes_awarded(s, id, winners, distribution, base, n), id),
    decreases n,
{
    if n > 0 {
        lemma_awards_stay_within_event(s, id, winners, distribution, base, n - 1);
        let before = prizes_awarded(s, id, winners, distribution, base, n - 1);
        let after = prizes_awarded(s, id, winners, distribution, base, n);
        assert forall|key: DataKey|
            event_of(key) != Some(id) implies #[trigger] entry_in(after, key) == entry_in(
            s,
            key,
        ) by {
            assert(entry_in(after, key) == entry_in(before, key));
        }
    }
}

proof fn lemma_rows_stay_within_event(s: Store, id: u64, winners: Seq<WinnerSpec>, n: int)
    ensures
        stays_within_event(s, rows_added(s, id, winners, n), id),
    decreases n,
{
    if n > 0 {
        lemma_rows_stay_within_event(s, id, winners, n - 1);
        let before = rows_added(s, id, winners, n - 1);
        let after = rows_added(s, id, winners, n);
        assert forall|key: DataKey|
            event_of(key) != Some(id) implies #[trigger] entry_in(after, key) == entry_in(
            s,
            key,
        ) by {
            assert(entry_in(after, key) == entry_in(before, key));
        }
    }
}

/// A contribution to one event touches no other event.
pub proof fn law_funds_stay_within_event(
    env: EnvView,
    id: u64,
    from: Address,
    amount: i128,
    op_id: Bytes32,
)
    ensures
        stays_within(
            env.store,
            funds_added(env, id, from, amount, op_id).store,
            id,
            from,
            op_id,
        ),
{
}

/// Starting to cancel one event touches no other event.
pub proof fn law_cancel_start_stays_within_event(env: EnvView, id: u64, op_id: Bytes32)
    ensures
        stays_within(
            env.store,
            cancel_started(env, id, op_id).store,
            id,
            manager_of_event(env.store, id),
            op_id,
        ),
{
}

/// Refunding a batch of one event's contributors touches no other event.
pub proof fn law_batch_stays_within_event(
    env: EnvView,
    id: u64,
    max_refunds: u32,
    op_id: Bytes32,
)
    ensures
        stays_within(
            env.store,
            batch_processed(env, id, max_refunds, op_id).store,
            id,
            env.contract,
            op_id,
        ),
{
    let state = cancellation_in(env.store, id).unwrap();
    let token = event_in(env.store, id).unwrap().token;
    let end = batch_end(state, max_refunds) as int;
    lemma_refunds_stay_within_event(env, id, token, state, state.next_idx as int, end);
    let refunded = refunded_between(env, id, token, state, state.next_idx as int, end).store;
    let after = batch_processed(env, id, max_refunds, op_id).store;
    assert forall|key: DataKey|
        event_of(key) != Some(id) && key != DataKey::OpSeen(
            env.contract,
            op_id,
        ) implies #[trigger] entry_in(after, key) == entry_in(env.store, key) by {
        assert(entry_in(after, key) == entry_in(refunded, key));
    }
}

/// Closing the cancellation of one event touches no other event.
pub proof fn law_cancel_end_stays_within_event(env: EnvView, id: u64, op_id: Bytes32)
    ensures
        stays_within(
            env.store,
            cancel_finalized(env, id, op_id).store,
            id,
            env.contract,
            op_id,
        ),
{
}

/// Handing in work for one event touches no other event.
pub proof fn law_submit_stays_within_event(
    env: EnvView,
    id: u64,
    applicant: Address,
    content_uri: Text,
    op_id: Bytes32,
)
    ensures
        stays_within(
            env.store,
            submitted(env, id, applicant, content_uri, op_id).store,
            id,
            applicant,
            op_id,
        ),
{
}

/// Withdrawing work from one event touches no other event.
pub proof fn law_withdraw_stays_within_event(
    env: EnvView,
    id: u64,
    applicant: Address,
    op_id: Bytes32,
)
    ensures
        stays_within(
            env.store,
            withdrawn(env, id, applicant, op_id).store,
            id,
            applicant,
            op_id,
        ),
{
}

/// Selecting the winners of one event touches no other event.
pub proof fn law_select_stays_within_event(
    env: EnvView,
    id: u64,
    winners: Seq<WinnerSpec>,
    op_id: Bytes32,
)
    ensures
        stays_within(
            env.store,
            winners_recorded(env, id, winners, op_id).store,
            id,
            manager_of_event(env.store, id),
            op_id,
        ),
{
    let s = env.store;
    let n = winners.len() as int;
    let distribution = event_in(s, id).unwrap().winner_distribution@;
    let base = prize_base(s, id);
    let recorded = base_recorded(s, id);
    lemma_awards_stay_within_event(recorded, id, winners, distribution, base, n);
    lemma_rows_stay_within_event(s, id, winners, n);
    let awarded = prizes_awarded(recorded, id, winners, distribution, base, n);
    let listed = rows_added(s, id, winners, n);
    let chosen = selected(s, id, winners, env.timestamp);
    let after = winners_recorded(env, id, winners, op_id).store;
    let caller = manager_of_event(s, id);
    assert forall|key: DataKey|
        event_of(key) != Some(id) && key != DataKey::OpSeen(
            caller,
            op_id,
        ) implies #[trigger] entry_in(after, key) == entry_in(s, key) by {
        assert(entry_in(after, key) == entry_in(chosen, key));
        assert(entry_in(awarded, key) == entry_in(recorded, key));
        assert(entry_in(recorded, key) == entry_in(s, key));
        assert(entry_in(listed, key) == entry_in(s, key));
    }
}

/// Claiming a prize of one event touches no other event.
pub proof fn law_claim_stays_within_event(env: EnvView, id: u64, position: u32, op_id: Bytes32)
    ensures
        stays_within(
            env.store,
            prize_claimed(env, id, position, op_id).store,
            id,
            award_in(env.store, id, position).unwrap().recipient,
            op_id,
        ),
{
}

/// Rotating the manager of one event touches no other event.
pub proof fn law_rotation_stays_within_event(env: EnvView, id: u64, target: Address)
    ensures
        stays_within_event(
            env.store,
            proposed(proposal_voided(env, id), id, target).store,
            id,
        ),
        stays_within_event(env.store, manager_accepted(env, id).store, id),
        stays_within_event(env.store, pending_manager_cancelled(env, id).store, id),
{
}

/// Creating an event touches no other event: beside its own entries and the record of
/// the operation only the number of the next event changes.
pub proof fn law_create_touches_no_other_event(
    env: EnvView,
    params: CreateEventParams,
    op_id: Bytes32,
    key: DataKey,
)
    requires
        event_of(key) != Some(next_id_in(env.store)),
        key != DataKey::NextEventId,
        key != DataKey::OpSeen(params.owner, op_id),
    ensures
        entry_in(event_created(env, params, op_id).store, key) == entry_in(env.store, key),
{
}

/// Steps that anyone may take do not use up the operation identifiers of anybody but the
/// contract itself.
pub proof fn law_open_steps_spare_callers(
    env: EnvView,
    id: u64,
    max_refunds: u32,
    op_id: Bytes32,
    who: Address,
    other_op: Bytes32,
)
    requires
        who != env.contract,
    ensures
        seen_in(batch_processed(env, id, max_refunds, op_id).store, who, other_op) == seen_in(
            env.store,
            who,
            other_op,
        ),
        seen_in(cancel_finalized(env, id, op_id).store, who, other_op) == seen_in(
            env.store,
            who,
            other_op,
        ),
{
    law_batch_stays_within_event(env, id, max_refunds, op_id);
    law_cancel_end_stays_within_event(env, id, op_id);
    let key = DataKey::OpSeen(who, other_op);
    assert(entry_in(batch_processed(env, id, max_refunds, op_id).store, key) == entry_in(
        env.store,
        key,
    ));
    assert(entry_in(cancel_finalized(env, id, op_id).store, key) == entry_in(env.store, key));
}

} // verus!
