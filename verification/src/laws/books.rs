//! The books on contributions balance, and a cancellation pays them back.
use crate::amounts::{saturated, share};
use crate::env::{Effect, EnvView, Event, Transfer};
use crate::event_ops::cancel::{
    batch_end, batch_processed, cancel_finalized, cancel_started, divisible, left_to_refund,
    opening_state, owner_residual, payout, refunded_between, start_cancel_denial,
    start_cancel_refusal,
};
use crate::event_ops::create::event_created;
use crate::event_ops::funds::{
    add_funds_denial, add_funds_refusal, contributor_slot_in, funds_added,
};
use crate::event_ops::manager::{
    manager_accepted, pending_manager_cancelled, proposal_voided, proposed,
};
use crate::event_ops::submissions::{submitted, withdrawn};
use crate::event_ops::winners::{prize_claimed, selected, winners_recorded};
use crate::event_ops::MAX_REFUNDS_PER_BATCH;
use crate::host::Text;
use crate::idempotency::next_id_in;
use crate::laws::frame::{lemma_refunds_keep, lemma_selection_keeps, stays_within};
use crate::laws::tokens::{lemma_flow_of_one_more, paid_in, paid_out};
use crate::storage::{
    cancellation_in, contribution_in, contributor_count_in, contributor_in, entry_in, event_in,
    non_owner_total_in, Store,
};
use crate::types::{
    event_of, Address, Bytes32, CancellationBranch, CancellationState, CreateEventParams, DataKey,
    EventStatus, WinnerSpec,
};
use vstd::prelude::*;

verus! {

/// Whether the list of contributors holds each of them once and knows where.
pub open spec fn list_is_sound(s: Store, id: u64) -> bool {
    &&& forall|i: u32|
        i < contributor_count_in(s, id) ==> (#[trigger] contributor_in(s, id, i) matches Some(who)
            && contributor_slot_in(s, id, who) == i + 1)
    &&& forall|who: Address|
        #[trigger] contributor_slot_in(s, id, who) != 0 ==> contributor_slot_in(s, id, who)
            <= contributor_count_in(s, id) && contributor_in(
            s,
            id,
            (contributor_slot_in(s, id, who) - 1) as u32,
        ) == Some(who)
    &&& forall|who: Address| #[trigger] contribution_in(s, id, who) >= 0
    &&& forall|who: Address| #[trigger]
        contribution_in(s, id, who) > 0 ==> contributor_slot_in(s, id, who) != 0
}

/// What the contributor at a place has paid in.
pub open spec fn contribution_at(s: Store, id: u64, i: int) -> int {
    match contributor_in(s, id, i as u32) {
        Some(who) => contribution_in(s, id, who) as int,
        None => 0,
    }
}

/// What the first `n` contributors have paid in.
pub open spec fn contributions(s: Store, id: u64, n: int) -> int
    decreases n,
{
    if n <= 0 {
        0
    } else {
        contributions(s, id, n - 1) + contribution_at(s, id, n - 1)
    }
}

/// Whether the total on file is what the contributors have paid in.
pub open spec fn books_balance(s: Store, id: u64) -> bool {
    &&& list_is_sound(s, id)
    &&& non_owner_total_in(s, id) matches Some(total) && total == contributions(
        s,
        id,
        contributor_count_in(s, id) as int,
    )
}

proof fn lemma_contributions_agree(a: Store, b: Store, id: u64, n: int)
    requires
        forall|i: int|
            0 <= i < n ==> #[trigger] contribution_at(a, id, i) == contribution_at(b, id, i),
    ensures
        contributions(a, id, n) == contributions(b, id, n),
    decreases n,
{
    if n > 0 {
        lemma_contributions_agree(a, b, id, n - 1);
        assert(contribution_at(a, id, n - 1) == contribution_at(b, id, n - 1));
    }
}

proof fn lemma_contributions_differ_at(a: Store, b: Store, id: u64, n: int, k: int, by: int)
    requires
        0 <= k < n,
        forall|i: int|
            0 <= i < n && i != k ==> #[trigger] contribution_at(a, id, i) == contribution_at(
                b,
                id,
                i,
            ),
        contribution_at(b, id, k) == contribution_at(a, id, k) + by,
    ensures
        contributions(b, id, n) == contributions(a, id, n) + by,
    decreases n,
{
    if k == n - 1 {
        lemma_contributions_agree(a, b, id, n - 1);
    } else {
        lemma_contributions_differ_at(a, b, id, n - 1, k, by);
        assert(contribution_at(a, id, n - 1) == contribution_at(b, id, n - 1));
    }
}

/// A new event starts with balanced books, where nothing was on file under its number.
pub proof fn law_books_open_balanced(env: EnvView, params: CreateEventParams, op_id: Bytes32)
    requires
        forall|key: DataKey|
            event_of(key) == Some(next_id_in(env.store)) ==> #[trigger] entry_in(env.store, key)
                is None,
    ensures
        books_balance(event_created(env, params, op_id).store, next_id_in(env.store)),
{
    let id = next_id_in(env.store);
    let s = event_created(env, params, op_id).store;
    assert(entry_in(env.store, DataKey::ContributorCount(id)) is None);
    assert(contributor_count_in(s, id) == 0);
    assert forall|who: Address| #[trigger] contributor_slot_in(s, id, who) == 0 by {
        assert(entry_in(env.store, DataKey::ContributorSlot(id, who)) is None);
    }
    assert forall|who: Address| #[trigger] contribution_in(s, id, who) == 0 by {
        assert(entry_in(env.store, DataKey::ContributorAmount(id, who)) is None);
    }
}

/// A contribution keeps the books balanced, as long as the total can be written down.
pub proof fn law_contribution_keeps_balance(
    env: EnvView,
    id: u64,
    from: Address,
    amount: i128,
    op_id: Bytes32,
)
    requires
        books_balance(env.store, id),
        add_funds_denial(env, id, amount) is None,
        add_funds_refusal(env, id, from, op_id) is None,
        non_owner_total_in(env.store, id).unwrap() + amount <= i128::MAX,
    ensures
        books_balance(funds_added(env, id, from, amount, op_id).store, id),
        from != event_in(env.store, id).unwrap().owner ==> contribution_in(
            funds_added(env, id, from, amount, op_id).store,
            id,
            from,
        ) == contribution_in(env.store, id, from) + amount,
{
    let s = env.store;
    let t = funds_added(env, id, from, amount, op_id).store;
    let count = contributor_count_in(s, id);
    let slot = contributor_slot_in(s, id, from);
    let prior = contribution_in(s, id, from);
    assert forall|i: u32| i < count implies #[trigger] contributor_in(t, id, i) == contributor_in(
        s,
        id,
        i,
    ) by {}
    assert forall|who: Address| who != from implies #[trigger] contribution_in(t, id, who)
        == contribution_in(s, id, who) by {}
    assert forall|who: Address| who != from implies #[trigger] contributor_slot_in(t, id, who)
        == contributor_slot_in(s, id, who) by {}
    if from == event_in(s, id).unwrap().owner {
        assert(contribution_in(t, id, from) == prior);
        assert(contributor_slot_in(t, id, from) == slot);
        assert(contributor_count_in(t, id) == count);
        assert forall|i: int| 0 <= i < count implies #[trigger] contribution_at(s, id, i)
            == contribution_at(t, id, i) by {
            assert(contributor_in(t, id, i as u32) == contributor_in(s, id, i as u32));
        }
        lemma_contributions_agree(s, t, id, count as int);
        assert(non_owner_total_in(t, id) == non_owner_total_in(s, id));
    } else {
        let k: int = if slot != 0 {
            slot - 1
        } else {
            count as int
        };
        // The sender stands nowhere else in the list.
        assert forall|i: int| 0 <= i < count && i != k implies #[trigger] contribution_at(s, id, i)
            == contribution_at(t, id, i) by {
            let who = contributor_in(s, id, i as u32).unwrap();
            assert(contributor_slot_in(s, id, who) == i + 1);
            assert(contributor_in(t, id, i as u32) == contributor_in(s, id, i as u32));
            assert(who != from);
        }
        if slot != 0 {
            lemma_part_of_contributions(s, id, count as int, k);
            assert(contribution_in(t, id, from) == prior + amount);
            assert(contributor_in(t, id, k as u32) == Some(from));
            assert(contributor_in(s, id, k as u32) == Some(from));
            lemma_contributions_differ_at(s, t, id, count as int, k, amount as int);
            assert(contributor_count_in(t, id) == count);
        } else {
            assert(prior == 0);
            lemma_contributions_agree(s, t, id, count as int);
            assert(contributor_in(t, id, count) == Some(from));
            assert(contribution_in(t, id, from) == amount);
            assert(contribution_at(t, id, count as int) == amount);
            assert(contributor_count_in(t, id) == count + 1);
        }
    }
}

/// Each contribution is part of the total.
proof fn lemma_part_of_contributions(s: Store, id: u64, n: int, k: int)
    requires
        0 <= k < n,
        list_is_sound(s, id),
    ensures
        0 <= contribution_at(s, id, k) <= contributions(s, id, n),
        0 <= contributions(s, id, n),
    decreases n,
{
    if n > 1 {
        lemma_part_of_contributions(
            s,
            id,
            n - 1,
            if k < n - 1 {
                k
            } else {
                0
            },
        );
    } else {
        assert(contributions(s, id, 0) == 0);
    }
    match contributor_in(s, id, (n - 1) as u32) {
        Some(who) => {
            assert(contribution_in(s, id, who) >= 0);
        },
        None => {},
    }
}

/// Whether two states of the ledger agree on the contributions to an event.
pub open spec fn same_books(a: Store, b: Store, id: u64) -> bool {
    &&& entry_in(a, DataKey::ContributorCount(id)) == entry_in(b, DataKey::ContributorCount(id))
    &&& entry_in(a, DataKey::NonOwnerContributionTotal(id)) == entry_in(
        b,
        DataKey::NonOwnerContributionTotal(id),
    )
    &&& forall|i: u32| #[trigger]
        entry_in(b, DataKey::ContributorAt(id, i)) == entry_in(a, DataKey::ContributorAt(id, i))
    &&& forall|who: Address| #[trigger]
        entry_in(b, DataKey::ContributorSlot(id, who)) == entry_in(
            a,
            DataKey::ContributorSlot(id, who),
        )
    &&& forall|who: Address| #[trigger]
        entry_in(b, DataKey::ContributorAmount(id, who)) == entry_in(
            a,
            DataKey::ContributorAmount(id, who),
        )
}

/// Books that agree balance together.
pub proof fn lemma_same_books_balance(a: Store, b: Store, id: u64)
    requires
        same_books(a, b, id),
        books_balance(a, id),
    ensures
        books_balance(b, id),
{
    let count = contributor_count_in(a, id);
    assert forall|i: u32| #[trigger] contributor_in(b, id, i) == contributor_in(a, id, i) by {
        assert(entry_in(b, DataKey::ContributorAt(id, i)) == entry_in(
            a,
            DataKey::ContributorAt(id, i),
        ));
    }
    assert forall|who: Address| #[trigger]
        contributor_slot_in(b, id, who) == contributor_slot_in(a, id, who) by {
        assert(entry_in(b, DataKey::ContributorSlot(id, who)) == entry_in(
            a,
            DataKey::ContributorSlot(id, who),
        ));
    }
    assert forall|who: Address| #[trigger]
        contribution_in(b, id, who) == contribution_in(a, id, who) by {
        assert(entry_in(b, DataKey::ContributorAmount(id, who)) == entry_in(
            a,
            DataKey::ContributorAmount(id, who),
        ));
    }
    assert forall|i: int| 0 <= i < count implies #[trigger] contribution_at(a, id, i)
        == contribution_at(b, id, i) by {
        assert(contributor_in(b, id, i as u32) == contributor_in(a, id, i as u32));
    }
    lemma_contributions_agree(a, b, id, count as int);
}

/// Whether the contributors of an active event are in order: the books balance, everyone
/// in the list has paid in something, and the owner is not in it.
pub open spec fn contributors_are_in_order(s: Store, id: u64) -> bool {
    &&& books_balance(s, id)
    &&& event_in(s, id) matches Some(event) && contributor_slot_in(s, id, event.owner) == 0
    &&& forall|i: int|
        0 <= i < contributor_count_in(s, id) ==> #[trigger] contribution_at(s, id, i) > 0
}

/// Where the contributors are in order, the list holds the owner nowhere.
pub proof fn law_owner_is_not_listed(s: Store, id: u64, i: u32)
    requires
        contributors_are_in_order(s, id),
        i < contributor_count_in(s, id),
    ensures
        contributor_in(s, id, i) is Some,
        contributor_in(s, id, i) != Some(event_in(s, id).unwrap().owner),
        contribution_in(s, id, event_in(s, id).unwrap().owner) == 0,
{
    let owner = event_in(s, id).unwrap().owner;
    assert(contribution_in(s, id, owner) >= 0);
}

/// A new event has its contributors in order, where nothing was on file under its number.
pub proof fn law_contributors_start_in_order(
    env: EnvView,
    params: CreateEventParams,
    op_id: Bytes32,
)
    requires
        forall|key: DataKey|
            event_of(key) == Some(next_id_in(env.store)) ==> #[trigger] entry_in(env.store, key)
                is None,
    ensures
        contributors_are_in_order(event_created(env, params, op_id).store, next_id_in(env.store)),
        non_owner_total_in(event_created(env, params, op_id).store, next_id_in(env.store)) == Some(
            0i128,
        ),
        forall|who: Address| #[trigger]
            contribution_in(
                event_created(env, params, op_id).store,
                next_id_in(env.store),
                who,
            ) == 0,
{
    let id = next_id_in(env.store);
    let s = event_created(env, params, op_id).store;
    law_books_open_balanced(env, params, op_id);
    assert(entry_in(env.store, DataKey::ContributorCount(id)) is None);
    assert(entry_in(env.store, DataKey::ContributorSlot(id, params.owner)) is None);
    assert forall|who: Address| #[trigger] contribution_in(s, id, who) == 0 by {
        assert(entry_in(env.store, DataKey::ContributorAmount(id, who)) is None);
    }
}

/// A contribution keeps the contributors in order, as long as the total can be written
/// down. What others than the owner pay in is added to the sender's amount and to the
/// total, and nobody else's amount changes; a sender who is in the list already is not
/// listed again.
pub proof fn law_contribution_keeps_contributors_in_order(
    env: EnvView,
    id: u64,
    from: Address,
    amount: i128,
    op_id: Bytes32,
)
    requires
        contributors_are_in_order(env.store, id),
        add_funds_denial(env, id, amount) is None,
        add_funds_refusal(env, id, from, op_id) is None,
        from != event_in(env.store, id).unwrap().owner ==> non_owner_total_in(
            env.store,
            id,
        ).unwrap() + amount <= i128::MAX,
    ensures
        ({
            let s = env.store;
            let after = funds_added(env, id, from, amount, op_id).store;
            let added = if from == event_in(s, id).unwrap().owner {
                0
            } else {
                amount as int
            };
            &&& contributors_are_in_order(after, id)
            &&& forall|who: Address| #[trigger]
                contribution_in(after, id, who) == contribution_in(s, id, who) + if who == from {
                    added
                } else {
                    0
                }
            &&& non_owner_total_in(after, id).unwrap() == non_owner_total_in(s, id).unwrap()
                + added
            &&& contributor_count_in(after, id) == contributor_count_in(s, id) + if added > 0
                && contribution_in(s, id, from) == 0 {
                1int
            } else {
                0
            }
        }),
{
    let s = env.store;
    let t = funds_added(env, id, from, amount, op_id).store;
    let owner = event_in(s, id).unwrap().owner;
    let count = contributor_count_in(s, id);
    let slot = contributor_slot_in(s, id, from);
    assert forall|who: Address| who != from implies #[trigger] contribution_in(t, id, who)
        == contribution_in(s, id, who) by {}
    if from == owner {
        assert forall|key: DataKey|
            !(key is Event) && !(key is OpSeen) implies #[trigger] entry_in(t, key) == entry_in(
            s,
            key,
        ) by {}
        lemma_same_contributors_are_in_order(s, t, id);
        assert(contribution_in(t, id, from) == contribution_in(s, id, from));
    } else {
        law_contribution_keeps_balance(env, id, from, amount, op_id);
        if slot != 0 {
            assert(contribution_at(s, id, slot - 1) > 0);
        } else {
            assert(contribution_in(s, id, from) >= 0);
        }
        assert forall|i: int| 0 <= i < contributor_count_in(t, id) implies #[trigger]
        contribution_at(t, id, i) > 0 by {
            if i < count {
                assert(contributor_in(t, id, i as u32) == contributor_in(s, id, i as u32));
                assert(contribution_at(s, id, i) > 0);
            } else {
                assert(contributor_in(t, id, i as u32) == Some(from));
            }
        }
        assert(contributor_slot_in(t, id, owner) == contributor_slot_in(s, id, owner));
    }
}

/// Contributors whose books agree are in order together.
pub proof fn lemma_same_contributors_are_in_order(a: Store, b: Store, id: u64)
    requires
        same_books(a, b, id),
        contributors_are_in_order(a, id),
        event_in(b, id) matches Some(event) && event.owner == event_in(a, id).unwrap().owner,
    ensures
        contributors_are_in_order(b, id),
        non_owner_total_in(b, id) == non_owner_total_in(a, id),
        forall|who: Address| #[trigger]
            contribution_in(b, id, who) == contribution_in(a, id, who),
{
    let owner = event_in(a, id).unwrap().owner;
    lemma_same_books_balance(a, b, id);
    assert(entry_in(b, DataKey::ContributorSlot(id, owner)) == entry_in(
        a,
        DataKey::ContributorSlot(id, owner),
    ));
    assert forall|who: Address| #[trigger]
        contribution_in(b, id, who) == contribution_in(a, id, who) by {
        assert(entry_in(b, DataKey::ContributorAmount(id, who)) == entry_in(
            a,
            DataKey::ContributorAmount(id, who),
        ));
    }
    assert forall|i: int| 0 <= i < contributor_count_in(b, id) implies #[trigger] contribution_at(
        b,
        id,
        i,
    ) > 0 by {
        assert(entry_in(b, DataKey::ContributorAt(id, i as u32)) == entry_in(
            a,
            DataKey::ContributorAt(id, i as u32),
        ));
        assert(contribution_at(a, id, i) > 0);
    }
}

/// Submissions, winners, prizes and managers leave the books of every event alone.
pub proof fn law_other_operations_keep_balance(
    env: EnvView,
    id: u64,
    who: Address,
    text: Text,
    winners: Seq<WinnerSpec>,
    position: u32,
    op_id: Bytes32,
    any: u64,
)
    requires
        books_balance(env.store, any),
        event_in(env.store, id) is Some,
    ensures
        books_balance(submitted(env, id, who, text, op_id).store, any),
        books_balance(withdrawn(env, id, who, op_id).store, any),
        books_balance(winners_recorded(env, id, winners, op_id).store, any),
        books_balance(prize_claimed(env, id, position, op_id).store, any),
        books_balance(proposed(proposal_voided(env, id), id, who).store, any),
        books_balance(manager_accepted(env, id).store, any),
        books_balance(pending_manager_cancelled(env, id).store, any),
{
    let s = env.store;
    lemma_same_books_balance(s, submitted(env, id, who, text, op_id).store, any);
    lemma_same_books_balance(s, withdrawn(env, id, who, op_id).store, any);
    lemma_same_books_balance(s, prize_claimed(env, id, position, op_id).store, any);
    lemma_same_books_balance(s, proposed(proposal_voided(env, id), id, who).store, any);
    lemma_same_books_balance(s, manager_accepted(env, id).store, any);
    lemma_same_books_balance(s, pending_manager_cancelled(env, id).store, any);
    let chosen = selected(s, id, winners, env.timestamp);
    let after = winners_recorded(env, id, winners, op_id).store;
    assert forall|key: DataKey|
        key is ContributorAmount || key is ContributorCount || key is ContributorAt
            || key is ContributorSlot
            || key is NonOwnerContributionTotal implies #[trigger] entry_in(after, key)
        == entry_in(s, key) by {
        lemma_selection_keeps(s, id, winners, env.timestamp, key);
        assert(entry_in(after, key) == entry_in(chosen, key));
    }
    lemma_same_books_balance(s, after, any);
}

/// What is done within one event leaves the books of the others alone.
pub proof fn law_other_events_stay_balanced(
    before: Store,
    after: Store,
    id: u64,
    caller: Address,
    op_id: Bytes32,
    other: u64,
)
    requires
        stays_within(before, after, id, caller, op_id),
        books_balance(before, other),
        other != id,
    ensures
        books_balance(after, other),
{
    lemma_same_books_balance(before, after, other);
}

/// What is due to the contributors at the places from `from` up to `to`.
pub open spec fn due(s: Store, id: u64, state: CancellationState, from: int, to: int) -> int
    decreases to - from,
{
    if to <= from {
        0
    } else {
        due(s, id, state, from, to - 1) + due_at(s, id, state, to - 1)
    }
}

/// What is due to the contributor at a place.
pub open spec fn due_at(s: Store, id: u64, state: CancellationState, i: int) -> int {
    let amount = contribution_at(s, id, i);
    if amount > 0 {
        payout(state, amount as i128) as int
    } else {
        0
    }
}

/// What the effects of an environment pay to the contributor who stands at a place of the
/// list in `s`.
pub open spec fn received(env: EnvView, s: Store, id: u64, token: Address, i: int) -> int {
    match contributor_in(s, id, i as u32) {
        Some(who) => paid_in(env.effects, who, token),
        None => 0,
    }
}

proof fn lemma_due_agrees(
    a: Store,
    b: Store,
    id: u64,
    state: CancellationState,
    from: int,
    to: int,
)
    requires
        forall|i: int|
            from <= i < to ==> #[trigger] contribution_at(a, id, i) == contribution_at(b, id, i),
    ensures
        due(a, id, state, from, to) == due(b, id, state, from, to),
    decreases to - from,
{
    if from < to {
        lemma_due_agrees(a, b, id, state, from, to - 1);
        assert(contribution_at(a, id, to - 1) == contribution_at(b, id, to - 1));
    }
}

proof fn lemma_due_splits(
    s: Store,
    id: u64,
    state: CancellationState,
    from: int,
    middle: int,
    to: int,
)
    requires
        from <= middle <= to,
    ensures
        due(s, id, state, from, to) == due(s, id, state, from, middle) + due(
            s,
            id,
            state,
            middle,
            to,
        ),
    decreases to - middle,
{
    if middle < to {
        lemma_due_splits(s, id, state, from, middle, to - 1);
    }
}

/// A payout is never negative.
proof fn lemma_payout_is_no_charge(state: CancellationState, amount: i128)
    requires
        amount > 0,
        state.branch == CancellationBranch::ProRataPartners ==> state.non_owner_total > 0,
    ensures
        0 <= payout(state, amount),
{
    if state.branch == CancellationBranch::ProRataPartners && state.remaining_at_start > 0 {
        lemma_share_bounds(
            amount as int,
            state.remaining_at_start as int,
            state.non_owner_total as int,
        );
    }
}

/// A share of something is not negative, and the whole of it is covered.
proof fn lemma_share_bounds(amount: int, part: int, whole: int)
    requires
        0 < amount <= i128::MAX,
        0 < part <= i128::MAX,
        0 < whole <= i128::MAX,
    ensures
        0 <= share(amount, part, whole),
        share(amount, part, whole) * whole <= amount * part,
{
    assert(amount * part > 0) by (nonlinear_arith)
        requires
            amount > 0,
            part > 0,
    ;
    let product = saturated(amount * part) as int;
    assert(0 <= product / whole && (product / whole) * whole <= product && product / whole
        <= product) by (nonlinear_arith)
        requires
            product >= 0,
            whole > 0,
    ;
}

/// Refunding places pays out what is due to them, to each contributor the contributor's
/// own, sets their contributions to zero and leaves the others alone.
proof fn lemma_refunds_pay_what_is_due(
    env: EnvView,
    id: u64,
    token: Address,
    state: CancellationState,
    from: int,
    to: int,
)
    requires
        list_is_sound(env.store, id),
        0 <= from <= to <= contributor_count_in(env.store, id),
        state.branch == CancellationBranch::ProRataPartners ==> state.non_owner_total > 0,
    ensures
        paid_out(
            refunded_between(env, id, token, state, from, to).effects,
            env.contract,
            token,
        ) == paid_out(env.effects, env.contract, token) + due(env.store, id, state, from, to),
        refunded_between(env, id, token, state, from, to).contract == env.contract,
        forall|i: int|
            0 <= i < contributor_count_in(env.store, id) ==> #[trigger] received(
                refunded_between(env, id, token, state, from, to),
                env.store,
                id,
                token,
                i,
            ) == received(env, env.store, id, token, i) + if from <= i < to {
                due_at(env.store, id, state, i)
            } else {
                0
            },
        forall|i: int|
            from <= i < to ==> #[trigger] contribution_at(
                refunded_between(env, id, token, state, from, to).store,
                id,
                i,
            ) == 0,
        forall|i: int|
            0 <= i < contributor_count_in(env.store, id) && !(from <= i < to)
                ==> #[trigger] contribution_at(
                refunded_between(env, id, token, state, from, to).store,
                id,
                i,
            ) == contribution_at(env.store, id, i),
    decreases to - from,
{
    let count = contributor_count_in(env.store, id);
    let after = refunded_between(env, id, token, state, from, to);
    if from < to {
        let k = to - 1;
        lemma_refunds_pay_what_is_due(env, id, token, state, from, k);
        let before = refunded_between(env, id, token, state, from, k);
        let who = contributor_in(env.store, id, k as u32).unwrap();
        assert(contributor_in(env.store, id, k as u32) is Some);
        assert forall|i: int| 0 <= i < count implies #[trigger] contributor_in(
            before.store,
            id,
            i as u32,
        ) == contributor_in(env.store, id, i as u32) && contributor_in(after.store, id, i as u32)
            == contributor_in(env.store, id, i as u32) by {
            let key = DataKey::ContributorAt(id, i as u32);
            lemma_refunds_keep(env, id, token, state, from, k, key);
            lemma_refunds_keep(env, id, token, state, from, to, key);
        }
        assert(contributor_in(before.store, id, k as u32) == Some(who));
        let amount = contribution_in(before.store, id, who);
        assert(contribution_at(before.store, id, k) == contribution_at(env.store, id, k));
        assert(amount == contribution_at(env.store, id, k));
        assert forall|i: int| 0 <= i < count && i != k implies #[trigger] contribution_at(
            after.store,
            id,
            i,
        ) == contribution_at(before.store, id, i) by {
            assert(contributor_in(before.store, id, i as u32) == contributor_in(
                env.store,
                id,
                i as u32,
            ));
            let other = contributor_in(env.store, id, i as u32).unwrap();
            assert(contributor_in(env.store, id, i as u32) is Some);
            assert(contributor_slot_in(env.store, id, other) == i + 1);
            assert(contributor_slot_in(env.store, id, who) == k + 1);
            assert(other != who);
        }
        assert(contribution_in(env.store, id, who) >= 0);
        assert(contribution_at(after.store, id, k) == 0) by {
            assert(contributor_in(before.store, id, k as u32) == Some(who));
            assert(contributor_in(after.store, id, k as u32) == Some(who));
        }
        let back = payout(state, amount);
        let transfer = Effect::Transfer(
            Transfer { token, from: before.contract, to: who, amount: back },
        );
        let told = Effect::Publish(
            Event::ContributorRefunded { event_id: id, contributor: who, amount: back },
        );
        if amount > 0 {
            lemma_payout_is_no_charge(state, amount);
            lemma_flow_of_one_more(before, transfer, env.contract, token);
            lemma_flow_of_one_more(before.with(transfer), told, env.contract, token);
        }
        assert forall|i: int| 0 <= i < count implies #[trigger] received(
            after,
            env.store,
            id,
            token,
            i,
        ) == received(env, env.store, id, token, i) + if from <= i < to {
            due_at(env.store, id, state, i)
        } else {
            0
        } by {
            let other = contributor_in(env.store, id, i as u32).unwrap();
            assert(contributor_in(env.store, id, i as u32) is Some);
            assert(contributor_slot_in(env.store, id, other) == i + 1);
            assert(contributor_slot_in(env.store, id, who) == k + 1);
            lemma_flow_of_one_more(before, transfer, other, token);
            lemma_flow_of_one_more(before.with(transfer), told, other, token);
            assert(received(before, env.store, id, token, i) == received(
                env,
                env.store,
                id,
                token,
                i,
            ) + if from <= i < k {
                due_at(env.store, id, state, i)
            } else {
                0
            });
        }
    }
}

/// The cancellation of an event after some batches.
pub open spec fn batches_processed(env: EnvView, id: u64, batches: Seq<(u32, Bytes32)>) -> EnvView
    decreases batches.len(),
{
    if batches.len() == 0 {
        env
    } else {
        batch_processed(
            batches_processed(env, id, batches.drop_last()),
            id,
            batches.last().0,
            batches.last().1,
        )
    }
}

/// Whether `now` is a stage of the cancellation that `start` is the beginning of: the
/// places before the next one have been refunded, and each contributor there has been paid
/// what was due.
pub open spec fn is_stage_of(start: EnvView, now: EnvView, id: u64) -> bool {
    let opened = cancellation_in(start.store, id).unwrap();
    let event = event_in(start.store, id).unwrap();
    &&& cancellation_in(now.store, id) matches Some(state) && state == (CancellationState {
        next_idx: state.next_idx,
        ..opened
    }) && state.next_idx <= state.count_at_start && paid_out(
        now.effects,
        start.contract,
        event.token,
    ) == paid_out(start.effects, start.contract, event.token) + due(
        start.store,
        id,
        opened,
        0,
        state.next_idx as int,
    ) && (forall|i: int|
        0 <= i < opened.count_at_start ==> #[trigger] contribution_at(now.store, id, i) == if i
            < state.next_idx {
            0
        } else {
            contribution_at(start.store, id, i)
        }) && (forall|i: int|
        0 <= i < opened.count_at_start ==> #[trigger] received(now, start.store, id, event.token, i)
            == received(start, start.store, id, event.token, i) + if i < state.next_idx {
            due_at(start.store, id, opened, i)
        } else {
            0
        })
    &&& forall|i: u32| #[trigger]
        contributor_in(now.store, id, i) == contributor_in(start.store, id, i)
    &&& event_in(now.store, id) == Some(event)
    &&& now.contract == start.contract
    &&& contributor_count_in(now.store, id) == opened.count_at_start
    &&& list_is_sound(now.store, id)
}

proof fn lemma_list_stays_sound(
    env: EnvView,
    id: u64,
    token: Address,
    state: CancellationState,
    from: int,
    to: int,
)
    requires
        list_is_sound(env.store, id),
    ensures
        list_is_sound(refunded_between(env, id, token, state, from, to).store, id),
    decreases to - from,
{
    if from < to {
        lemma_list_stays_sound(env, id, token, state, from, to - 1);
        let a = refunded_between(env, id, token, state, from, to - 1);
        let b = refunded_between(env, id, token, state, from, to).store;
        let s = a.store;
        assert forall|i: u32| #[trigger] contributor_in(b, id, i) == contributor_in(s, id, i) by {}
        assert forall|who: Address| #[trigger]
            contributor_slot_in(b, id, who) == contributor_slot_in(s, id, who) by {}
        assert(contributor_count_in(b, id) == contributor_count_in(s, id));
        assert forall|who: Address| #[trigger] contribution_in(b, id, who) == contribution_in(
            s,
            id,
            who,
        ) || contribution_in(b, id, who) == 0 by {}
    }
}

/// The next batch leads from one stage of a cancellation to the next.
proof fn lemma_batch_makes_next_stage(
    start: EnvView,
    now: EnvView,
    id: u64,
    max_refunds: u32,
    op_id: Bytes32,
)
    requires
        is_stage_of(start, now, id),
        cancellation_in(start.store, id).unwrap().branch == CancellationBranch::ProRataPartners
            ==> cancellation_in(start.store, id).unwrap().non_owner_total > 0,
    ensures
        is_stage_of(start, batch_processed(now, id, max_refunds, op_id), id),
{
    let opened = cancellation_in(start.store, id).unwrap();
    let token = event_in(start.store, id).unwrap().token;
    let state = cancellation_in(now.store, id).unwrap();
    let from = state.next_idx as int;
    let end = batch_end(state, max_refunds) as int;
    let refunded = refunded_between(now, id, token, state, from, end);
    let after = batch_processed(now, id, max_refunds, op_id);
    lemma_refunds_pay_what_is_due(now, id, token, state, from, end);
    lemma_list_stays_sound(now, id, token, state, from, end);
    lemma_refunds_keep(now, id, token, state, from, end, DataKey::Event(id));
    lemma_refunds_keep(now, id, token, state, from, end, DataKey::ContributorCount(id));
    assert forall|i: u32| #[trigger] contributor_in(after.store, id, i) == contributor_in(
        refunded.store,
        id,
        i,
    ) by {}
    assert forall|who: Address| #[trigger]
        contributor_slot_in(after.store, id, who) == contributor_slot_in(
            refunded.store,
            id,
            who,
        ) by {}
    assert forall|who: Address| #[trigger]
        contribution_in(after.store, id, who) == contribution_in(refunded.store, id, who) by {}
    assert(contributor_count_in(after.store, id) == contributor_count_in(refunded.store, id));
    assert forall|i: int| 0 <= i < opened.count_at_start implies #[trigger] contribution_at(
        after.store,
        id,
        i,
    ) == if i < end {
        0
    } else {
        contribution_at(start.store, id, i)
    } by {
        assert(contributor_in(after.store, id, i as u32) == contributor_in(
            refunded.store,
            id,
            i as u32,
        ));
        assert(contribution_at(after.store, id, i) == contribution_at(refunded.store, id, i));
        assert(contribution_at(now.store, id, i) == if i < from {
            0
        } else {
            contribution_at(start.store, id, i)
        });
    }
    assert forall|i: int| from <= i < end implies #[trigger] contribution_at(now.store, id, i)
        == contribution_at(start.store, id, i) by {}
    assert forall|i: u32| #[trigger] contributor_in(after.store, id, i) == contributor_in(
        start.store,
        id,
        i,
    ) by {
        lemma_refunds_keep(now, id, token, state, from, end, DataKey::ContributorAt(id, i));
        assert(contributor_in(now.store, id, i) == contributor_in(start.store, id, i));
    }
    assert forall|i: int| 0 <= i < opened.count_at_start implies #[trigger] received(
        after,
        start.store,
        id,
        token,
        i,
    ) == received(start, start.store, id, token, i) + if i < end {
        due_at(start.store, id, opened, i)
    } else {
        0
    } by {
        let at = i as u32;
        assert(contributor_in(now.store, id, at) == contributor_in(start.store, id, at));
        assert(received(refunded, now.store, id, token, i) == received(now, now.store, id, token, i)
            + if from <= i < end {
            due_at(now.store, id, state, i)
        } else {
            0
        });
        assert(received(now, start.store, id, token, i) == received(
            start,
            start.store,
            id,
            token,
            i,
        ) + if i < from {
            due_at(start.store, id, opened, i)
        } else {
            0
        });
        assert(contribution_at(now.store, id, i) == if i < from {
            0
        } else {
            contribution_at(start.store, id, i)
        });
    }
    lemma_due_agrees(now.store, start.store, id, state, from, end);
    lemma_due_ignores_progress(start.store, id, state, opened, from, end);
    lemma_due_splits(start.store, id, opened, 0, from, end);
    assert(after.effects == refunded.effects);
}

proof fn lemma_due_ignores_progress(
    s: Store,
    id: u64,
    a: CancellationState,
    b: CancellationState,
    from: int,
    to: int,
)
    requires
        a == (CancellationState { next_idx: a.next_idx, ..b }),
    ensures
        due(s, id, a, from, to) == due(s, id, b, from, to),
    decreases to - from,
{
    if from < to {
        lemma_due_ignores_progress(s, id, a, b, from, to - 1);
    }
}

proof fn lemma_batches_make_stage(start: EnvView, id: u64, batches: Seq<(u32, Bytes32)>)
    requires
        is_stage_of(start, start, id),
        cancellation_in(start.store, id).unwrap().branch == CancellationBranch::ProRataPartners
            ==> cancellation_in(start.store, id).unwrap().non_owner_total > 0,
    ensures
        is_stage_of(start, batches_processed(start, id, batches), id),
    decreases batches.len(),
{
    if batches.len() > 0 {
        lemma_batches_make_stage(start, id, batches.drop_last());
        lemma_batch_makes_next_stage(
            start,
            batches_processed(start, id, batches.drop_last()),
            id,
            batches.last().0,
            batches.last().1,
        );
    }
}

/// What is due in full is what was contributed; what is due in proportion is at most the
/// part of the escrow that the contributions are of their total.
proof fn lemma_due_is_bounded(s: Store, id: u64, state: CancellationState, n: int)
    requires
        list_is_sound(s, id),
        0 <= n,
        state.branch == CancellationBranch::ProRataPartners ==> state.non_owner_total > 0,
    ensures
        0 <= due(s, id, state, 0, n),
        state.branch == CancellationBranch::FullPartnerThenResidual ==> due(s, id, state, 0, n)
            == contributions(s, id, n),
        state.branch == CancellationBranch::ProRataPartners && state.remaining_at_start >= 0
            ==> due(s, id, state, 0, n) * state.non_owner_total <= contributions(s, id, n)
            * state.remaining_at_start,
    decreases n,
{
    if n > 0 {
        lemma_due_is_bounded(s, id, state, n - 1);
        let amount = contribution_at(s, id, n - 1);
        match contributor_in(s, id, (n - 1) as u32) {
            Some(who) => {
                assert(contribution_in(s, id, who) >= 0);
            },
            None => {},
        }
        let d = due(s, id, state, 0, n - 1);
        let c = contributions(s, id, n - 1);
        let x = due_at(s, id, state, n - 1);
        let total = state.non_owner_total as int;
        let remaining = state.remaining_at_start as int;
        if amount > 0 {
            lemma_payout_is_no_charge(state, amount as i128);
        }
        if state.branch == CancellationBranch::ProRataPartners && remaining >= 0 {
            if amount > 0 && remaining > 0 {
                lemma_share_bounds(amount, remaining, total);
            }
            assert(x * total <= amount * remaining) by {
                if amount > 0 && remaining > 0 {
                } else {
                    assert(x == 0);
                    assert(amount * remaining == 0) by (nonlinear_arith)
                        requires
                            amount == 0 || remaining == 0,
                    ;
                }
            }
            assert((d + x) * total <= (c + amount) * remaining) by (nonlinear_arith)
                requires
                    d * total <= c * remaining,
                    x * total <= amount * remaining,
            ;
        }
    } else {
        assert(due(s, id, state, 0, n) * state.non_owner_total == 0) by (nonlinear_arith)
            requires
                due(s, id, state, 0, n) == 0,
        ;
        assert(contributions(s, id, n) * state.remaining_at_start == 0) by (nonlinear_arith)
            requires
                contributions(s, id, n) == 0,
        ;
    }
}

/// Whether what each contributor's part is worked out from can be written down: the
/// contribution times an escrow of `remaining`.
pub open spec fn parts_fit(s: Store, id: u64, remaining: i128) -> bool {
    forall|i: int|
        0 <= i < contributor_count_in(s, id) ==> #[trigger] contribution_at(s, id, i) * remaining
            <= i128::MAX
}

/// A share is short of the exact quotient by less than one unit, where nothing saturates.
proof fn lemma_share_is_close(amount: int, part: int, whole: int)
    requires
        0 < amount,
        0 < part,
        0 < whole,
        amount * part <= i128::MAX,
    ensures
        amount * part - (whole - 1) <= share(amount, part, whole) * whole,
{
    let product = amount * part;
    assert(product > 0) by (nonlinear_arith)
        requires
            amount > 0,
            part > 0,
            product == amount * part,
    ;
    assert(product - (whole - 1) <= (product / whole) * whole && 0 <= product / whole <= product)
        by (nonlinear_arith)
        requires
            product > 0,
            whole > 0,
    ;
}

/// Shared out in proportion, every contributor's part is short by less than one unit.
proof fn lemma_due_is_close(s: Store, id: u64, state: CancellationState, n: int)
    requires
        list_is_sound(s, id),
        0 <= n <= contributor_count_in(s, id),
        state.branch == CancellationBranch::ProRataPartners,
        state.non_owner_total > 0,
        state.remaining_at_start >= 0,
        parts_fit(s, id, state.remaining_at_start),
    ensures
        contributions(s, id, n) * state.remaining_at_start - n * (state.non_owner_total - 1)
            <= due(s, id, state, 0, n) * state.non_owner_total,
    decreases n,
{
    let total = state.non_owner_total as int;
    let remaining = state.remaining_at_start as int;
    if n > 0 {
        lemma_due_is_close(s, id, state, n - 1);
        let amount = contribution_at(s, id, n - 1);
        let d = due(s, id, state, 0, n - 1);
        let c = contributions(s, id, n - 1);
        let x = due_at(s, id, state, n - 1);
        assert(amount >= 0) by {
            lemma_part_of_contributions(s, id, n, n - 1);
        }
        assert(amount * remaining - (total - 1) <= x * total) by {
            if amount > 0 && remaining > 0 {
                lemma_share_is_close(amount, remaining, total);
            } else {
                assert(x == 0);
                assert(amount * remaining == 0) by (nonlinear_arith)
                    requires
                        amount == 0 || remaining == 0,
                ;
            }
        }
        assert((c + amount) * remaining - n * (total - 1) <= (d + x) * total) by (nonlinear_arith)
            requires
                c * remaining - (n - 1) * (total - 1) <= d * total,
                amount * remaining - (total - 1) <= x * total,
        ;
    } else {
        assert(contributions(s, id, n) * remaining - n * (total - 1) <= due(s, id, state, 0, n)
            * total) by (nonlinear_arith)
            requires
                n == 0,
                contributions(s, id, n) == 0,
                due(s, id, state, 0, n) == 0,
        ;
    }
}

/// A cancellation that starts from balanced books, whatever batches it is refunded in,
/// pays out the escrow and no more. Where the escrow covers the contributions, the
/// contributors and the owner get exactly all of it, every contributor the whole
/// contribution; where it does not, each contributor gets a part in proportion, together no
/// more than there is and short of it by less than one unit each, and the owner nothing. At
/// its end no contribution is left.
pub proof fn law_cancellation_pays_out_the_escrow(
    env: EnvView,
    id: u64,
    op_id: Bytes32,
    batches: Seq<(u32, Bytes32)>,
    last_op: Bytes32,
)
    requires
        books_balance(env.store, id),
        start_cancel_denial(env, id) is None,
        start_cancel_refusal(env, id, op_id) is None,
        opening_state(env.store, id).branch != CancellationBranch::OwnerOnly,
        event_in(env.store, id).unwrap().remaining_escrow >= 0,
        cancellation_in(
            batches_processed(cancel_started(env, id, op_id), id, batches).store,
            id,
        ) matches Some(state) && left_to_refund(state) == 0,
    ensures
        ({
            let event = event_in(env.store, id).unwrap();
            let refunded = batches_processed(cancel_started(env, id, op_id), id, batches);
            let end = cancel_finalized(refunded, id, last_op);
            let paid = paid_out(end.effects, env.contract, event.token) - paid_out(
                env.effects,
                env.contract,
                event.token,
            );
            &&& opening_state(env.store, id).branch == CancellationBranch::FullPartnerThenResidual
                ==> paid == event.remaining_escrow
            &&& opening_state(env.store, id).branch == CancellationBranch::ProRataPartners ==> 0
                <= paid <= event.remaining_escrow
            &&& opening_state(env.store, id).branch == CancellationBranch::ProRataPartners
                && parts_fit(env.store, id, event.remaining_escrow) ==> event.remaining_escrow
                - contributor_count_in(env.store, id) < paid
            &&& event_in(end.store, id).unwrap().status == EventStatus::Cancelled
            &&& event_in(end.store, id).unwrap().remaining_escrow == 0
            &&& forall|i: int|
                0 <= i < contributor_count_in(env.store, id) ==> #[trigger] contribution_at(
                    refunded.store,
                    id,
                    i,
                ) == 0
            &&& forall|i: int|
                0 <= i < contributor_count_in(env.store, id) ==> #[trigger] received(
                    refunded,
                    env.store,
                    id,
                    event.token,
                    i,
                ) == received(env, env.store, id, event.token, i) + due_at(
                    env.store,
                    id,
                    opening_state(env.store, id),
                    i,
                )
            &&& opening_state(env.store, id).branch == CancellationBranch::FullPartnerThenResidual
                ==> forall|i: int|
                0 <= i < contributor_count_in(env.store, id) ==> #[trigger] due_at(
                    env.store,
                    id,
                    opening_state(env.store, id),
                    i,
                ) == contribution_at(env.store, id, i)
        }),
{
    let event = event_in(env.store, id).unwrap();
    let token = event.token;
    let opened = opening_state(env.store, id);
    let start = cancel_started(env, id, op_id);
    let count = contributor_count_in(env.store, id);
    // The start changes nothing about the contributions.
    assert forall|i: u32| #[trigger] contributor_in(start.store, id, i) == contributor_in(
        env.store,
        id,
        i,
    ) by {}
    assert forall|who: Address| #[trigger]
        contributor_slot_in(start.store, id, who) == contributor_slot_in(env.store, id, who) by {}
    assert forall|who: Address| #[trigger]
        contribution_in(start.store, id, who) == contribution_in(env.store, id, who) by {}
    assert(contributor_count_in(start.store, id) == count);
    assert(list_is_sound(start.store, id));
    assert forall|i: int| 0 <= i < count implies #[trigger] contribution_at(env.store, id, i)
        == contribution_at(start.store, id, i) by {
        let at = i as u32;
        assert(contributor_in(start.store, id, at) == contributor_in(env.store, id, at));
    }
    lemma_contributions_agree(env.store, start.store, id, count as int);
    assert(cancellation_in(start.store, id) == Some(opened));
    assert(start.effects == env.effects);
    assert(is_stage_of(start, start, id));
    lemma_batches_make_stage(start, id, batches);
    let refunded = batches_processed(start, id, batches);
    let state = cancellation_in(refunded.store, id).unwrap();
    assert(state.next_idx == opened.count_at_start);
    assert forall|i: int| 0 <= i < count implies #[trigger] received(
        refunded,
        env.store,
        id,
        token,
        i,
    ) == received(env, env.store, id, token, i) + due_at(env.store, id, opened, i) by {
        let at = i as u32;
        assert(contributor_in(start.store, id, at) == contributor_in(env.store, id, at));
        assert(contribution_at(env.store, id, i) == contribution_at(start.store, id, i));
        assert(received(refunded, start.store, id, token, i) == received(
            start,
            start.store,
            id,
            token,
            i,
        ) + due_at(start.store, id, opened, i));
    }
    assert forall|i: int| 0 <= i < count implies 0 <= #[trigger] contribution_at(
        env.store,
        id,
        i,
    ) by {
        lemma_part_of_contributions(env.store, id, count as int, i);
    }
    let total = opened.non_owner_total as int;
    let remaining = opened.remaining_at_start as int;
    let paid_back = due(start.store, id, opened, 0, count as int);
    lemma_due_is_bounded(start.store, id, opened, count as int);
    assert(contributions(start.store, id, count as int) == total);
    if opened.branch == CancellationBranch::ProRataPartners {
        assert(paid_back <= remaining) by (nonlinear_arith)
            requires
                paid_back * total <= total * remaining,
                total > 0,
        ;
        if parts_fit(env.store, id, event.remaining_escrow) {
            assert forall|i: int| 0 <= i < count implies #[trigger] contribution_at(
                start.store,
                id,
                i,
            ) * remaining <= i128::MAX by {
                assert(contribution_at(env.store, id, i) == contribution_at(start.store, id, i));
            }
            lemma_due_is_close(start.store, id, opened, count as int);
            assert(count > 0);
            assert(remaining - count < paid_back) by (nonlinear_arith)
                requires
                    total * remaining - count * (total - 1) <= paid_back * total,
                    total > 0,
                    count > 0,
            ;
        }
    }
    // Closing pays the owner what is left.
    let residual = owner_residual(state);
    let transfer = Effect::Transfer(
        Transfer { token, from: refunded.contract, to: event.owner, amount: residual },
    );
    let told = Effect::Publish(
        Event::OwnerResidualRefunded { event_id: id, owner: event.owner, amount: residual },
    );
    let over = Effect::Publish(Event::EventCancelled { id });
    lemma_flow_of_one_more(refunded, transfer, env.contract, token);
    lemma_flow_of_one_more(refunded.with(transfer), told, env.contract, token);
    lemma_flow_of_one_more(refunded.with(transfer).with(told), over, env.contract, token);
    lemma_flow_of_one_more(refunded, over, env.contract, token);
    let end = cancel_finalized(refunded, id, last_op);
    if residual > 0 {
        assert(end.effects =~= refunded.with(transfer).with(told).with(over).effects);
    } else {
        assert(end.effects =~= refunded.with(over).effects);
    }
}

/// A batch refunds at most [`MAX_REFUNDS_PER_BATCH`] contributors, and one of at least one
/// refund gets on until none is left.
pub proof fn law_batches_get_on(state: CancellationState, max_refunds: u32)
    ensures
        state.next_idx <= batch_end(state, max_refunds) <= state.next_idx + MAX_REFUNDS_PER_BATCH,
        state.next_idx <= batch_end(state, max_refunds) <= state.next_idx + max_refunds,
        max_refunds > 0 && left_to_refund(state) > 0 ==> left_to_refund(
            CancellationState { next_idx: batch_end(state, max_refunds), ..state },
        ) < left_to_refund(state),
{
}

/// A batch after the last contributor has been refunded pays nothing and leaves nothing to
/// refund.
pub proof fn law_batch_after_the_last_pays_nothing(
    env: EnvView,
    id: u64,
    max_refunds: u32,
    op_id: Bytes32,
)
    requires
        cancellation_in(env.store, id) matches Some(state) && left_to_refund(state) == 0,
    ensures
        batch_processed(env, id, max_refunds, op_id).effects == env.effects,
        cancellation_in(batch_processed(env, id, max_refunds, op_id).store, id) matches Some(state)
            && left_to_refund(state) == 0,
{
}

/// Every cancellation that is started can be refunded: where the escrow is shared out in
/// proportion to the contributions, there are contributions to share it by.
pub proof fn law_started_cancellation_is_divisible(env: EnvView, id: u64, op_id: Bytes32)
    requires
        start_cancel_denial(env, id) is None,
        start_cancel_refusal(env, id, op_id) is None,
    ensures
        divisible(cancel_started(env, id, op_id).store, id),
{
}

} // verus!
