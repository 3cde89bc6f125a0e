//! The list of winners of an event that pays each prize in one piece.
use crate::env::EnvView;
use crate::errors::Error;
use crate::event_ops::create::{event_created, percent_sum};
use crate::event_ops::winners::{
    anchor_in, bad_position, bad_prize, base_recorded, claim_denial, claim_refusal, prize_base,
    prize_claimed, prize_of, prizes_awarded, select_denial, select_refusal, winners_recorded,
};
use crate::host::{ascending, is_place_of, value_at};
use crate::idempotency::next_id_in;
use crate::laws::claims::{law_base_is_fixed, pays_prizes};
use crate::laws::prizes::{
    awards_are_in_order, is_paid, is_waiting, law_claim_keeps_prizes_sound,
    law_prizes_fit_base, law_prizes_start_sound, law_selection_keeps_prizes_sound,
    lemma_nothing_among_none, lemma_one_position_more, lemma_other_awards_stay,
    lemma_positions_are_good, lemma_positions_have_percents, lemma_prize_is_part,
    lemma_prizes_are_good, lemma_prizes_are_no_charge, lemma_same_awards_are_in_order,
    lemma_same_bad_prize, lemma_value_at_place, paid_positions, positions_among, prizes_are_sound,
    prizes_without, same_prizes, waiting_positions,
};
use crate::storage::{
    award_in, base_escrow_in, entry_in, event_in, unclaimed_in, winner_count_in, winner_in, Store,
};
use crate::types::{event_of, Bytes32, CreateEventParams, DataKey, Pillar, WinnerSpec};
use vstd::prelude::*;

verus! {

/// Whether there is a row at a place and it is the one that the award of its position
/// points to.
pub open spec fn is_anchored(s: Store, id: u64, i: u32) -> bool {
    &&& winner_in(s, id, i) matches Some(row)
    &&& award_in(s, id, row.position) matches Some(award)
    &&& award.anchor_idx == i
    &&& award.recipient == row.recipient
}

/// The position that the row at a place is for.
pub open spec fn position_at(s: Store, id: u64, i: int) -> u32 {
    winner_in(s, id, i as u32).unwrap().position
}

/// The amount in the row at a place.
pub open spec fn amount_at(s: Store, id: u64, i: int) -> int {
    winner_in(s, id, i as u32).unwrap().amount as int
}

/// Whether the prize in the row at a place has not been paid.
pub open spec fn is_unpaid(s: Store, id: u64, i: int) -> bool {
    winner_in(s, id, i as u32).unwrap().paid_at is None
}

/// What the first `n` rows come to.
pub open spec fn row_amounts(s: Store, id: u64, n: int) -> int
    decreases n,
{
    if n <= 0 {
        0
    } else {
        row_amounts(s, id, n - 1) + amount_at(s, id, n - 1)
    }
}

/// How many of the first `n` rows have not been paid.
pub open spec fn unpaid_rows(s: Store, id: u64, n: int) -> int
    decreases n,
{
    if n <= 0 {
        0
    } else {
        unpaid_rows(s, id, n - 1) + if is_unpaid(s, id, n - 1) {
            1int
        } else {
            0
        }
    }
}

/// What those of the first `n` rows that have not been paid come to.
pub open spec fn unpaid_amounts(s: Store, id: u64, n: int) -> int
    decreases n,
{
    if n <= 0 {
        0
    } else {
        unpaid_amounts(s, id, n - 1) + if is_unpaid(s, id, n - 1) {
            amount_at(s, id, n - 1)
        } else {
            0
        }
    }
}

/// Whether the list of winners is in order: each row is for a position of the
/// distribution, no two are for the same, each is the one that the award of its position
/// points to, they come to no more than the escrow that prizes are a part of, and those
/// that have not been paid are counted.
pub open spec fn rows_are_in_order(s: Store, id: u64) -> bool {
    let count = winner_count_in(s, id);
    let distribution = event_in(s, id).unwrap().winner_distribution@;
    &&& forall|i: u32| i < count ==> #[trigger] is_anchored(s, id, i)
    &&& forall|i: int|
        0 <= i < count ==> value_at(distribution, #[trigger] position_at(s, id, i)) is Some
    &&& forall|i: int, j: int|
        0 <= i < j < count ==> #[trigger] position_at(s, id, i) != #[trigger] position_at(s, id, j)
    &&& row_amounts(s, id, count as int) <= match base_escrow_in(s, id) {
        Some(base) => base,
        None => 0,
    }
    &&& unpaid_rows(s, id, count as int) == unclaimed_in(s, id)
    &&& base_escrow_in(s, id) is None ==> count == 0
}

/// Whether the awards and the rows of an event are in order.
pub open spec fn winners_are_in_order(s: Store, id: u64) -> bool {
    awards_are_in_order(s, id) && rows_are_in_order(s, id)
}

/// The positions that the first `n` rows are for.
spec fn positions_until(s: Store, id: u64, n: int) -> Set<u32>
    decreases n,
{
    if n <= 0 {
        Set::empty()
    } else {
        positions_until(s, id, n - 1).insert(position_at(s, id, n - 1))
    }
}

/// The positions that those of the first `n` rows that have not been paid are for.
spec fn unpaid_until(s: Store, id: u64, n: int) -> Set<u32>
    decreases n,
{
    if n <= 0 {
        Set::empty()
    } else if is_unpaid(s, id, n - 1) {
        unpaid_until(s, id, n - 1).insert(position_at(s, id, n - 1))
    } else {
        unpaid_until(s, id, n - 1)
    }
}

/// What an anchored row holds.
proof fn lemma_anchored_row(s: Store, id: u64, base: i128, i: int)
    requires
        awards_are_in_order(s, id),
        base_escrow_in(s, id) == Some(base),
        0 <= i <= u32::MAX,
        is_anchored(s, id, i as u32),
    ensures
        ({
            let distribution = event_in(s, id).unwrap().winner_distribution@;
            let position = position_at(s, id, i);
            &&& award_in(s, id, position) matches Some(award) && award.anchor_idx == i
            &&& value_at(distribution, position) is Some
            &&& amount_at(s, id, i) == prize_of(base, distribution, position)
            &&& amount_at(s, id, i) > 0
            &&& is_unpaid(s, id, i) == is_waiting(s, id, position)
            &&& is_unpaid(s, id, i) == !is_paid(s, id, position)
        }),
{
    let position = position_at(s, id, i);
    assert(award_in(s, id, position) is Some);
    assert(anchor_in(s, id, position) == winner_in(s, id, i as u32));
}

/// The rows take positions one by one out of the distribution, and with each its prize.
proof fn lemma_rows_take_positions(s: Store, id: u64, base: i128, n: int)
    requires
        awards_are_in_order(s, id),
        base_escrow_in(s, id) == Some(base),
        0 <= n <= winner_count_in(s, id),
        forall|i: u32| i < winner_count_in(s, id) ==> #[trigger] is_anchored(s, id, i),
    ensures
        ({
            let distribution = event_in(s, id).unwrap().winner_distribution@;
            let taken = positions_until(s, id, n);
            &&& row_amounts(s, id, n) + prizes_without(distribution, base, taken)
                == prizes_without(distribution, base, Set::empty())
            &&& positions_among(distribution, taken) == n
            &&& forall|p: u32| #[trigger]
                taken.contains(p) ==> award_in(s, id, p) is Some && award_in(
                    s,
                    id,
                    p,
                ).unwrap().anchor_idx < n
        }),
    decreases n,
{
    let distribution = event_in(s, id).unwrap().winner_distribution@;
    if n > 0 {
        lemma_rows_take_positions(s, id, base, n - 1);
        assert(is_anchored(s, id, (n - 1) as u32));
        lemma_anchored_row(s, id, base, n - 1);
        lemma_one_position_more(
            distribution,
            base,
            positions_until(s, id, n - 1),
            position_at(s, id, n - 1),
        );
    } else {
        lemma_nothing_among_none(distribution);
    }
}

/// The rows that have not been paid are those of the positions that wait.
proof fn lemma_unpaid_rows_wait(s: Store, id: u64, base: i128, n: int)
    requires
        awards_are_in_order(s, id),
        base_escrow_in(s, id) == Some(base),
        0 <= n <= winner_count_in(s, id),
        forall|i: u32| i < winner_count_in(s, id) ==> #[trigger] is_anchored(s, id, i),
    ensures
        ({
            let distribution = event_in(s, id).unwrap().winner_distribution@;
            let waiting = unpaid_until(s, id, n);
            let paid = paid_positions(s, id);
            &&& unpaid_rows(s, id, n) == positions_among(distribution, waiting)
            &&& unpaid_amounts(s, id, n) + prizes_without(distribution, base, paid + waiting)
                == prizes_without(distribution, base, paid)
            &&& forall|p: u32| #[trigger]
                waiting.contains(p) ==> is_waiting(s, id, p) && award_in(
                    s,
                    id,
                    p,
                ).unwrap().anchor_idx < n
            &&& forall|i: int|
                0 <= i < n && is_unpaid(s, id, i) ==> waiting.contains(
                    #[trigger] position_at(s, id, i),
                )
        }),
    decreases n,
{
    let distribution = event_in(s, id).unwrap().winner_distribution@;
    let paid = paid_positions(s, id);
    if n > 0 {
        lemma_unpaid_rows_wait(s, id, base, n - 1);
        assert(is_anchored(s, id, (n - 1) as u32));
        lemma_anchored_row(s, id, base, n - 1);
        let before = unpaid_until(s, id, n - 1);
        let position = position_at(s, id, n - 1);
        if is_unpaid(s, id, n - 1) {
            assert(!before.contains(position));
            assert(!paid.contains(position));
            lemma_one_position_more(distribution, base, before, position);
            lemma_one_position_more(distribution, base, paid + before, position);
            assert((paid + before).insert(position) =~= paid + before.insert(position));
        }
    } else {
        lemma_nothing_among_none(distribution);
        assert(paid + Set::<u32>::empty() =~= paid);
    }
}

/// Where every row is anchored, the rows are in order. There are at most a hundred.
proof fn lemma_anchored_rows_are_in_order(s: Store, id: u64)
    requires
        awards_are_in_order(s, id),
        forall|i: u32| i < winner_count_in(s, id) ==> #[trigger] is_anchored(s, id, i),
        base_escrow_in(s, id) is None ==> winner_count_in(s, id) == 0,
    ensures
        rows_are_in_order(s, id),
        winner_count_in(s, id) <= 100,
{
    let distribution = event_in(s, id).unwrap().winner_distribution@;
    let count = winner_count_in(s, id) as int;
    match base_escrow_in(s, id) {
        Some(base) => {
            lemma_rows_take_positions(s, id, base, count);
            lemma_prizes_are_no_charge(distribution, base, positions_until(s, id, count));
            law_prizes_fit_base(distribution, base);
            assert forall|i: int| 0 <= i < count implies value_at(
                distribution,
                #[trigger] position_at(s, id, i),
            ) is Some by {
                assert(is_anchored(s, id, i as u32));
                lemma_anchored_row(s, id, base, i);
            }
            assert forall|i: int, j: int| 0 <= i < j < count implies #[trigger] position_at(
                s,
                id,
                i,
            ) != #[trigger] position_at(s, id, j) by {
                assert(is_anchored(s, id, i as u32));
                assert(is_anchored(s, id, j as u32));
            }
            lemma_unpaid_rows_wait(s, id, base, count);
            assert(unpaid_until(s, id, count) =~= waiting_positions(s, id)) by {
                assert forall|p: u32| is_waiting(s, id, p) implies unpaid_until(
                    s,
                    id,
                    count,
                ).contains(p) by {
                    let place = award_in(s, id, p).unwrap().anchor_idx;
                    assert(award_in(s, id, p) is Some);
                    assert(position_at(s, id, place as int) == p);
                    assert(is_unpaid(s, id, place as int));
                }
            }
            let taken = positions_until(s, id, count);
            assert forall|i: int|
                0 <= i < distribution.len() && taken.contains(
                    (#[trigger] distribution[i]).0,
                ) implies distribution[i].1 > 0 by {
                let position = distribution[i].0;
                assert(award_in(s, id, position) is Some);
                assert(is_place_of(distribution, position, i));
                lemma_value_at_place(distribution, position, i);
            }
            lemma_positions_have_percents(distribution, taken);
        },
        None => {
            assert(waiting_positions(s, id) =~= Set::empty()) by {
                assert forall|p: u32| !is_waiting(s, id, p) by {
                    assert(award_in(s, id, p) is None);
                }
            }
            lemma_nothing_among_none(distribution);
        },
    }
}

/// There are never more than a hundred winners.
pub proof fn law_winners_are_few(s: Store, id: u64)
    requires
        winners_are_in_order(s, id),
    ensures
        winner_count_in(s, id) <= 100,
{
    lemma_anchored_rows_are_in_order(s, id);
}

/// While the prizes are in order, the escrow covers all rows that have not been paid.
pub proof fn law_escrow_covers_unpaid_rows(s: Store, id: u64)
    requires
        prizes_are_sound(s, id),
        rows_are_in_order(s, id),
    ensures
        unpaid_amounts(s, id, winner_count_in(s, id) as int) <= event_in(
            s,
            id,
        ).unwrap().remaining_escrow,
{
    let distribution = event_in(s, id).unwrap().winner_distribution@;
    let count = winner_count_in(s, id) as int;
    if let Some(base) = base_escrow_in(s, id) {
        lemma_unpaid_rows_wait(s, id, base, count);
        lemma_prizes_are_no_charge(
            distribution,
            base,
            paid_positions(s, id) + unpaid_until(s, id, count),
        );
    }
}

/// Where the prizes are in order, no claim finds the escrow short.
pub proof fn law_escrow_covers_claim(env: EnvView, id: u64, position: u32, op_id: Bytes32)
    requires
        prizes_are_sound(env.store, id),
        claim_denial(env, id, position) is None,
    ensures
        claim_refusal(env, id, position, op_id) != Some(Error::InsufficientEscrow),
{
    let s = env.store;
    assert(award_in(s, id, position) is Some);
    if !is_paid(s, id, position) {
        lemma_prize_is_part(
            event_in(s, id).unwrap().winner_distribution@,
            base_escrow_in(s, id).unwrap(),
            paid_positions(s, id),
            position,
        );
    }
}

/// A new event that is no crowdfunding campaign has its winners in order, where nothing was
/// on file under its number.
pub proof fn law_winners_start_in_order(env: EnvView, params: CreateEventParams, op_id: Bytes32)
    requires
        forall|key: DataKey|
            event_of(key) == Some(next_id_in(env.store)) ==> #[trigger] entry_in(env.store, key)
                is None,
        params.pillar != Pillar::Crowdfunding,
        params.total_budget > 0,
        ascending(params.winner_distribution@),
        percent_sum(params.winner_distribution@) == 100,
    ensures
        winners_are_in_order(event_created(env, params, op_id).store, next_id_in(env.store)),
        prizes_are_sound(event_created(env, params, op_id).store, next_id_in(env.store)),
{
    let id = next_id_in(env.store);
    law_prizes_start_sound(env, params, op_id);
    assert(entry_in(env.store, DataKey::EventWinnerCount(id)) is None);
    lemma_anchored_rows_are_in_order(event_created(env, params, op_id).store, id);
}

/// Where nothing about the prizes changes, the winners stay in order.
pub proof fn lemma_same_winners_are_in_order(a: Store, b: Store, id: u64)
    requires
        same_prizes(a, b, id),
        winners_are_in_order(a, id),
        event_in(b, id) matches Some(event) && event.winner_distribution@ == event_in(
            a,
            id,
        ).unwrap().winner_distribution@,
    ensures
        winners_are_in_order(b, id),
{
    lemma_same_awards_are_in_order(a, b, id);
    assert(winner_count_in(b, id) == winner_count_in(a, id));
    assert forall|i: u32| i < winner_count_in(b, id) implies #[trigger] is_anchored(b, id, i) by {
        assert(is_anchored(a, id, i));
        assert(winner_in(b, id, i) == winner_in(a, id, i));
        let position = winner_in(a, id, i).unwrap().position;
        assert(award_in(b, id, position) == award_in(a, id, position));
    }
    lemma_anchored_rows_are_in_order(b, id);
}

/// Awarding prizes anchors the rows that it adds, and leaves the others anchored.
proof fn lemma_awarding_anchors_rows(
    s: Store,
    id: u64,
    winners: Seq<WinnerSpec>,
    distribution: Seq<(u32, u32)>,
    base: i128,
    n: int,
)
    requires
        0 <= n,
        forall|i: u32| i < winner_count_in(s, id) ==> #[trigger] is_anchored(s, id, i),
        bad_position(winners, distribution, n) is None,
        bad_prize(s, id, winners, distribution, base, n) is None,
        winner_count_in(s, id) + n <= u32::MAX,
    ensures
        ({
            let after = prizes_awarded(s, id, winners, distribution, base, n);
            &&& winner_count_in(after, id) == winner_count_in(s, id) + n
            &&& forall|i: u32|
                i < winner_count_in(after, id) ==> #[trigger] is_anchored(after, id, i)
        }),
    decreases n,
{
    if n > 0 {
        let winner = winners[n - 1];
        lemma_positions_are_good(winners, distribution, n, n);
        lemma_prizes_are_good(s, id, winners, distribution, base, n, n);
        lemma_awarding_anchors_rows(s, id, winners, distribution, base, n - 1);
        let before = prizes_awarded(s, id, winners, distribution, base, n - 1);
        let after = prizes_awarded(s, id, winners, distribution, base, n);
        let count = winner_count_in(before, id);
        lemma_other_awards_stay(s, id, winners, distribution, base, n - 1, winner.position);
        assert forall|i: u32| i < winner_count_in(after, id) implies #[trigger] is_anchored(
            after,
            id,
            i,
        ) by {
            if i < count {
                assert(is_anchored(before, id, i));
                assert(winner_in(after, id, i) == winner_in(before, id, i));
                let position = winner_in(before, id, i).unwrap().position;
                assert(position != winner.position);
                assert(award_in(after, id, position) == award_in(before, id, position));
            }
        }
    }
}

/// A selection keeps the winners in order.
pub proof fn law_selection_keeps_winners_in_order(
    env: EnvView,
    id: u64,
    winners: Seq<WinnerSpec>,
    op_id: Bytes32,
)
    requires
        winners_are_in_order(env.store, id),
        prizes_are_sound(env.store, id),
        pays_prizes(env, id),
        select_denial(env, id) is None,
        select_refusal(env, id, winners, op_id) is None,
    ensures
        winners_are_in_order(winners_recorded(env, id, winners, op_id).store, id),
        prizes_are_sound(winners_recorded(env, id, winners, op_id).store, id),
{
    let s = env.store;
    let n = winners.len() as int;
    let distribution = event_in(s, id).unwrap().winner_distribution@;
    let base = prize_base(s, id);
    let based = base_recorded(s, id);
    let awarded = prizes_awarded(based, id, winners, distribution, base, n);
    let after = winners_recorded(env, id, winners, op_id).store;
    law_winners_are_few(s, id);
    law_selection_keeps_prizes_sound(env, id, winners, op_id);
    law_base_is_fixed(env, id, winners, op_id);
    lemma_same_bad_prize(s, based, id, winners, distribution, base, n);
    assert forall|i: u32| i < winner_count_in(based, id) implies #[trigger] is_anchored(
        based,
        id,
        i,
    ) by {
        assert(is_anchored(s, id, i));
        assert(winner_in(based, id, i) == winner_in(s, id, i));
        let position = winner_in(s, id, i).unwrap().position;
        assert(award_in(based, id, position) == award_in(s, id, position));
    }
    lemma_awarding_anchors_rows(based, id, winners, distribution, base, n);
    assert(winner_count_in(after, id) == winner_count_in(awarded, id));
    assert forall|i: u32| i < winner_count_in(after, id) implies #[trigger] is_anchored(
        after,
        id,
        i,
    ) by {
        assert(is_anchored(awarded, id, i));
        assert(winner_in(after, id, i) == winner_in(awarded, id, i));
        let position = winner_in(awarded, id, i).unwrap().position;
        assert(award_in(after, id, position) == award_in(awarded, id, position));
    }
    lemma_anchored_rows_are_in_order(after, id);
}

/// A claim keeps the winners in order.
pub proof fn law_claim_keeps_winners_in_order(
    env: EnvView,
    id: u64,
    position: u32,
    op_id: Bytes32,
)
    requires
        winners_are_in_order(env.store, id),
        prizes_are_sound(env.store, id),
        claim_denial(env, id, position) is None,
        claim_refusal(env, id, position, op_id) is None,
    ensures
        winners_are_in_order(prize_claimed(env, id, position, op_id).store, id),
        prizes_are_sound(prize_claimed(env, id, position, op_id).store, id),
{
    let s = env.store;
    let after = prize_claimed(env, id, position, op_id).store;
    let place = award_in(s, id, position).unwrap().anchor_idx;
    law_claim_keeps_prizes_sound(env, id, position, op_id);
    assert(winner_count_in(after, id) == winner_count_in(s, id));
    assert(base_escrow_in(after, id) == base_escrow_in(s, id));
    assert forall|i: u32| i < winner_count_in(after, id) implies #[trigger] is_anchored(
        after,
        id,
        i,
    ) by {
        assert(is_anchored(s, id, i));
        let held = winner_in(s, id, i).unwrap().position;
        assert(award_in(after, id, held) == award_in(s, id, held));
        if i != place {
            assert(winner_in(after, id, i) == winner_in(s, id, i));
        }
    }
    lemma_anchored_rows_are_in_order(after, id);
}

} // verus!
