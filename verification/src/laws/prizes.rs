//! Prizes fit the escrow, are claimed once, and can be claimed.
use crate::env::EnvView;
use crate::errors::Error;
use crate::event_ops::create::{event_created, percent_sum};
use crate::event_ops::funds::{add_funds_denial, add_funds_refusal, funds_added};
use crate::event_ops::manager::{
    manager_accepted, pending_manager_cancelled, proposal_voided, proposed,
};
use crate::event_ops::submissions::{submitted, withdrawn};
use crate::event_ops::winners::{
    anchor_in, bad_position, bad_prize, base_recorded, claim_denial, claim_refusal,
    lemma_awarding_keeps, owed, prize, prize_awarded, prize_base, prize_claimed, prize_of,
    prizes_awarded, rows_added, select_denial, select_refusal, takes_position, winners_recorded,
    WHOLE_PERCENT,
};
use crate::host::{ascending, is_place_of, value_at, Text};
use crate::idempotency::next_id_in;
use crate::laws::frame::{lemma_rows_keep, lemma_selection_keeps, stays_within};
use crate::storage::{
    award_in, base_escrow_in, entry_in, event_in, unclaimed_in, winner_count_in, winner_in, Store,
};
use crate::types::{
    event_of, Address, Bytes32, CreateEventParams, DataKey, ReleaseKind, WinnerSpec,
};
use vstd::prelude::*;

verus! {

/// What the prizes of a distribution come to, without those of some positions.
pub open spec fn prizes_without(
    distribution: Seq<(u32, u32)>,
    base: i128,
    out: Set<u32>,
) -> int
    decreases distribution.len(),
{
    if distribution.len() == 0 {
        0
    } else {
        let last = distribution.last();
        prizes_without(distribution.drop_last(), base, out) + if out.contains(last.0) {
            0
        } else {
            prize(base, last.1) as int
        }
    }
}

/// How many positions of a distribution are among some positions.
pub open spec fn positions_among(distribution: Seq<(u32, u32)>, among: Set<u32>) -> int
    decreases distribution.len(),
{
    if distribution.len() == 0 {
        0
    } else {
        positions_among(distribution.drop_last(), among) + if among.contains(
            distribution.last().0,
        ) {
            1int
        } else {
            0
        }
    }
}

proof fn lemma_positions_are_counted(distribution: Seq<(u32, u32)>, among: Set<u32>)
    ensures
        0 <= positions_among(distribution, among),
    decreases distribution.len(),
{
    if distribution.len() > 0 {
        lemma_positions_are_counted(distribution.drop_last(), among);
    }
}

/// A prize is a hundredth of the base for each percent, rounded down.
proof fn lemma_prize_bounds(base: i128, percent: u32)
    ensures
        0 <= prize(base, percent),
        base >= 0 ==> WHOLE_PERCENT * prize(base, percent) <= base * percent,
{
    if base > 0 && percent > 0 {
        assert(base * percent > 0) by (nonlinear_arith)
            requires
                base > 0,
                percent > 0,
        ;
    } else if base >= 0 {
        assert(base * percent == 0) by (nonlinear_arith)
            requires
                base == 0 || percent == 0,
        ;
    }
}

/// Prizes that share out a base by percentages come to no more than these percentages of
/// the base.
proof fn lemma_prizes_share_base(distribution: Seq<(u32, u32)>, base: i128)
    requires
        base >= 0,
    ensures
        WHOLE_PERCENT * prizes_without(distribution, base, Set::empty()) <= base * percent_sum(
            distribution,
        ),
    decreases distribution.len(),
{
    if distribution.len() > 0 {
        let before = distribution.drop_last();
        let percent = distribution.last().1;
        lemma_prizes_share_base(before, base);
        lemma_prize_bounds(base, percent);
        assert(base * (percent_sum(before) + percent) == base * percent_sum(before) + base
            * percent) by (nonlinear_arith);
    } else {
        assert(base * percent_sum(distribution) == 0) by (nonlinear_arith)
            requires
                percent_sum(distribution) == 0,
        ;
    }
}

/// The prizes of a whole distribution never come to more than the escrow that they are a
/// part of.
pub proof fn law_prizes_fit_base(distribution: Seq<(u32, u32)>, base: i128)
    requires
        base >= 0,
        percent_sum(distribution) == 100,
    ensures
        prizes_without(distribution, base, Set::empty()) <= base,
{
    lemma_prizes_share_base(distribution, base);
}

/// The percentage of a position is the one next to it.
pub proof fn lemma_value_at_place(pairs: Seq<(u32, u32)>, key: u32, i: int)
    requires
        ascending(pairs),
        is_place_of(pairs, key, i),
    ensures
        value_at(pairs, key) == Some(pairs[i].1),
{
    let k = choose|k: int| is_place_of(pairs, key, k);
    assert(is_place_of(pairs, key, k));
    if i < k {
        assert(pairs[i].0 < pairs[k].0);
    } else if k < i {
        assert(pairs[k].0 < pairs[i].0);
    }
}

/// Positions that are not in the distribution make no difference.
proof fn lemma_strange_position(
    distribution: Seq<(u32, u32)>,
    base: i128,
    set: Set<u32>,
    position: u32,
)
    requires
        value_at(distribution, position) is None,
    ensures
        prizes_without(distribution, base, set.insert(position)) == prizes_without(
            distribution,
            base,
            set,
        ),
        positions_among(distribution, set.insert(position)) == positions_among(distribution, set),
    decreases distribution.len(),
{
    if distribution.len() > 0 {
        let before = distribution.drop_last();
        assert(!is_place_of(distribution, position, distribution.len() - 1));
        assert forall|i: int| !is_place_of(before, position, i) by {
            assert(!is_place_of(distribution, position, i));
        }
        lemma_strange_position(before, base, set, position);
    }
}

/// Taking out one position more takes out its prize, and counts as one position.
pub proof fn lemma_one_position_more(
    distribution: Seq<(u32, u32)>,
    base: i128,
    set: Set<u32>,
    position: u32,
)
    requires
        ascending(distribution),
        value_at(distribution, position) is Some,
        !set.contains(position),
    ensures
        prizes_without(distribution, base, set) == prizes_without(
            distribution,
            base,
            set.insert(position),
        ) + prize_of(base, distribution, position),
        positions_among(distribution, set.insert(position)) == positions_among(distribution, set)
            + 1,
    decreases distribution.len(),
{
    let place = choose|i: int| is_place_of(distribution, position, i);
    assert(is_place_of(distribution, position, place));
    let before = distribution.drop_last();
    let top = distribution.len() - 1;
    lemma_value_at_place(distribution, position, place);
    assert(ascending(before));
    if place == top {
        assert forall|i: int| !is_place_of(before, position, i) by {
            if is_place_of(before, position, i) {
                assert(distribution[i].0 < distribution[top].0);
            }
        }
        lemma_strange_position(before, base, set, position);
    } else {
        assert(is_place_of(before, position, place));
        lemma_value_at_place(before, position, place);
        lemma_one_position_more(before, base, set, position);
        assert(distribution[place].0 < distribution[top].0);
    }
}

/// What is left of the prizes is never negative.
pub proof fn lemma_prizes_are_no_charge(distribution: Seq<(u32, u32)>, base: i128, out: Set<u32>)
    ensures
        0 <= prizes_without(distribution, base, out),
    decreases distribution.len(),
{
    if distribution.len() > 0 {
        lemma_prizes_are_no_charge(distribution.drop_last(), base, out);
        lemma_prize_bounds(base, distribution.last().1);
    }
}

/// Each prize that is not taken out is part of the sum.
pub proof fn lemma_prize_is_part(
    distribution: Seq<(u32, u32)>,
    base: i128,
    out: Set<u32>,
    position: u32,
)
    requires
        ascending(distribution),
        value_at(distribution, position) is Some,
        !out.contains(position),
    ensures
        prize_of(base, distribution, position) <= prizes_without(distribution, base, out),
{
    lemma_one_position_more(distribution, base, out, position);
    lemma_prizes_are_no_charge(distribution, base, out.insert(position));
}

/// There are at most as many positions worth something as there are percents.
pub proof fn lemma_positions_have_percents(distribution: Seq<(u32, u32)>, among: Set<u32>)
    requires
        forall|i: int|
            0 <= i < distribution.len() && among.contains((#[trigger] distribution[i]).0)
                ==> distribution[i].1 > 0,
    ensures
        0 <= positions_among(distribution, among) <= percent_sum(distribution),
    decreases distribution.len(),
{
    if distribution.len() > 0 {
        let before = distribution.drop_last();
        assert forall|i: int|
            0 <= i < before.len() && among.contains((#[trigger] before[i]).0) implies before[i].1
            > 0 by {
            assert(before[i] == distribution[i]);
        }
        lemma_positions_have_percents(before, among);
        assert(distribution.last() == distribution[distribution.len() - 1]);
    }
}

/// Whether a position has been awarded and its prize paid.
pub open spec fn is_paid(s: Store, id: u64, position: u32) -> bool {
    &&& award_in(s, id, position) is Some
    &&& anchor_in(s, id, position) matches Some(row) && row.paid_at is Some
}

pub open spec fn paid_positions(s: Store, id: u64) -> Set<u32> {
    Set::new(|position: u32| is_paid(s, id, position))
}

/// Whether a position has been awarded and its prize waits to be claimed.
pub open spec fn is_waiting(s: Store, id: u64, position: u32) -> bool {
    award_in(s, id, position) is Some && !is_paid(s, id, position)
}

pub open spec fn waiting_positions(s: Store, id: u64) -> Set<u32> {
    Set::new(|position: u32| is_waiting(s, id, position))
}

/// Whether each award points to the row of its winner, with the position's part of the
/// base to the winner's name.
pub open spec fn awards_are_sound(
    s: Store,
    id: u64,
    distribution: Seq<(u32, u32)>,
    base: i128,
) -> bool {
    forall|position: u32| #[trigger]
        award_in(s, id, position) is Some ==> {
            &&& value_at(distribution, position) is Some
            &&& award_in(s, id, position).unwrap().anchor_idx < winner_count_in(s, id)
            &&& anchor_in(s, id, position) matches Some(row) && row.amount == prize_of(
                base,
                distribution,
                position,
            ) && row.amount > 0
        }
}

/// Whether an event's awards are in order: its percentages share out the whole, each award
/// points to its winner's row, and the prizes that wait to be claimed are counted.
pub open spec fn awards_are_in_order(s: Store, id: u64) -> bool {
    let distribution = event_in(s, id).unwrap().winner_distribution@;
    &&& event_in(s, id) is Some
    &&& ascending(distribution)
    &&& percent_sum(distribution) == 100
    &&& unclaimed_in(s, id) == positions_among(distribution, waiting_positions(s, id))
    &&& match base_escrow_in(s, id) {
        Some(base) => base > 0 && awards_are_sound(s, id, distribution, base),
        None => forall|position: u32| #[trigger] award_in(s, id, position) is None,
    }
}

/// Whether an event's prizes are in order: its awards are, and the escrow covers every
/// prize that has not been paid.
pub open spec fn prizes_are_sound(s: Store, id: u64) -> bool {
    let event = event_in(s, id).unwrap();
    &&& awards_are_in_order(s, id)
    &&& event.remaining_escrow >= 0
    &&& match base_escrow_in(s, id) {
        Some(base) => prizes_without(
            event.winner_distribution@,
            base,
            paid_positions(s, id),
        ) <= event.remaining_escrow,
        None => true,
    }
}

/// At most a hundred prizes wait at a time.
proof fn lemma_few_prizes_wait(s: Store, id: u64)
    requires
        awards_are_in_order(s, id),
    ensures
        unclaimed_in(s, id) <= 100,
{
    let distribution = event_in(s, id).unwrap().winner_distribution@;
    let among = waiting_positions(s, id);
    assert forall|i: int|
        0 <= i < distribution.len() && among.contains(
            (#[trigger] distribution[i]).0,
        ) implies distribution[i].1 > 0 by {
        let position = distribution[i].0;
        assert(award_in(s, id, position) is Some);
        assert(is_place_of(distribution, position, i));
        lemma_value_at_place(distribution, position, i);
    }
    lemma_positions_have_percents(distribution, among);
}

/// No position is among none.
pub proof fn lemma_nothing_among_none(distribution: Seq<(u32, u32)>)
    ensures
        positions_among(distribution, Set::empty()) == 0,
    decreases distribution.len(),
{
    if distribution.len() > 0 {
        lemma_nothing_among_none(distribution.drop_last());
    }
}

/// A new event's prizes are in order, where nothing was on file under its number.
pub proof fn law_prizes_start_sound(env: EnvView, params: CreateEventParams, op_id: Bytes32)
    requires
        forall|key: DataKey|
            event_of(key) == Some(next_id_in(env.store)) ==> #[trigger] entry_in(env.store, key)
                is None,
        params.total_budget > 0,
        ascending(params.winner_distribution@),
        percent_sum(params.winner_distribution@) == 100,
    ensures
        prizes_are_sound(event_created(env, params, op_id).store, next_id_in(env.store)),
{
    let id = next_id_in(env.store);
    let s = event_created(env, params, op_id).store;
    assert(entry_in(env.store, DataKey::EventPrizeBaseEscrow(id)) is None);
    assert(entry_in(env.store, DataKey::EventUnclaimedPrizes(id)) is None);
    assert forall|position: u32| #[trigger] award_in(s, id, position) is None by {
        assert(entry_in(env.store, DataKey::EventPrizeAward(id, position)) is None);
    }
    assert(waiting_positions(s, id) =~= Set::empty());
    lemma_nothing_among_none(params.winner_distribution@);
}

/// One more prize keeps the awards sound, leaves what has been paid and waits as one more.
proof fn lemma_one_award_more(
    s: Store,
    id: u64,
    distribution: Seq<(u32, u32)>,
    base: i128,
    winner: WinnerSpec,
)
    requires
        awards_are_sound(s, id, distribution, base),
        award_in(s, id, winner.position) is None,
        value_at(distribution, winner.position) is Some,
        prize_of(base, distribution, winner.position) > 0,
        winner_count_in(s, id) < u32::MAX,
    ensures
        ({
            let after = prize_awarded(
                s,
                id,
                winner,
                prize_of(base, distribution, winner.position),
            );
            &&& awards_are_sound(after, id, distribution, base)
            &&& winner_count_in(after, id) == winner_count_in(s, id) + 1
            &&& paid_positions(after, id) =~= paid_positions(s, id)
            &&& waiting_positions(after, id) =~= waiting_positions(s, id).insert(winner.position)
            &&& !waiting_positions(s, id).contains(winner.position)
        }),
{
    let amount = prize_of(base, distribution, winner.position);
    let after = prize_awarded(s, id, winner, amount);
    let count = winner_count_in(s, id);
    assert(winner_in(after, id, count) matches Some(row) && row.position == winner.position
        && row.recipient == winner.recipient && row.amount == amount && row.paid_at is None);
    assert forall|position: u32| position != winner.position implies #[trigger] award_in(
        after,
        id,
        position,
    ) == award_in(s, id, position) && (award_in(s, id, position) is Some ==> anchor_in(
        after,
        id,
        position,
    ) == anchor_in(s, id, position)) by {
        if award_in(s, id, position) is Some {
            let anchor = award_in(s, id, position).unwrap().anchor_idx;
            assert(anchor < count);
            assert(winner_in(after, id, anchor) == winner_in(s, id, anchor));
        }
    }
    assert(award_in(after, id, winner.position) is Some);
    assert forall|position: u32| is_paid(after, id, position) == is_paid(s, id, position) by {
        assert(award_in(after, id, position) is Some || award_in(after, id, position) is None);
    }
    assert forall|position: u32|
        is_waiting(after, id, position) == (is_waiting(s, id, position) || position
            == winner.position) by {
        assert(award_in(after, id, position) is Some || award_in(after, id, position) is None);
    }
}

/// None of the first `n` winners has a bad position where none of more has.
pub proof fn lemma_positions_are_good(
    winners: Seq<WinnerSpec>,
    distribution: Seq<(u32, u32)>,
    m: int,
    n: int,
)
    requires
        0 < m <= n,
        bad_position(winners, distribution, n) is None,
    ensures
        bad_position(winners, distribution, m) is None,
        !takes_position(winners, m - 1, winners[m - 1].position),
        value_at(distribution, winners[m - 1].position) is Some,
    decreases n - m,
{
    if m < n {
        lemma_positions_are_good(winners, distribution, m, n - 1);
    }
}

pub proof fn lemma_prizes_are_good(
    s: Store,
    id: u64,
    winners: Seq<WinnerSpec>,
    distribution: Seq<(u32, u32)>,
    base: i128,
    m: int,
    n: int,
)
    requires
        0 < m <= n,
        bad_prize(s, id, winners, distribution, base, n) is None,
    ensures
        bad_prize(s, id, winners, distribution, base, m) is None,
        award_in(s, id, winners[m - 1].position) is None,
        prize_of(base, distribution, winners[m - 1].position) > 0,
    decreases n - m,
{
    if m < n {
        lemma_prizes_are_good(s, id, winners, distribution, base, m, n - 1);
    }
}

/// A position that none of the first `n` winners takes is awarded as before.
pub proof fn lemma_other_awards_stay(
    s: Store,
    id: u64,
    winners: Seq<WinnerSpec>,
    distribution: Seq<(u32, u32)>,
    base: i128,
    n: int,
    position: u32,
)
    requires
        !takes_position(winners, n, position),
    ensures
        award_in(prizes_awarded(s, id, winners, distribution, base, n), id, position) == award_in(
            s,
            id,
            position,
        ),
    decreases n,
{
    if n > 0 {
        assert(winners[n - 1].position != position);
        assert(!takes_position(winners, n - 1, position)) by {
            if takes_position(winners, n - 1, position) {
                let j = choose|j: int|
                    0 <= j < n - 1 && #[trigger] winners[j].position == position;
                assert(winners[j].position == position);
            }
        }
        lemma_other_awards_stay(s, id, winners, distribution, base, n - 1, position);
    }
}

/// The prizes of a selection keep the awards sound, leave what has been paid, and wait as
/// one more each. Each winner's position is awarded to that winner.
proof fn lemma_awards_stay_sound(
    s: Store,
    id: u64,
    winners: Seq<WinnerSpec>,
    distribution: Seq<(u32, u32)>,
    base: i128,
    n: int,
)
    requires
        0 <= n,
        ascending(distribution),
        awards_are_sound(s, id, distribution, base),
        bad_position(winners, distribution, n) is None,
        bad_prize(s, id, winners, distribution, base, n) is None,
        winner_count_in(s, id) + n <= u32::MAX,
    ensures
        ({
            let after = prizes_awarded(s, id, winners, distribution, base, n);
            &&& awards_are_sound(after, id, distribution, base)
            &&& winner_count_in(after, id) == winner_count_in(s, id) + n
            &&& paid_positions(after, id) =~= paid_positions(s, id)
            &&& positions_among(distribution, waiting_positions(after, id)) == positions_among(
                distribution,
                waiting_positions(s, id),
            ) + n
            &&& forall|i: int|
                0 <= i < n ==> is_awarded_to(after, id, #[trigger] winners[i])
        }),
    decreases n,
{
    if n > 0 {
        let winner = winners[n - 1];
        lemma_positions_are_good(winners, distribution, n, n);
        lemma_prizes_are_good(s, id, winners, distribution, base, n, n);
        lemma_awards_stay_sound(s, id, winners, distribution, base, n - 1);
        let before = prizes_awarded(s, id, winners, distribution, base, n - 1);
        let after = prizes_awarded(s, id, winners, distribution, base, n);
        lemma_other_awards_stay(s, id, winners, distribution, base, n - 1, winner.position);
        lemma_one_award_more(before, id, distribution, base, winner);
        lemma_one_position_more(
            distribution,
            base,
            waiting_positions(before, id),
            winner.position,
        );
        assert forall|i: int| 0 <= i < n implies is_awarded_to(
            after,
            id,
            #[trigger] winners[i],
        ) by {
            if i < n - 1 {
                assert(is_awarded_to(before, id, winners[i]));
                assert(winners[i].position != winner.position);
                assert(award_in(after, id, winners[i].position) == award_in(
                    before,
                    id,
                    winners[i].position,
                ));
                assert(waiting_positions(after, id).contains(winners[i].position)) by {
                    assert(waiting_positions(before, id).contains(winners[i].position));
                }
            } else {
                assert(waiting_positions(after, id).contains(winner.position));
            }
        }
    }
}

/// Whether a winner's prize waits to be claimed by that winner.
pub open spec fn is_awarded_to(s: Store, id: u64, winner: WinnerSpec) -> bool {
    &&& award_in(s, id, winner.position) matches Some(award) && award.recipient
        == winner.recipient && award.reputation_bump == winner.reputation_bump
    &&& is_waiting(s, id, winner.position)
}

/// Whether two states of the ledger agree on the prizes of an event.
pub open spec fn same_prizes(a: Store, b: Store, id: u64) -> bool {
    &&& entry_in(b, DataKey::EventPrizeBaseEscrow(id)) == entry_in(
        a,
        DataKey::EventPrizeBaseEscrow(id),
    )
    &&& entry_in(b, DataKey::EventUnclaimedPrizes(id)) == entry_in(
        a,
        DataKey::EventUnclaimedPrizes(id),
    )
    &&& entry_in(b, DataKey::EventWinnerCount(id)) == entry_in(a, DataKey::EventWinnerCount(id))
    &&& forall|i: u32| #[trigger]
        entry_in(b, DataKey::EventWinnerAt(id, i)) == entry_in(a, DataKey::EventWinnerAt(id, i))
    &&& forall|position: u32| #[trigger]
        entry_in(b, DataKey::EventPrizeAward(id, position)) == entry_in(
            a,
            DataKey::EventPrizeAward(id, position),
        )
}

/// Where nothing about the prizes changes, the awards stay in order.
pub proof fn lemma_same_awards_are_in_order(a: Store, b: Store, id: u64)
    requires
        same_prizes(a, b, id),
        awards_are_in_order(a, id),
        event_in(b, id) matches Some(event) && event.winner_distribution@ == event_in(
            a,
            id,
        ).unwrap().winner_distribution@,
    ensures
        awards_are_in_order(b, id),
        paid_positions(b, id) =~= paid_positions(a, id),
        forall|position: u32| #[trigger] award_in(b, id, position) == award_in(a, id, position),
        forall|i: u32| #[trigger] winner_in(b, id, i) == winner_in(a, id, i),
{
    assert forall|position: u32| #[trigger]
        award_in(b, id, position) == award_in(a, id, position) by {
        assert(entry_in(b, DataKey::EventPrizeAward(id, position)) == entry_in(
            a,
            DataKey::EventPrizeAward(id, position),
        ));
    }
    assert forall|i: u32| #[trigger] winner_in(b, id, i) == winner_in(a, id, i) by {
        assert(entry_in(b, DataKey::EventWinnerAt(id, i)) == entry_in(
            a,
            DataKey::EventWinnerAt(id, i),
        ));
    }
    lemma_same_rows(a, b, id);
}

/// Where nothing about the prizes changes and no escrow is lost, they stay in order.
pub proof fn lemma_same_prizes_are_sound(a: Store, b: Store, id: u64)
    requires
        same_prizes(a, b, id),
        prizes_are_sound(a, id),
        event_in(b, id) matches Some(event) && event.winner_distribution@ == event_in(
            a,
            id,
        ).unwrap().winner_distribution@ && event.remaining_escrow >= event_in(
            a,
            id,
        ).unwrap().remaining_escrow,
    ensures
        prizes_are_sound(b, id),
{
    lemma_same_awards_are_in_order(a, b, id);
}

/// What the awards rest on once the base is written down.
proof fn lemma_base_leaves_awards(s: Store, id: u64)
    requires
        prizes_are_sound(s, id),
        prize_base(s, id) >= 0,
    ensures
        ({
            let based = base_recorded(s, id);
            let event = event_in(s, id).unwrap();
            let distribution = event.winner_distribution@;
            &&& awards_are_sound(based, id, distribution, prize_base(s, id))
            &&& prizes_without(distribution, prize_base(s, id), paid_positions(based, id))
                <= event.remaining_escrow
            &&& paid_positions(based, id) =~= paid_positions(s, id)
            &&& waiting_positions(based, id) =~= waiting_positions(s, id)
            &&& winner_count_in(based, id) == winner_count_in(s, id)
        }),
{
    let based = base_recorded(s, id);
    let event = event_in(s, id).unwrap();
    if base_escrow_in(s, id) is None {
        assert forall|position: u32| #[trigger] award_in(based, id, position) is None by {
            assert(award_in(s, id, position) is None);
        }
        assert(paid_positions(based, id) =~= Set::empty());
        assert(paid_positions(s, id) =~= Set::empty());
        assert(waiting_positions(based, id) =~= Set::empty());
        assert(waiting_positions(s, id) =~= Set::empty());
        law_prizes_fit_base(event.winner_distribution@, event.remaining_escrow);
    }
}

/// The prizes of the first `n` winners of a selection are part of what has not been paid.
proof fn lemma_owed_is_left(
    s: Store,
    id: u64,
    winners: Seq<WinnerSpec>,
    distribution: Seq<(u32, u32)>,
    base: i128,
    n: int,
    out: Set<u32>,
)
    requires
        0 <= n,
        ascending(distribution),
        bad_position(winners, distribution, n) is None,
        bad_prize(s, id, winners, distribution, base, n) is None,
        forall|position: u32|
            out.contains(position) ==> (#[trigger] award_in(s, id, position)) is Some,
    ensures
        owed(winners, distribution, base, n) + prizes_without(
            distribution,
            base,
            out + taken_by(winners, n),
        ) <= prizes_without(distribution, base, out),
        0 <= owed(winners, distribution, base, n),
    decreases n,
{
    if n == 0 {
        assert(out + taken_by(winners, 0) =~= out);
    } else {
        lemma_positions_are_good(winners, distribution, n, n);
        lemma_prizes_are_good(s, id, winners, distribution, base, n, n);
        lemma_owed_is_left(s, id, winners, distribution, base, n - 1, out);
        let position = winners[n - 1].position;
        let before = out + taken_by(winners, n - 1);
        assert(award_in(s, id, position) is None);
        assert(!before.contains(position));
        assert(out + taken_by(winners, n) =~= before.insert(position)) by {
            assert forall|p: u32|
                takes_position(winners, n, p) == (takes_position(winners, n - 1, p) || p
                    == position) by {
                if takes_position(winners, n, p) && p != position {
                    let j = choose|j: int| 0 <= j < n && #[trigger] winners[j].position == p;
                    assert(0 <= j < n - 1 && winners[j].position == p);
                }
                if takes_position(winners, n - 1, p) {
                    let j = choose|j: int| 0 <= j < n - 1 && #[trigger] winners[j].position == p;
                    assert(0 <= j < n && winners[j].position == p);
                }
                if p == position {
                    assert(winners[n - 1].position == p);
                }
            }
        }
        lemma_one_position_more(distribution, base, before, position);
    }
}

/// The positions that the first `n` winners take.
pub open spec fn taken_by(winners: Seq<WinnerSpec>, n: int) -> Set<u32> {
    Set::new(|position: u32| takes_position(winners, n, position))
}

/// Where the prizes are in order, the escrow covers every selection that is otherwise
/// allowed.
pub proof fn law_escrow_covers_selection(
    env: EnvView,
    id: u64,
    winners: Seq<WinnerSpec>,
    op_id: Bytes32,
)
    requires
        prizes_are_sound(env.store, id),
    ensures
        select_refusal(env, id, winners, op_id) != Some(Error::InsufficientEscrow),
{
    let s = env.store;
    let event = event_in(s, id).unwrap();
    let distribution = event.winner_distribution@;
    let base = prize_base(s, id);
    let n = winners.len() as int;
    if bad_position(winners, distribution, n) is Some {
        lemma_bad_position_is_named(winners, distribution, n);
    } else if bad_prize(s, id, winners, distribution, base, n) is Some {
        lemma_bad_prize_is_named(s, id, winners, distribution, base, n);
    } else if n > 0 {
        lemma_prizes_are_good(s, id, winners, distribution, base, n, n);
        let out = paid_positions(s, id);
        assert(base > 0) by {
            assert(prize_of(base, distribution, winners[n - 1].position) > 0);
        }
        lemma_owed_is_left(s, id, winners, distribution, base, n, out);
        lemma_prizes_are_no_charge(distribution, base, out + taken_by(winners, n));
        if base_escrow_in(s, id) is None {
            assert(out =~= Set::empty()) by {
                assert forall|position: u32| !is_paid(s, id, position) by {
                    assert(award_in(s, id, position) is None);
                }
            }
            law_prizes_fit_base(distribution, base);
        }
    }
}

proof fn lemma_bad_position_is_named(
    winners: Seq<WinnerSpec>,
    distribution: Seq<(u32, u32)>,
    n: int,
)
    ensures
        bad_position(winners, distribution, n) != Some(Error::InsufficientEscrow),
    decreases n,
{
    if n > 0 {
        lemma_bad_position_is_named(winners, distribution, n - 1);
    }
}

proof fn lemma_bad_prize_is_named(
    s: Store,
    id: u64,
    winners: Seq<WinnerSpec>,
    distribution: Seq<(u32, u32)>,
    base: i128,
    n: int,
)
    ensures
        bad_prize(s, id, winners, distribution, base, n) != Some(Error::InsufficientEscrow),
    decreases n,
{
    if n > 0 {
        lemma_bad_prize_is_named(s, id, winners, distribution, base, n - 1);
    }
}

/// A selection keeps the prizes in order, and those that have been paid paid. Where prizes
/// are paid in one piece, every winner's prize then waits for that winner.
pub proof fn law_selection_keeps_prizes_sound(
    env: EnvView,
    id: u64,
    winners: Seq<WinnerSpec>,
    op_id: Bytes32,
)
    requires
        prizes_are_sound(env.store, id),
        select_denial(env, id) is None,
        select_refusal(env, id, winners, op_id) is None,
        winner_count_in(env.store, id) + winners.len() <= u32::MAX,
    ensures
        prizes_are_sound(winners_recorded(env, id, winners, op_id).store, id),
        paid_positions(winners_recorded(env, id, winners, op_id).store, id) =~= paid_positions(
            env.store,
            id,
        ),
        event_in(env.store, id).unwrap().release_kind == ReleaseKind::Single ==> forall|i: int|
            0 <= i < winners.len() ==> is_awarded_to(
                winners_recorded(env, id, winners, op_id).store,
                id,
                #[trigger] winners[i],
            ),
{
    let s = env.store;
    let event = event_in(s, id).unwrap();
    let distribution = event.winner_distribution@;
    let n = winners.len() as int;
    let after = winners_recorded(env, id, winners, op_id).store;
    lemma_selection_keeps(s, id, winners, env.timestamp, DataKey::Event(id));
    assert(event_in(after, id) == Some(event));
    match event.release_kind {
        ReleaseKind::Single => {
            let base = prize_base(s, id);
            let based = base_recorded(s, id);
            let awarded = prizes_awarded(based, id, winners, distribution, base, n);
            lemma_prizes_are_good(s, id, winners, distribution, base, n, n);
            assert(base > 0);
            lemma_base_leaves_awards(s, id);
            lemma_same_bad_prize(s, based, id, winners, distribution, base, n);
            lemma_awards_stay_sound(based, id, winners, distribution, base, n);
            lemma_awarding_keeps(
                based,
                id,
                winners,
                distribution,
                base,
                n,
                DataKey::EventPrizeBaseEscrow(id),
            );
            lemma_few_prizes_wait(s, id);
            // What follows the awards touches neither them nor the rows.
            assert forall|position: u32| #[trigger]
                award_in(after, id, position) == award_in(awarded, id, position) by {}
            assert forall|i: u32| #[trigger]
                winner_in(after, id, i) == winner_in(awarded, id, i) by {}
            assert(winner_count_in(after, id) == winner_count_in(awarded, id));
            assert(base_escrow_in(after, id) == Some(base));
            lemma_same_rows(awarded, after, id);
            assert(awards_are_sound(after, id, distribution, base));
            assert forall|i: int| 0 <= i < winners.len() implies is_awarded_to(
                after,
                id,
                #[trigger] winners[i],
            ) by {
                assert(is_awarded_to(awarded, id, winners[i]));
                assert(waiting_positions(awarded, id).contains(winners[i].position));
                assert(waiting_positions(after, id).contains(winners[i].position));
            }
        },
        ReleaseKind::Multi(_) => {
            let rows = rows_added(s, id, winners, n);
            lemma_rows_keep(s, id, winners, n, DataKey::EventPrizeBaseEscrow(id));
            lemma_rows_keep(s, id, winners, n, DataKey::EventUnclaimedPrizes(id));
            assert forall|position: u32| #[trigger]
                award_in(after, id, position) == award_in(s, id, position) by {
                lemma_rows_keep(s, id, winners, n, DataKey::EventPrizeAward(id, position));
            }
            assert(base_escrow_in(after, id) == base_escrow_in(s, id));
            lemma_plain_rows(s, id, winners, n);
            assert forall|i: u32| i < winner_count_in(s, id) implies #[trigger] winner_in(
                after,
                id,
                i,
            ) == winner_in(s, id, i) by {
                assert(winner_in(rows, id, i) == winner_in(s, id, i));
            }
            lemma_more_rows(s, after, id, distribution);
        },
    }
}

/// Rows are added behind those that are there.
proof fn lemma_plain_rows(s: Store, id: u64, winners: Seq<WinnerSpec>, n: int)
    requires
        0 <= n,
        winner_count_in(s, id) + n <= u32::MAX,
    ensures
        ({
            let rows = rows_added(s, id, winners, n);
            &&& winner_count_in(rows, id) == winner_count_in(s, id) + n
            &&& forall|i: u32|
                i < winner_count_in(s, id) ==> #[trigger] winner_in(rows, id, i) == winner_in(
                    s,
                    id,
                    i,
                )
        }),
    decreases n,
{
    if n > 0 {
        lemma_plain_rows(s, id, winners, n - 1);
        let before = rows_added(s, id, winners, n - 1);
        let rows = rows_added(s, id, winners, n);
        assert forall|i: u32| i < winner_count_in(s, id) implies #[trigger] winner_in(rows, id, i)
            == winner_in(s, id, i) by {
            assert(winner_in(before, id, i) == winner_in(s, id, i));
        }
    }
}

/// Awards stay where their rows stay.
proof fn lemma_more_rows(a: Store, b: Store, id: u64, distribution: Seq<(u32, u32)>)
    requires
        prizes_are_sound(a, id),
        distribution == event_in(a, id).unwrap().winner_distribution@,
        base_escrow_in(b, id) == base_escrow_in(a, id),
        winner_count_in(b, id) >= winner_count_in(a, id),
        forall|position: u32| #[trigger]
            award_in(b, id, position) == award_in(a, id, position),
        forall|i: u32|
            i < winner_count_in(a, id) ==> #[trigger] winner_in(b, id, i) == winner_in(a, id, i),
    ensures
        base_escrow_in(a, id) matches Some(base) ==> awards_are_sound(b, id, distribution, base),
        paid_positions(b, id) =~= paid_positions(a, id),
        waiting_positions(b, id) =~= waiting_positions(a, id),
{
    assert forall|position: u32| award_in(a, id, position) is Some implies #[trigger] anchor_in(
        b,
        id,
        position,
    ) == anchor_in(a, id, position) by {
        assert(award_in(b, id, position) == award_in(a, id, position));
        let anchor = award_in(a, id, position).unwrap().anchor_idx;
        assert(winner_in(b, id, anchor) == winner_in(a, id, anchor));
    }
    assert forall|position: u32| is_paid(b, id, position) == is_paid(a, id, position) by {
        assert(award_in(b, id, position) == award_in(a, id, position));
        assert(award_in(a, id, position) is Some ==> anchor_in(b, id, position) == anchor_in(
            a,
            id,
            position,
        ));
    }
    assert forall|position: u32| is_waiting(b, id, position) == is_waiting(a, id, position) by {
        assert(award_in(b, id, position) == award_in(a, id, position));
        assert(is_paid(b, id, position) == is_paid(a, id, position));
    }
}

/// The same awards and rows give the same paid and waiting positions.
proof fn lemma_same_rows(a: Store, b: Store, id: u64)
    requires
        forall|position: u32| #[trigger]
            award_in(b, id, position) == award_in(a, id, position),
        forall|i: u32| #[trigger] winner_in(b, id, i) == winner_in(a, id, i),
    ensures
        forall|position: u32|
            award_in(a, id, position) is Some ==> #[trigger] anchor_in(b, id, position)
                == anchor_in(a, id, position),
        paid_positions(b, id) =~= paid_positions(a, id),
        waiting_positions(b, id) =~= waiting_positions(a, id),
{
    assert forall|position: u32| award_in(a, id, position) is Some implies #[trigger] anchor_in(
        b,
        id,
        position,
    ) == anchor_in(a, id, position) by {
        assert(award_in(b, id, position) == award_in(a, id, position));
        let anchor = award_in(a, id, position).unwrap().anchor_idx;
        assert(winner_in(b, id, anchor) == winner_in(a, id, anchor));
    }
    assert forall|position: u32| is_paid(b, id, position) == is_paid(a, id, position) by {
        assert(award_in(b, id, position) == award_in(a, id, position));
        assert(award_in(a, id, position) is Some ==> anchor_in(b, id, position) == anchor_in(
            a,
            id,
            position,
        ));
    }
    assert forall|position: u32| is_waiting(b, id, position) == is_waiting(a, id, position) by {
        assert(award_in(b, id, position) == award_in(a, id, position));
        assert(is_paid(b, id, position) == is_paid(a, id, position));
    }
}

/// Whether prizes are bad depends on the awards alone.
pub proof fn lemma_same_bad_prize(
    a: Store,
    b: Store,
    id: u64,
    winners: Seq<WinnerSpec>,
    distribution: Seq<(u32, u32)>,
    base: i128,
    n: int,
)
    requires
        b == base_recorded(a, id),
    ensures
        bad_prize(b, id, winners, distribution, base, n) == bad_prize(
            a,
            id,
            winners,
            distribution,
            base,
            n,
        ),
    decreases n,
{
    if n > 0 {
        lemma_same_bad_prize(a, b, id, winners, distribution, base, n - 1);
        let position = winners[n - 1].position;
        assert(award_in(b, id, position) == award_in(a, id, position));
    }
}

/// A claim keeps the prizes in order.
pub proof fn law_claim_keeps_prizes_sound(env: EnvView, id: u64, position: u32, op_id: Bytes32)
    requires
        prizes_are_sound(env.store, id),
        claim_denial(env, id, position) is None,
        claim_refusal(env, id, position, op_id) is None,
    ensures
        prizes_are_sound(prize_claimed(env, id, position, op_id).store, id),
        is_paid(prize_claimed(env, id, position, op_id).store, id, position),
{
    let s = env.store;
    let after = prize_claimed(env, id, position, op_id).store;
    let event = event_in(s, id).unwrap();
    let distribution = event.winner_distribution@;
    let row = anchor_in(s, id, position).unwrap();
    let place = award_in(s, id, position).unwrap().anchor_idx;
    assert(award_in(s, id, position) is Some);
    assert(base_escrow_in(s, id) is Some);
    let base = base_escrow_in(s, id).unwrap();
    assert(base_escrow_in(after, id) == Some(base));
    assert(winner_count_in(after, id) == winner_count_in(s, id));
    assert forall|p: u32| #[trigger] award_in(after, id, p) == award_in(s, id, p) by {}
    assert(winner_in(after, id, place) matches Some(paid) && paid.position == position
        && paid.recipient == row.recipient && paid.amount == row.amount && paid.paid_at is Some);
    assert forall|p: u32| p != position && award_in(s, id, p) is Some implies #[trigger] anchor_in(
        after,
        id,
        p,
    ) == anchor_in(s, id, p) by {
        assert(award_in(after, id, p) == award_in(s, id, p));
        let other = award_in(s, id, p).unwrap().anchor_idx;
        assert(anchor_in(s, id, p) is Some);
        assert(winner_in(s, id, other).unwrap().position == p);
        assert(winner_in(s, id, place).unwrap().position == position);
        assert(other != place);
        assert(winner_in(after, id, other) == winner_in(s, id, other));
    }
    assert(is_paid(after, id, position)) by {
        assert(award_in(after, id, position) == award_in(s, id, position));
    }
    assert(!is_paid(s, id, position));
    assert forall|p: u32| is_paid(after, id, p) == (is_paid(s, id, p) || p == position) by {
        assert(award_in(after, id, p) == award_in(s, id, p));
        if p != position && award_in(s, id, p) is Some {
            assert(anchor_in(after, id, p) == anchor_in(s, id, p));
        }
    }
    assert forall|p: u32| is_waiting(after, id, p) == (is_waiting(s, id, p) && p != position) by {
        assert(award_in(after, id, p) == award_in(s, id, p));
        assert(is_paid(after, id, p) == (is_paid(s, id, p) || p == position));
    }
    assert(paid_positions(after, id) =~= paid_positions(s, id).insert(position));
    assert(waiting_positions(s, id) =~= waiting_positions(after, id).insert(position));
    assert(!waiting_positions(after, id).contains(position));
    lemma_one_position_more(distribution, base, paid_positions(s, id), position);
    lemma_one_position_more(distribution, base, waiting_positions(after, id), position);
    assert forall|p: u32| #[trigger] award_in(after, id, p) is Some implies {
        &&& value_at(distribution, p) is Some
        &&& award_in(after, id, p).unwrap().anchor_idx < winner_count_in(after, id)
        &&& anchor_in(after, id, p) matches Some(r) && r.amount == prize_of(base, distribution, p)
            && r.amount > 0
    } by {
        assert(award_in(s, id, p) is Some);
        if p != position {
            assert(anchor_in(after, id, p) == anchor_in(s, id, p));
        }
    }
    lemma_positions_are_counted(distribution, waiting_positions(after, id));
}

/// A contribution keeps the prizes in order.
pub proof fn law_contribution_keeps_prizes_sound(
    env: EnvView,
    id: u64,
    from: Address,
    amount: i128,
    op_id: Bytes32,
)
    requires
        prizes_are_sound(env.store, id),
        add_funds_denial(env, id, amount) is None,
        add_funds_refusal(env, id, from, op_id) is None,
    ensures
        prizes_are_sound(funds_added(env, id, from, amount, op_id).store, id),
{
    lemma_same_prizes_are_sound(
        env.store,
        funds_added(env, id, from, amount, op_id).store,
        id,
    );
}

/// Submissions and managers leave the prizes alone.
pub proof fn law_other_operations_keep_prizes_sound(
    env: EnvView,
    id: u64,
    who: Address,
    text: Text,
    op_id: Bytes32,
    any: u64,
)
    requires
        prizes_are_sound(env.store, any),
    ensures
        prizes_are_sound(submitted(env, id, who, text, op_id).store, any),
        prizes_are_sound(withdrawn(env, id, who, op_id).store, any),
        prizes_are_sound(proposed(proposal_voided(env, id), id, who).store, any),
        prizes_are_sound(manager_accepted(env, id).store, any),
        prizes_are_sound(pending_manager_cancelled(env, id).store, any),
{
    let s = env.store;
    lemma_same_prizes_are_sound(s, submitted(env, id, who, text, op_id).store, any);
    lemma_same_prizes_are_sound(s, withdrawn(env, id, who, op_id).store, any);
    lemma_same_prizes_are_sound(s, proposed(proposal_voided(env, id), id, who).store, any);
    lemma_same_prizes_are_sound(s, manager_accepted(env, id).store, any);
    lemma_same_prizes_are_sound(s, pending_manager_cancelled(env, id).store, any);
}

/// What is done within one event leaves the prizes of the others alone.
pub proof fn law_prizes_of_other_events_stay_sound(
    before: Store,
    after: Store,
    id: u64,
    caller: Address,
    op_id: Bytes32,
    other: u64,
)
    requires
        stays_within(before, after, id, caller, op_id),
        prizes_are_sound(before, other),
        other != id,
    ensures
        prizes_are_sound(after, other),
{
    assert(entry_in(after, DataKey::Event(other)) == entry_in(before, DataKey::Event(other)));
    lemma_same_prizes_are_sound(before, after, other);
}

} // verus!
