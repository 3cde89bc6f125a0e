//! Which winners may be selected, and what comes of it.
use crate::env::{Effect, Env, EnvView, Event};
use crate::errors::Error;
use crate::event_ops::winners::{
    bad_position, bad_prize, base_recorded, check_selection, event_to_decide, has_plain_row,
    is_plain_row, owed, prize_awarded, prize_base, prize_of, prizes_awarded, rows_added,
    select_winners, selection_closed, takes_position,
};
use crate::host::{ascending, value_at};
use crate::laws::entries::law_percentage_stands_next_to_position;
use crate::laws::shares::lemma_share_floor;
use crate::storage::{
    address_in, award_in, base_escrow_in, claim_expiry_in, entry_in, event_in, flag_in,
    unclaimed_in, winner_count_in, winner_in, Entry, Store,
};
use crate::types::{
    Address, Bytes32, DataKey, EventRecord, EventStatus, Pillar, PrizeAward, ReleaseKind, Winner,
    WinnerSpec,
};
use vstd::prelude::*;

verus! {

/// Nothing is wrong with the positions if and only if each is in the distribution and none
/// occurs twice.
proof fn lemma_positions_are_fine(winners: Seq<WinnerSpec>, pairs: Seq<(u32, u32)>, n: int)
    requires
        0 <= n <= winners.len(),
        ascending(pairs),
    ensures
        bad_position(winners, pairs, n) is None <==> {
            &&& forall|i: int, j: int|
                0 <= i < j < n ==> #[trigger] winners[i].position != #[trigger] winners[j].position
            &&& forall|i: int|
                0 <= i < n ==> exists|k: int|
                    0 <= k < pairs.len() && (#[trigger] pairs[k]).0 == (
                    #[trigger] winners[i]).position
        },
    decreases n,
{
    if n > 0 {
        lemma_positions_are_fine(winners, pairs, n - 1);
        let last = winners[n - 1].position;
        law_percentage_stands_next_to_position(pairs, last);
        if takes_position(winners, n - 1, last) {
            let j = choose|j: int| 0 <= j < n - 1 && #[trigger] winners[j].position == last;
            assert(winners[j].position == winners[n - 1].position);
        }
        if bad_position(winners, pairs, n) is None {
            assert forall|i: int, j: int| 0 <= i < j < n implies #[trigger] winners[i].position
                != #[trigger] winners[j].position by {
                if j == n - 1 {
                    assert(!takes_position(winners, n - 1, last));
                }
            }
        }
    }
}

/// The first winner with whom something is wrong decides what is wrong.
proof fn lemma_first_bad_position(
    winners: Seq<WinnerSpec>,
    pairs: Seq<(u32, u32)>,
    k: int,
    n: int,
)
    requires
        0 <= k < n <= winners.len(),
        bad_position(winners, pairs, k) is None,
        bad_position(winners, pairs, k + 1) is Some,
    ensures
        bad_position(winners, pairs, n) == bad_position(winners, pairs, k + 1),
    decreases n,
{
    if k + 1 < n {
        lemma_first_bad_position(winners, pairs, k, n - 1);
    }
}

/// The prize of a position is a hundredth of the base for each of its per cent, rounded
/// down.
proof fn lemma_prize_floor(base: i128, pairs: Seq<(u32, u32)>, k: int)
    requires
        ascending(pairs),
        0 <= k < pairs.len(),
    ensures
        ({
            let percent = pairs[k].1;
            let amount = prize_of(base, pairs, pairs[k].0);
            &&& base <= 0 || percent == 0 ==> amount == 0
            &&& base > 0 && base * percent <= i128::MAX ==> 100 * amount <= base * percent < 100
                * amount + 100
            &&& base > 0 && base * percent > i128::MAX ==> 100 * amount <= i128::MAX < 100 * amount
                + 100
            &&& amount > 0 <==> base * percent >= 100
            &&& amount >= 0
        }),
{
    let percent = pairs[k].1;
    law_percentage_stands_next_to_position(pairs, pairs[k].0);
    lemma_share_floor(base as int, percent as int, 100);
    assert(percent == 0 ==> base * percent == 0) by (nonlinear_arith);
    assert(base <= 0 ==> base * percent <= 0) by (nonlinear_arith)
        requires
            percent >= 0,
    ;
}

/// Nothing is wrong with the prizes if and only if no position has been awarded and each
/// is worth something.
proof fn lemma_prizes_are_fine(
    s: Store,
    id: u64,
    winners: Seq<WinnerSpec>,
    pairs: Seq<(u32, u32)>,
    base: i128,
    n: int,
)
    requires
        0 <= n <= winners.len(),
        ascending(pairs),
        forall|i: int|
            0 <= i < n ==> exists|k: int|
                0 <= k < pairs.len() && (#[trigger] pairs[k]).0 == (#[trigger] winners[i]).position,
    ensures
        bad_prize(s, id, winners, pairs, base, n) is None <==> {
            &&& forall|i: int|
                0 <= i < n ==> award_in(s, id, (#[trigger] winners[i]).position) is None
            &&& forall|i: int, k: int|
                0 <= i < n && 0 <= k < pairs.len() && (#[trigger] pairs[k]).0 == (
                #[trigger] winners[i]).position ==> base * pairs[k].1 >= 100
        },
    decreases n,
{
    if n > 0 {
        lemma_prizes_are_fine(s, id, winners, pairs, base, n - 1);
        let last = winners[n - 1];
        let place = choose|k: int|
            0 <= k < pairs.len() && (#[trigger] pairs[k]).0 == last.position;
        lemma_prize_floor(base, pairs, place);
        if bad_prize(s, id, winners, pairs, base, n) is None {
            assert forall|i: int, k: int|
                0 <= i < n && 0 <= k < pairs.len() && (#[trigger] pairs[k]).0 == (
                #[trigger] winners[i]).position implies base * pairs[k].1 >= 100 by {
                if i == n - 1 {
                    lemma_prize_floor(base, pairs, k);
                    assert(pairs[k].0 == pairs[place].0);
                }
            }
        } else {
            if bad_prize(s, id, winners, pairs, base, n - 1) is None && award_in(
                s,
                id,
                last.position,
            ) is None {
                assert(pairs[place].0 == winners[n - 1].position);
                assert(!(base * pairs[place].1 >= 100));
            }
        }
    }
}

/// The first prize with which something is wrong decides what is wrong.
proof fn lemma_first_bad_prize(
    s: Store,
    id: u64,
    winners: Seq<WinnerSpec>,
    pairs: Seq<(u32, u32)>,
    base: i128,
    k: int,
    n: int,
)
    requires
        0 <= k < n <= winners.len(),
        bad_prize(s, id, winners, pairs, base, k) is None,
        bad_prize(s, id, winners, pairs, base, k + 1) is Some,
    ensures
        bad_prize(s, id, winners, pairs, base, n) == bad_prize(
            s,
            id,
            winners,
            pairs,
            base,
            k + 1,
        ),
    decreases n,
{
    if k + 1 < n {
        lemma_first_bad_prize(s, id, winners, pairs, base, k, n - 1);
    }
}

/// An event is decided by its manager while it is active and the contract is not paused; a
/// crowdfunding campaign is not decided at all.
pub proof fn law_active_event_may_be_decided(env: &Env, id: u64, r: Result<EventRecord, Error>)
    requires
        call_ensures(event_to_decide, (env, id), r),
    ensures
        ({
            let event = event_in(env@.store, id);
            let paused = env@.settings.paused;
            let active = event is Some && event.unwrap().status == EventStatus::Active;
            let campaign = event.unwrap().pillar == Pillar::Crowdfunding;
            &&& paused ==> r == Err::<EventRecord, Error>(Error::Paused)
            &&& !paused && event is None ==> r == Err::<EventRecord, Error>(Error::EventNotFound)
            &&& !paused && event is Some && !active ==> r == Err::<EventRecord, Error>(
                Error::EventNotActive,
            )
            &&& !paused && active && campaign ==> r == Err::<EventRecord, Error>(
                Error::InvalidPillar,
            )
            &&& !paused && active && !campaign ==> r == Ok::<EventRecord, Error>(event.unwrap())
        }),
{
}

/// Winners are selected or refused as the two checks say that precede it, and the manager
/// is asked if the first of them passes. A refusal leaves no other trace.
pub proof fn law_selection_follows_its_checks(
    env: &mut Env,
    id: u64,
    winners: &Vec<WinnerSpec>,
    op_id: Bytes32,
    event: EventRecord,
    manager: Address,
    looked_up: Result<EventRecord, Error>,
    checked: Result<(), Error>,
    r: Result<(), Error>,
)
    requires
        call_ensures(select_winners, (env, id, winners, op_id), r),
        call_ensures(event_to_decide, (&*old(env), id), looked_up),
        looked_up is Ok ==> looked_up == Ok::<EventRecord, Error>(event) && call_ensures(
            check_selection,
            (&*old(env), id, &event, winners, op_id),
            checked,
        ),
        address_in(old(env)@.store, DataKey::EventManager(id)) == Some(manager) || address_in(
            old(env)@.store,
            DataKey::EventManager(id),
        ) is None && manager == event.owner,
    ensures
        looked_up is Err ==> r == Err::<(), Error>(looked_up->Err_0) && final(env)@ == old(env)@,
        looked_up is Ok ==> r == checked && final(env)@.auths == old(env)@.auths.push(manager),
        r is Err ==> final(env)@ == (EnvView { auths: final(env)@.auths, ..old(env)@ }),
{
}

/// From one to fifty winners may be selected at a time, each for another position of the
/// distribution, in an operation that is new to the manager. Where prizes are paid in one
/// piece, none of the positions has been awarded, each is worth at least one unit, the
/// escrow covers all of them, and the winners that there are, if any, were selected
/// against a base that is on file. Where prizes are paid in milestones, nobody has been
/// selected.
pub proof fn law_proper_winners_may_be_selected(
    env: &Env,
    id: u64,
    event: EventRecord,
    winners: &Vec<WinnerSpec>,
    op_id: Bytes32,
    r: Result<(), Error>,
    manager: Address,
    base: i128,
)
    requires
        call_ensures(check_selection, (env, id, &event, winners, op_id), r),
        event_in(env@.store, id) == Some(event),
        ascending(event.winner_distribution@),
        address_in(env@.store, DataKey::EventManager(id)) == Some(manager) || address_in(
            env@.store,
            DataKey::EventManager(id),
        ) is None && manager == event.owner,
        base_escrow_in(env@.store, id) == Some(base) || base_escrow_in(env@.store, id) is None
            && base == event.remaining_escrow,
    ensures
        r is Ok <==> ({
            let s = env@.store;
            let pairs = event.winner_distribution@;
            let n = winners@.len() as int;
            &&& !flag_in(s, DataKey::OpSeen(manager, op_id))
            &&& 1 <= n <= 50
            &&& forall|i: int, j: int|
                0 <= i < j < n ==> #[trigger] winners@[i].position
                    != #[trigger] winners@[j].position
            &&& forall|i: int|
                0 <= i < n ==> exists|k: int|
                    0 <= k < pairs.len() && (#[trigger] pairs[k]).0 == (
                    #[trigger] winners@[i]).position
            &&& event.release_kind == ReleaseKind::Single ==> {
                &&& winner_count_in(s, id) == 0 || base_escrow_in(s, id) is Some
                &&& forall|i: int|
                    0 <= i < n ==> award_in(s, id, (#[trigger] winners@[i]).position) is None
                &&& forall|i: int, k: int|
                    0 <= i < n && 0 <= k < pairs.len() && (#[trigger] pairs[k]).0 == (
                    #[trigger] winners@[i]).position ==> base * pairs[k].1 >= 100
                &&& owed(winners@, pairs, base, n) <= event.remaining_escrow
            }
            &&& event.release_kind != ReleaseKind::Single ==> forall|idx: u32|
                idx < winner_count_in(s, id) && (#[trigger] winner_in(s, id, idx)) is Some
                    ==> winner_in(s, id, idx).unwrap().milestone is Some
        }),
{
    let s = env@.store;
    let pairs = event.winner_distribution@;
    let n = winners@.len() as int;
    lemma_positions_are_fine(winners@, pairs, n);
    if bad_position(winners@, pairs, n) is None {
        lemma_prizes_are_fine(s, id, winners@, pairs, base, n);
    }
    if event.release_kind != ReleaseKind::Single {
        let count = winner_count_in(s, id);
        if has_plain_row(s, id, count) {
            let idx = choose|idx: u32| idx < count && is_plain_row(s, id, idx);
            assert(winner_in(s, id, idx) is Some);
        } else {
            assert forall|idx: u32|
                idx < count && (#[trigger] winner_in(s, id, idx)) is Some implies winner_in(
                s,
                id,
                idx,
            ).unwrap().milestone is Some by {
                assert(!is_plain_row(s, id, idx));
            }
        }
    }
}

/// What the prizes come to grows with each winner, from nothing, by a hundredth of the
/// base for each per cent of the winner's position, rounded down, up to the largest
/// amount.
pub proof fn law_prizes_are_summed(
    winners: Seq<WinnerSpec>,
    pairs: Seq<(u32, u32)>,
    base: i128,
    n: int,
    k: int,
)
    requires
        ascending(pairs),
        0 <= n < winners.len(),
        0 <= k < pairs.len(),
        pairs[k].0 == winners[n].position,
        base >= 0,
    ensures
        owed(winners, pairs, base, 0) == 0,
        ({
            let before = owed(winners, pairs, base, n);
            let after = owed(winners, pairs, base, n + 1);
            let percent = pairs[k].1;
            let cap = if base * percent > i128::MAX {
                i128::MAX as int
            } else {
                base * percent
            };
            &&& before <= after
            &&& 100 * (after - before) <= cap
            &&& after < i128::MAX ==> cap < 100 * (after - before) + 100
        }),
{
    lemma_prize_floor(base, pairs, k);
    assert(base * pairs[k].1 >= 0) by (nonlinear_arith)
        requires
            base >= 0,
            pairs[k].1 >= 0,
    ;
    if base == 0 {
        assert(base * pairs[k].1 == 0) by (nonlinear_arith)
            requires
                base == 0,
        ;
    }
    if pairs[k].1 == 0 {
        assert(base * pairs[k].1 == 0) by (nonlinear_arith)
            requires
                pairs[k].1 == 0,
        ;
    }
}

/// Whatever the winners, a selection is refused where the manager has had the operation
/// carried out, and then where winners have been selected for good.
pub proof fn law_settled_selection_is_refused(
    env: &Env,
    id: u64,
    event: EventRecord,
    winners: &Vec<WinnerSpec>,
    op_id: Bytes32,
    r: Result<(), Error>,
    manager: Address,
)
    requires
        call_ensures(check_selection, (env, id, &event, winners, op_id), r),
        event_in(env@.store, id) == Some(event),
        ascending(event.winner_distribution@),
        address_in(env@.store, DataKey::EventManager(id)) == Some(manager) || address_in(
            env@.store,
            DataKey::EventManager(id),
        ) is None && manager == event.owner,
    ensures
        ({
            let s = env@.store;
            let seen = flag_in(s, DataKey::OpSeen(manager, op_id));
            let rows = winner_count_in(s, id);
            let single = event.release_kind == ReleaseKind::Single;
            &&& seen ==> r == Err::<(), Error>(Error::DuplicateOperation)
            &&& !seen && single && rows > 0 && base_escrow_in(s, id) is None ==> r == Err::<
                (),
                Error,
            >(Error::WinnersAlreadySelected)
            &&& !seen && !single ==> forall|idx: u32|
                idx < rows && (#[trigger] winner_in(s, id, idx)) is Some && winner_in(
                    s,
                    id,
                    idx,
                ).unwrap().milestone is None ==> r == Err::<(), Error>(
                    Error::WinnersAlreadySelected,
                )
        }),
{
    let s = env@.store;
    if event.release_kind != ReleaseKind::Single && !flag_in(s, DataKey::OpSeen(manager, op_id)) {
        assert forall|idx: u32|
            idx < winner_count_in(s, id) && (#[trigger] winner_in(s, id, idx)) is Some && winner_in(
                s,
                id,
                idx,
            ).unwrap().milestone is None implies r == Err::<(), Error>(
            Error::WinnersAlreadySelected,
        ) by {
            assert(is_plain_row(s, id, idx));
        }
    }
}

/// Where nothing is settled, no winners at all are refused, and so are more than fifty.
pub proof fn law_none_and_too_many_are_refused(
    env: &Env,
    id: u64,
    event: EventRecord,
    winners: &Vec<WinnerSpec>,
    op_id: Bytes32,
    r: Result<(), Error>,
    manager: Address,
)
    requires
        call_ensures(check_selection, (env, id, &event, winners, op_id), r),
        event_in(env@.store, id) == Some(event),
        ascending(event.winner_distribution@),
        address_in(env@.store, DataKey::EventManager(id)) == Some(manager) || address_in(
            env@.store,
            DataKey::EventManager(id),
        ) is None && manager == event.owner,
        !flag_in(env@.store, DataKey::OpSeen(manager, op_id)),
        event.release_kind == ReleaseKind::Single ==> winner_count_in(env@.store, id) == 0
            || base_escrow_in(env@.store, id) is Some,
        event.release_kind != ReleaseKind::Single ==> forall|idx: u32|
            idx < winner_count_in(env@.store, id) && (#[trigger] winner_in(
                env@.store,
                id,
                idx,
            )) is Some ==> winner_in(env@.store, id, idx).unwrap().milestone is Some,
    ensures
        winners@.len() == 0 ==> r == Err::<(), Error>(Error::NoSubmissions),
        winners@.len() > 50 ==> r == Err::<(), Error>(Error::InvalidWinnerPosition),
{
    lemma_nothing_settled(env@.store, id, event);
}

/// Where no row is left without a milestone, none is found.
proof fn lemma_nothing_settled(s: Store, id: u64, event: EventRecord)
    requires
        event_in(s, id) == Some(event),
        event.release_kind == ReleaseKind::Single ==> winner_count_in(s, id) == 0 || base_escrow_in(
            s,
            id,
        ) is Some,
        event.release_kind != ReleaseKind::Single ==> forall|idx: u32|
            idx < winner_count_in(s, id) && (#[trigger] winner_in(s, id, idx)) is Some
                ==> winner_in(s, id, idx).unwrap().milestone is Some,
    ensures
        !selection_closed(s, id),
{
    let count = winner_count_in(s, id);
    if event.release_kind != ReleaseKind::Single && has_plain_row(s, id, count) {
        let idx = choose|idx: u32| idx < count && is_plain_row(s, id, idx);
        assert(winner_in(s, id, idx) is Some);
    }
}

/// Of several winners, the first whose position was taken before or is not in the
/// distribution decides why the selection is refused: `k` is that winner, or one before.
pub proof fn law_first_bad_position_is_told(
    env: &Env,
    id: u64,
    event: EventRecord,
    winners: &Vec<WinnerSpec>,
    op_id: Bytes32,
    r: Result<(), Error>,
    manager: Address,
    k: int,
)
    requires
        call_ensures(check_selection, (env, id, &event, winners, op_id), r),
        event_in(env@.store, id) == Some(event),
        ascending(event.winner_distribution@),
        address_in(env@.store, DataKey::EventManager(id)) == Some(manager) || address_in(
            env@.store,
            DataKey::EventManager(id),
        ) is None && manager == event.owner,
        !flag_in(env@.store, DataKey::OpSeen(manager, op_id)),
        event.release_kind == ReleaseKind::Single ==> winner_count_in(env@.store, id) == 0
            || base_escrow_in(env@.store, id) is Some,
        event.release_kind != ReleaseKind::Single ==> forall|idx: u32|
            idx < winner_count_in(env@.store, id) && (#[trigger] winner_in(
                env@.store,
                id,
                idx,
            )) is Some ==> winner_in(env@.store, id, idx).unwrap().milestone is Some,
        winners@.len() <= 50,
        0 <= k < winners@.len(),
        forall|i: int, j: int|
            0 <= i < j < k ==> #[trigger] winners@[i].position != #[trigger] winners@[j].position,
        forall|i: int|
            0 <= i < k ==> exists|l: int|
                0 <= l < event.winner_distribution@.len() && (
                #[trigger] event.winner_distribution@[l]).0 == (#[trigger] winners@[i]).position,
    ensures
        (exists|j: int| 0 <= j < k && (#[trigger] winners@[j]).position == winners@[k].position)
            ==> r == Err::<(), Error>(Error::DuplicateWinnerPosition),
        (forall|j: int| 0 <= j < k ==> (#[trigger] winners@[j]).position != winners@[k].position)
            && (forall|l: int|
            0 <= l < event.winner_distribution@.len() ==> (
            #[trigger] event.winner_distribution@[l]).0 != winners@[k].position) ==> r == Err::<
            (),
            Error,
        >(Error::InvalidWinnerPosition),
{
    let pairs = event.winner_distribution@;
    let n = winners@.len() as int;
    let position = winners@[k].position;
    lemma_nothing_settled(env@.store, id, event);
    lemma_positions_are_fine(winners@, pairs, k);
    law_percentage_stands_next_to_position(pairs, position);
    if exists|j: int| 0 <= j < k && (#[trigger] winners@[j]).position == position {
        let j = choose|j: int| 0 <= j < k && (#[trigger] winners@[j]).position == position;
        assert(winners@[j].position == position);
        assert(takes_position(winners@, k, position));
        lemma_first_bad_position(winners@, pairs, k, n);
    } else if value_at(pairs, position) is None {
        lemma_first_bad_position(winners@, pairs, k, n);
    }
}

/// Where nothing is wrong with the positions and prizes are paid in one piece, the first
/// winner whose position has been awarded or is worth nothing decides why the selection is
/// refused: `k` is that winner, or one before.
pub proof fn law_first_bad_prize_is_told(
    env: &Env,
    id: u64,
    event: EventRecord,
    winners: &Vec<WinnerSpec>,
    op_id: Bytes32,
    r: Result<(), Error>,
    manager: Address,
    base: i128,
    k: int,
)
    requires
        call_ensures(check_selection, (env, id, &event, winners, op_id), r),
        event_in(env@.store, id) == Some(event),
        ascending(event.winner_distribution@),
        address_in(env@.store, DataKey::EventManager(id)) == Some(manager) || address_in(
            env@.store,
            DataKey::EventManager(id),
        ) is None && manager == event.owner,
        !flag_in(env@.store, DataKey::OpSeen(manager, op_id)),
        event.release_kind == ReleaseKind::Single ==> winner_count_in(env@.store, id) == 0
            || base_escrow_in(env@.store, id) is Some,
        event.release_kind != ReleaseKind::Single ==> forall|idx: u32|
            idx < winner_count_in(env@.store, id) && (#[trigger] winner_in(
                env@.store,
                id,
                idx,
            )) is Some ==> winner_in(env@.store, id, idx).unwrap().milestone is Some,
        winners@.len() <= 50,
        base_escrow_in(env@.store, id) == Some(base) || base_escrow_in(env@.store, id) is None
            && base == event.remaining_escrow,
        event.release_kind == ReleaseKind::Single,
        0 <= k < winners@.len(),
        forall|i: int, j: int|
            0 <= i < j < winners@.len() ==> #[trigger] winners@[i].position
                != #[trigger] winners@[j].position,
        forall|i: int|
            0 <= i < winners@.len() ==> exists|l: int|
                0 <= l < event.winner_distribution@.len() && (
                #[trigger] event.winner_distribution@[l]).0 == (#[trigger] winners@[i]).position,
        forall|i: int|
            0 <= i < k ==> award_in(env@.store, id, (#[trigger] winners@[i]).position) is None,
        forall|i: int, l: int|
            0 <= i < k && 0 <= l < event.winner_distribution@.len() && (
            #[trigger] event.winner_distribution@[l]).0 == (#[trigger] winners@[i]).position
                ==> base * event.winner_distribution@[l].1 >= 100,
    ensures
        award_in(env@.store, id, winners@[k].position) is Some ==> r == Err::<(), Error>(
            Error::DuplicateWinnerPosition,
        ),
        award_in(env@.store, id, winners@[k].position) is None ==> forall|l: int|
            0 <= l < event.winner_distribution@.len() && (
            #[trigger] event.winner_distribution@[l]).0 == winners@[k].position && base
                * event.winner_distribution@[l].1 < 100 ==> r == Err::<(), Error>(
                Error::InvalidDistribution,
            ),
{
    let pairs = event.winner_distribution@;
    let n = winners@.len() as int;
    let position = winners@[k].position;
    let s = env@.store;
    lemma_nothing_settled(s, id, event);
    lemma_positions_are_fine(winners@, pairs, n);
    lemma_prizes_are_fine(s, id, winners@, pairs, base, k);
    if award_in(s, id, position) is Some {
        lemma_first_bad_prize(s, id, winners@, pairs, base, k, n);
    } else {
        assert forall|l: int|
            0 <= l < pairs.len() && (#[trigger] pairs[l]).0 == position && base * pairs[l].1
                < 100 implies r == Err::<(), Error>(Error::InvalidDistribution) by {
            lemma_prize_floor(base, pairs, l);
            lemma_first_bad_prize(s, id, winners@, pairs, base, k, n);
        }
    }
}

/// Where nothing is wrong with any position or prize, a selection is refused if and only
/// if the escrow does not cover the prizes.
pub proof fn law_uncovered_prizes_are_refused(
    env: &Env,
    id: u64,
    event: EventRecord,
    winners: &Vec<WinnerSpec>,
    op_id: Bytes32,
    r: Result<(), Error>,
    manager: Address,
    base: i128,
)
    requires
        call_ensures(check_selection, (env, id, &event, winners, op_id), r),
        event_in(env@.store, id) == Some(event),
        ascending(event.winner_distribution@),
        address_in(env@.store, DataKey::EventManager(id)) == Some(manager) || address_in(
            env@.store,
            DataKey::EventManager(id),
        ) is None && manager == event.owner,
        !flag_in(env@.store, DataKey::OpSeen(manager, op_id)),
        event.release_kind == ReleaseKind::Single ==> winner_count_in(env@.store, id) == 0
            || base_escrow_in(env@.store, id) is Some,
        event.release_kind != ReleaseKind::Single ==> forall|idx: u32|
            idx < winner_count_in(env@.store, id) && (#[trigger] winner_in(
                env@.store,
                id,
                idx,
            )) is Some ==> winner_in(env@.store, id, idx).unwrap().milestone is Some,
        winners@.len() <= 50,
        base_escrow_in(env@.store, id) == Some(base) || base_escrow_in(env@.store, id) is None
            && base == event.remaining_escrow,
        event.release_kind == ReleaseKind::Single,
        0 < winners@.len(),
        forall|i: int, j: int|
            0 <= i < j < winners@.len() ==> #[trigger] winners@[i].position
                != #[trigger] winners@[j].position,
        forall|i: int|
            0 <= i < winners@.len() ==> exists|l: int|
                0 <= l < event.winner_distribution@.len() && (
                #[trigger] event.winner_distribution@[l]).0 == (#[trigger] winners@[i]).position,
        forall|i: int|
            0 <= i < winners@.len() ==> award_in(
                env@.store,
                id,
                (#[trigger] winners@[i]).position,
            ) is None,
        forall|i: int, l: int|
            0 <= i < winners@.len() && 0 <= l < event.winner_distribution@.len() && (
            #[trigger] event.winner_distribution@[l]).0 == (#[trigger] winners@[i]).position
                ==> base * event.winner_distribution@[l].1 >= 100,
    ensures
        ({
            let total = owed(
                winners@,
                event.winner_distribution@,
                base,
                winners@.len() as int,
            );
            &&& total > event.remaining_escrow ==> r == Err::<(), Error>(Error::InsufficientEscrow)
            &&& total <= event.remaining_escrow ==> r == Ok::<(), Error>(())
        }),
{
    let pairs = event.winner_distribution@;
    let n = winners@.len() as int;
    lemma_nothing_settled(env@.store, id, event);
    lemma_positions_are_fine(winners@, pairs, n);
    lemma_prizes_are_fine(env@.store, id, winners@, pairs, base, n);
}

/// Every winner who is awarded a prize gets a row behind the others and the award of the
/// position.
proof fn lemma_awarded(
    s: Store,
    id: u64,
    winners: Seq<WinnerSpec>,
    pairs: Seq<(u32, u32)>,
    base: i128,
    n: int,
    i: int,
)
    requires
        0 <= i < n <= winners.len(),
        winner_count_in(s, id) + n <= u32::MAX,
        forall|a: int, b: int|
            0 <= a < b < n ==> #[trigger] winners[a].position != #[trigger] winners[b].position,
    ensures
        ({
            let after = prizes_awarded(s, id, winners, pairs, base, n);
            let place = (winner_count_in(s, id) + i) as u32;
            &&& winner_count_in(after, id) == winner_count_in(s, id) + n
            &&& winner_in(after, id, place) == Some(
                Winner {
                    recipient: winners[i].recipient,
                    position: winners[i].position,
                    amount: prize_of(base, pairs, winners[i].position),
                    milestone: None,
                    paid_at: None,
                },
            )
            &&& award_in(after, id, winners[i].position) == Some(
                PrizeAward {
                    recipient: winners[i].recipient,
                    anchor_idx: place,
                    reputation_bump: winners[i].reputation_bump,
                },
            )
        }),
    decreases n,
{
    let before = prizes_awarded(s, id, winners, pairs, base, n - 1);
    let last = winners[n - 1];
    assert(prizes_awarded(s, id, winners, pairs, base, n) == prize_awarded(
        before,
        id,
        last,
        prize_of(base, pairs, last.position),
    ));
    if i < n - 1 {
        lemma_awarded(s, id, winners, pairs, base, n - 1, i);
        assert(winners[i].position != winners[n - 1].position);
    } else if n > 1 {
        lemma_awarded(s, id, winners, pairs, base, n - 1, 0);
    } else {
        assert(before == s);
    }
}

/// Awarding prizes writes only rows behind the others, their count and the awards.
proof fn lemma_awarding_spares(
    s: Store,
    id: u64,
    winners: Seq<WinnerSpec>,
    pairs: Seq<(u32, u32)>,
    base: i128,
    n: int,
    key: DataKey,
)
    requires
        0 <= n <= winners.len(),
        winner_count_in(s, id) + n <= u32::MAX,
        key != DataKey::EventWinnerCount(id),
        forall|i: int|
            0 <= i < n ==> key != DataKey::EventPrizeAward(id, (#[trigger] winners[i]).position),
        key is EventWinnerAt && key->EventWinnerAt_0 == id ==> !(winner_count_in(s, id)
            <= key->EventWinnerAt_1 < winner_count_in(s, id) + n),
    ensures
        entry_in(prizes_awarded(s, id, winners, pairs, base, n), key) == entry_in(s, key),
        winner_count_in(prizes_awarded(s, id, winners, pairs, base, n), id) == winner_count_in(
            s,
            id,
        ) + n,
    decreases n,
{
    if n > 0 {
        lemma_awarding_spares(s, id, winners, pairs, base, n - 1, key);
        assert(key != DataKey::EventPrizeAward(id, winners[n - 1].position));
    }
}

/// Every winner of prizes that are paid in one piece gets a row behind those that there
/// were, in the order of the selection, for the percentage of the winner's position,
/// rounded down, of what the escrow held at the first selection; nothing of it is paid
/// yet. The position is awarded to the winner, with the reputation to come and the place
/// of the row.
pub proof fn law_prize_is_percentage_of_base(
    env: &mut Env,
    id: u64,
    winners: &Vec<WinnerSpec>,
    op_id: Bytes32,
    r: Result<(), Error>,
    event: EventRecord,
    base: i128,
    i: int,
    k: int,
)
    requires
        call_ensures(select_winners, (env, id, winners, op_id), r),
        r is Ok,
        event_in(old(env)@.store, id) == Some(event),
        event.release_kind == ReleaseKind::Single,
        ascending(event.winner_distribution@),
        base_escrow_in(old(env)@.store, id) == Some(base) || base_escrow_in(
            old(env)@.store,
            id,
        ) is None && base == event.remaining_escrow,
        winner_count_in(old(env)@.store, id) + winners@.len() <= u32::MAX,
        0 <= i < winners@.len(),
        0 <= k < event.winner_distribution@.len(),
        event.winner_distribution@[k].0 == winners@[i].position,
    ensures
        ({
            let place = (winner_count_in(old(env)@.store, id) + i) as u32;
            let row = winner_in(final(env)@.store, id, place);
            let amount = row.unwrap().amount;
            let percent = event.winner_distribution@[k].1;
            &&& row == Some(
                Winner {
                    recipient: winners@[i].recipient,
                    position: winners@[i].position,
                    amount,
                    milestone: None,
                    paid_at: None,
                },
            )
            &&& amount > 0
            &&& base * percent <= i128::MAX ==> 100 * amount <= base * percent < 100 * amount + 100
            &&& base * percent > i128::MAX ==> 100 * amount <= i128::MAX < 100 * amount + 100
            &&& award_in(final(env)@.store, id, winners@[i].position) == Some(
                PrizeAward {
                    recipient: winners@[i].recipient,
                    anchor_idx: place,
                    reputation_bump: winners@[i].reputation_bump,
                },
            )
        }),
{
    let s = old(env)@.store;
    let pairs = event.winner_distribution@;
    let n = winners@.len() as int;
    lemma_positions_are_fine(winners@, pairs, n);
    lemma_prizes_are_fine(s, id, winners@, pairs, base, n);
    let noted = base_recorded(s, id);
    lemma_awarded(noted, id, winners@, pairs, base, n, i);
    lemma_prize_floor(base, pairs, k);
    assert(base > 0) by {
        assert(pairs[k].0 == winners@[i].position);
        assert(base <= 0 ==> base * pairs[k].1 <= 0) by (nonlinear_arith)
            requires
                pairs[k].1 >= 0,
        ;
    }
}

/// Selecting winners of prizes that are paid in one piece counts them among the winners
/// and among those who have not claimed, notes what the escrow held unless that is on
/// file, and gives them ninety days from now to claim, without taking time from anyone.
/// The manager was asked, the number of winners is announced, and not a token moves.
pub proof fn law_single_selection_is_booked(
    env: &mut Env,
    id: u64,
    winners: &Vec<WinnerSpec>,
    op_id: Bytes32,
    r: Result<(), Error>,
    event: EventRecord,
    manager: Address,
)
    requires
        call_ensures(select_winners, (env, id, winners, op_id), r),
        r is Ok,
        event_in(old(env)@.store, id) == Some(event),
        event.release_kind == ReleaseKind::Single,
        address_in(old(env)@.store, DataKey::EventManager(id)) == Some(manager) || address_in(
            old(env)@.store,
            DataKey::EventManager(id),
        ) is None && manager == event.owner,
        winner_count_in(old(env)@.store, id) + winners@.len() <= u32::MAX,
    ensures
        ({
            let s = old(env)@.store;
            let after = final(env)@.store;
            let n = winners@.len() as int;
            let waiting = unclaimed_in(s, id) + n;
            let until = old(env)@.timestamp + 7_776_000;
            let given = match claim_expiry_in(s, id) {
                Some(expiry) => expiry,
                None => 0,
            };
            &&& entry_in(after, DataKey::EventWinnerCount(id)) == Some(
                Entry::Count((winner_count_in(s, id) + n) as u32),
            )
            &&& entry_in(after, DataKey::EventUnclaimedPrizes(id)) == Some(
                Entry::Count(
                    if waiting > u32::MAX {
                        u32::MAX
                    } else {
                        waiting as u32
                    },
                ),
            )
            &&& base_escrow_in(s, id) is Some ==> entry_in(after, DataKey::EventPrizeBaseEscrow(id))
                == entry_in(s, DataKey::EventPrizeBaseEscrow(id))
            &&& base_escrow_in(s, id) is None ==> entry_in(after, DataKey::EventPrizeBaseEscrow(id))
                == Some(Entry::Amount(event.remaining_escrow))
            &&& until > u64::MAX && given < u64::MAX ==> claim_expiry_in(after, id) == Some(
                u64::MAX,
            )
            &&& given < until <= u64::MAX ==> claim_expiry_in(after, id) == Some(until as u64)
            &&& until <= given || given == u64::MAX ==> entry_in(
                after,
                DataKey::EventPrizeClaimExpiry(id),
            ) == entry_in(s, DataKey::EventPrizeClaimExpiry(id))
            &&& entry_in(after, DataKey::OpSeen(manager, op_id)) == Some(Entry::Flag(true))
            &&& event_in(after, id) == Some(event)
        }),
        final(env)@ == (EnvView {
            store: final(env)@.store,
            auths: old(env)@.auths.push(manager),
            effects: old(env)@.effects.push(
                Effect::Publish(
                    Event::WinnersSelected { event_id: id, count: winners@.len() as u32 },
                ),
            ),
            ..old(env)@
        }),
{
    let s = old(env)@.store;
    let pairs = event.winner_distribution@;
    let n = winners@.len() as int;
    let base = prize_base(s, id);
    let noted = base_recorded(s, id);
    lemma_awarding_spares(
        noted,
        id,
        winners@,
        pairs,
        base,
        n,
        DataKey::EventPrizeBaseEscrow(id),
    );
    lemma_awarding_spares(
        noted,
        id,
        winners@,
        pairs,
        base,
        n,
        DataKey::EventPrizeClaimExpiry(id),
    );
}

/// Selecting winners of prizes that are paid in one piece writes nothing but what is said
/// of it: rows behind those that there were, the awards of the positions, the four numbers
/// that go with them, and that the operation is done.
pub proof fn law_single_selection_spares_the_rest(
    env: &mut Env,
    id: u64,
    winners: &Vec<WinnerSpec>,
    op_id: Bytes32,
    r: Result<(), Error>,
    event: EventRecord,
    manager: Address,
    key: DataKey,
)
    requires
        call_ensures(select_winners, (env, id, winners, op_id), r),
        r is Ok,
        event_in(old(env)@.store, id) == Some(event),
        event.release_kind == ReleaseKind::Single,
        address_in(old(env)@.store, DataKey::EventManager(id)) == Some(manager) || address_in(
            old(env)@.store,
            DataKey::EventManager(id),
        ) is None && manager == event.owner,
        winner_count_in(old(env)@.store, id) + winners@.len() <= u32::MAX,
        key != DataKey::EventWinnerCount(id),
        key != DataKey::EventUnclaimedPrizes(id),
        key != DataKey::EventPrizeBaseEscrow(id),
        key != DataKey::EventPrizeClaimExpiry(id),
        key != DataKey::OpSeen(manager, op_id),
        forall|i: int|
            0 <= i < winners@.len() ==> key != DataKey::EventPrizeAward(
                id,
                (#[trigger] winners@[i]).position,
            ),
        key is EventWinnerAt && key->EventWinnerAt_0 == id ==> !(winner_count_in(
            old(env)@.store,
            id,
        ) <= key->EventWinnerAt_1 < winner_count_in(old(env)@.store, id) + winners@.len()),
    ensures
        entry_in(final(env)@.store, key) == entry_in(old(env)@.store, key),
{
    let s = old(env)@.store;
    lemma_awarding_spares(
        base_recorded(s, id),
        id,
        winners@,
        event.winner_distribution@,
        prize_base(s, id),
        winners@.len() as int,
        key,
    );
}

/// Every winner gets a row behind those that there were.
proof fn lemma_listed(s: Store, id: u64, winners: Seq<WinnerSpec>, n: int, i: int)
    requires
        0 <= i < n <= winners.len(),
        winner_count_in(s, id) + n <= u32::MAX,
    ensures
        ({
            let after = rows_added(s, id, winners, n);
            &&& winner_count_in(after, id) == winner_count_in(s, id) + n
            &&& winner_in(after, id, (winner_count_in(s, id) + i) as u32) == Some(
                Winner {
                    recipient: winners[i].recipient,
                    position: winners[i].position,
                    amount: 0,
                    milestone: None,
                    paid_at: None,
                },
            )
        }),
    decreases n,
{
    if i < n - 1 {
        lemma_listed(s, id, winners, n - 1, i);
    } else if n > 1 {
        lemma_listed(s, id, winners, n - 1, 0);
    } else {
        assert(rows_added(s, id, winners, 0) == s);
    }
}

/// Listing winners writes only rows behind the others and their count.
proof fn lemma_listing_spares(s: Store, id: u64, winners: Seq<WinnerSpec>, n: int, key: DataKey)
    requires
        0 <= n <= winners.len(),
        winner_count_in(s, id) + n <= u32::MAX,
        key != DataKey::EventWinnerCount(id),
        key is EventWinnerAt && key->EventWinnerAt_0 == id ==> !(winner_count_in(s, id)
            <= key->EventWinnerAt_1 < winner_count_in(s, id) + n),
    ensures
        entry_in(rows_added(s, id, winners, n), key) == entry_in(s, key),
        winner_count_in(rows_added(s, id, winners, n), id) == winner_count_in(s, id) + n,
    decreases n,
{
    if n > 0 {
        lemma_listing_spares(s, id, winners, n - 1, key);
    }
}

/// Where prizes are paid in milestones, every winner gets a row behind those that there
/// were, in the order of the selection, with nothing to the winner's name; the rows are
/// counted, and nothing else is written but that the operation is done. The manager was
/// asked, the number of winners is announced, and not a token moves.
pub proof fn law_milestone_winners_are_listed(
    env: &mut Env,
    id: u64,
    winners: &Vec<WinnerSpec>,
    op_id: Bytes32,
    r: Result<(), Error>,
    event: EventRecord,
    manager: Address,
    i: int,
    key: DataKey,
)
    requires
        call_ensures(select_winners, (env, id, winners, op_id), r),
        r is Ok,
        event_in(old(env)@.store, id) == Some(event),
        event.release_kind != ReleaseKind::Single,
        address_in(old(env)@.store, DataKey::EventManager(id)) == Some(manager) || address_in(
            old(env)@.store,
            DataKey::EventManager(id),
        ) is None && manager == event.owner,
        winner_count_in(old(env)@.store, id) + winners@.len() <= u32::MAX,
        0 <= i < winners@.len(),
        key != DataKey::EventWinnerCount(id),
        key != DataKey::OpSeen(manager, op_id),
        key is EventWinnerAt && key->EventWinnerAt_0 == id ==> !(winner_count_in(
            old(env)@.store,
            id,
        ) <= key->EventWinnerAt_1 < winner_count_in(old(env)@.store, id) + winners@.len()),
    ensures
        ({
            let s = old(env)@.store;
            let after = final(env)@.store;
            let count = winner_count_in(s, id);
            &&& winner_in(after, id, (count + i) as u32) == Some(
                Winner {
                    recipient: winners@[i].recipient,
                    position: winners@[i].position,
                    amount: 0,
                    milestone: None,
                    paid_at: None,
                },
            )
            &&& entry_in(after, DataKey::EventWinnerCount(id)) == Some(
                Entry::Count((count + winners@.len()) as u32),
            )
            &&& entry_in(after, DataKey::OpSeen(manager, op_id)) == Some(Entry::Flag(true))
            &&& entry_in(after, key) == entry_in(s, key)
        }),
        final(env)@ == (EnvView {
            store: final(env)@.store,
            auths: old(env)@.auths.push(manager),
            effects: old(env)@.effects.push(
                Effect::Publish(
                    Event::WinnersSelected { event_id: id, count: winners@.len() as u32 },
                ),
            ),
            ..old(env)@
        }),
{
    let n = winners@.len() as int;
    lemma_listed(old(env)@.store, id, winners@, n, i);
    lemma_listing_spares(old(env)@.store, id, winners@, n, key);
}

} // verus!
