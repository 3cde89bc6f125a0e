//! What winners can count on.
use crate::env::EnvView;
use crate::errors::Error;
use crate::event_ops::cancel::start_cancel_denial;
use crate::event_ops::funds::funds_added;
use crate::event_ops::winners::{
    anchor_in, bad_prize, base_recorded, claim_denial, claim_refusal, lemma_awarding_keeps,
    prize_base, prize_claimed, prize_of, select_denial, select_refusal, selected,
    winners_recorded,
};
use crate::event_ops::PRIZE_CLAIM_WINDOW_SECS;
use crate::idempotency::seen_in;
use crate::laws::prizes::{
    is_awarded_to, is_paid, is_waiting, law_selection_keeps_prizes_sound, lemma_prize_is_part,
    paid_positions, prizes_are_sound,
};
use crate::storage::{
    award_in, base_escrow_in, cancellation_in, claim_expiry_in, event_in, unclaimed_in,
    winner_count_in,
};
use crate::types::{Address, Bytes32, DataKey, EventStatus, ReleaseKind, WinnerSpec};
use vstd::prelude::*;

verus! {

/// Whether an event pays prizes: it is running, and it pays each in one piece.
pub open spec fn pays_prizes(env: EnvView, id: u64) -> bool {
    &&& !env.settings.paused
    &&& event_in(env.store, id) matches Some(event) && event.status == EventStatus::Active
        && event.release_kind == ReleaseKind::Single
}

/// A prize that waits can be claimed, and it is its position's part of the escrow that
/// was there when the first winners were selected.
pub proof fn law_waiting_prize_can_be_claimed(
    env: EnvView,
    id: u64,
    position: u32,
    op_id: Bytes32,
)
    requires
        prizes_are_sound(env.store, id),
        pays_prizes(env, id),
        is_waiting(env.store, id, position),
        !seen_in(env.store, award_in(env.store, id, position).unwrap().recipient, op_id),
    ensures
        claim_denial(env, id, position) is None,
        claim_refusal(env, id, position, op_id) is None,
        anchor_in(env.store, id, position).unwrap().amount == prize_of(
            base_escrow_in(env.store, id).unwrap(),
            event_in(env.store, id).unwrap().winner_distribution@,
            position,
        ),
{
    let s = env.store;
    let base = base_escrow_in(s, id).unwrap();
    assert(award_in(s, id, position) is Some);
    assert(base_escrow_in(s, id) is Some);
    lemma_prize_is_part(
        event_in(s, id).unwrap().winner_distribution@,
        base,
        paid_positions(s, id),
        position,
    );
}

/// Every winner of a selection can claim the prize of the winner's position, as long as
/// the event runs.
pub proof fn law_selected_winner_can_claim(
    env: EnvView,
    id: u64,
    winners: Seq<WinnerSpec>,
    op_id: Bytes32,
    i: int,
    claim_op: Bytes32,
)
    requires
        prizes_are_sound(env.store, id),
        pays_prizes(env, id),
        select_denial(env, id) is None,
        select_refusal(env, id, winners, op_id) is None,
        winner_count_in(env.store, id) + winners.len() <= u32::MAX,
        0 <= i < winners.len(),
        !seen_in(
            winners_recorded(env, id, winners, op_id).store,
            winners[i].recipient,
            claim_op,
        ),
    ensures
        ({
            let after = winners_recorded(env, id, winners, op_id);
            let position = winners[i].position;
            &&& claim_denial(after, id, position) is None
            &&& claim_refusal(after, id, position, claim_op) is None
            &&& award_in(after.store, id, position).unwrap().recipient == winners[i].recipient
            &&& anchor_in(after.store, id, position).unwrap().amount == prize_of(
                prize_base(env.store, id),
                event_in(env.store, id).unwrap().winner_distribution@,
                position,
            )
        }),
{
    let after = winners_recorded(env, id, winners, op_id);
    law_selection_keeps_prizes_sound(env, id, winners, op_id);
    law_base_is_fixed(env, id, winners, op_id);
    assert(is_awarded_to(after.store, id, winners[i]));
    law_waiting_prize_can_be_claimed(after, id, winners[i].position, claim_op);
}

/// A prize that has been claimed cannot be claimed again, by whatever operation.
pub proof fn law_prize_is_claimed_once(
    env: EnvView,
    id: u64,
    position: u32,
    op_id: Bytes32,
    next_op: Bytes32,
)
    requires
        claim_denial(env, id, position) is None,
        claim_refusal(env, id, position, op_id) is None,
    ensures
        ({
            let after = prize_claimed(env, id, position, op_id);
            ||| claim_denial(after, id, position) == Some(Error::EventNotActive)
            ||| claim_refusal(after, id, position, next_op) == Some(Error::DuplicateOperation)
            ||| claim_refusal(after, id, position, next_op) == Some(Error::PrizeAlreadyClaimed)
        }),
{
}

/// A prize that has been paid stays paid: a later claim is one for another position, and
/// leaves it paid.
pub proof fn law_paid_prize_stays_paid(
    env: EnvView,
    id: u64,
    paid: u32,
    position: u32,
    op_id: Bytes32,
)
    requires
        prizes_are_sound(env.store, id),
        is_paid(env.store, id, paid),
        claim_denial(env, id, position) is None,
        claim_refusal(env, id, position, op_id) is None,
    ensures
        position != paid,
        is_paid(prize_claimed(env, id, position, op_id).store, id, paid),
{
    let s = env.store;
    let after = prize_claimed(env, id, position, op_id).store;
    assert(award_in(s, id, paid) is Some);
    assert(award_in(s, id, position) is Some);
    let anchor = award_in(s, id, paid).unwrap().anchor_idx;
    let other = award_in(s, id, position).unwrap().anchor_idx;
    assert(anchor != other);
    assert(award_in(after, id, paid) == award_in(s, id, paid));
    assert(anchor_in(after, id, paid) == anchor_in(s, id, paid));
}

/// A claim completes the event if and only if it takes the last of the escrow.
pub proof fn law_last_payment_completes(env: EnvView, id: u64, position: u32, op_id: Bytes32)
    requires
        claim_denial(env, id, position) is None,
        claim_refusal(env, id, position, op_id) is None,
    ensures
        event_in(prize_claimed(env, id, position, op_id).store, id) matches Some(event) && (
        event.status == EventStatus::Completed <==> event.remaining_escrow == 0)
            && event.remaining_escrow == event_in(env.store, id).unwrap().remaining_escrow
            - anchor_in(env.store, id, position).unwrap().amount,
{
}

/// A position that has been awarded is not awarded again.
pub proof fn law_position_is_awarded_once(
    env: EnvView,
    id: u64,
    winners: Seq<WinnerSpec>,
    op_id: Bytes32,
    i: int,
)
    requires
        event_in(env.store, id).unwrap().release_kind == ReleaseKind::Single,
        0 <= i < winners.len(),
        award_in(env.store, id, winners[i].position) is Some,
    ensures
        select_refusal(env, id, winners, op_id) is Some,
{
    lemma_award_is_bad(
        env,
        id,
        winners,
        prize_base(env.store, id),
        i,
        winners.len() as int,
    );
}

proof fn lemma_award_is_bad(
    env: EnvView,
    id: u64,
    winners: Seq<WinnerSpec>,
    base: i128,
    i: int,
    n: int,
)
    requires
        0 <= i < n,
        award_in(env.store, id, winners[i].position) is Some,
    ensures
        bad_prize(
            env.store,
            id,
            winners,
            event_in(env.store, id).unwrap().winner_distribution@,
            base,
            n,
        ) is Some,
    decreases n,
{
    if i < n - 1 {
        lemma_award_is_bad(env, id, winners, base, i, n - 1);
    }
}

/// The escrow that prizes are a part of is fixed by the first selection: later selections
/// keep it.
pub proof fn law_base_is_fixed(
    env: EnvView,
    id: u64,
    winners: Seq<WinnerSpec>,
    op_id: Bytes32,
)
    requires
        pays_prizes(env, id),
    ensures
        base_escrow_in(winners_recorded(env, id, winners, op_id).store, id) == Some(
            prize_base(env.store, id),
        ),
        prize_base(winners_recorded(env, id, winners, op_id).store, id) == prize_base(
            env.store,
            id,
        ),
{
    let s = env.store;
    let n = winners.len() as int;
    let distribution = event_in(s, id).unwrap().winner_distribution@;
    lemma_awarding_keeps(
        base_recorded(s, id),
        id,
        winners,
        distribution,
        prize_base(s, id),
        n,
        DataKey::EventPrizeBaseEscrow(id),
    );
    let chosen = selected(s, id, winners, env.timestamp);
    assert(base_escrow_in(chosen, id) == Some(prize_base(s, id)));
}

/// Once it is fixed, neither claims nor contributions move the escrow that prizes are a
/// part of.
pub proof fn law_base_outlasts_payments(
    env: EnvView,
    id: u64,
    position: u32,
    from: Address,
    amount: i128,
    op_id: Bytes32,
)
    ensures
        base_escrow_in(prize_claimed(env, id, position, op_id).store, id) == base_escrow_in(
            env.store,
            id,
        ),
        base_escrow_in(funds_added(env, id, from, amount, op_id).store, id) == base_escrow_in(
            env.store,
            id,
        ),
{
}

/// After a selection its winners have the whole window to claim, and the winners of
/// earlier selections lose nothing of theirs.
pub proof fn law_winners_have_the_whole_window(
    env: EnvView,
    id: u64,
    winners: Seq<WinnerSpec>,
    op_id: Bytes32,
)
    requires
        pays_prizes(env, id),
    ensures
        claim_expiry_in(winners_recorded(env, id, winners, op_id).store, id) matches Some(expiry)
            && expiry >= env.timestamp.saturating_add(PRIZE_CLAIM_WINDOW_SECS) && (
        claim_expiry_in(env.store, id) matches Some(earlier) ==> expiry >= earlier),
{
    let s = env.store;
    let n = winners.len() as int;
    lemma_awarding_keeps(
        base_recorded(s, id),
        id,
        winners,
        event_in(s, id).unwrap().winner_distribution@,
        prize_base(s, id),
        n,
        DataKey::EventPrizeClaimExpiry(id),
    );
    let chosen = selected(s, id, winners, env.timestamp);
    let after = winners_recorded(env, id, winners, op_id).store;
    assert(claim_expiry_in(after, id) == claim_expiry_in(chosen, id));
}

/// While prizes wait and the window is open the event cannot be cancelled; once it has
/// closed, unclaimed prizes no longer stand in the way.
pub proof fn law_waiting_prizes_hold_off_cancellation(env: EnvView, id: u64)
    requires
        pays_prizes(env, id),
        cancellation_in(env.store, id) is None,
        unclaimed_in(env.store, id) > 0,
        claim_expiry_in(env.store, id) is Some,
    ensures
        env.timestamp <= claim_expiry_in(env.store, id).unwrap() ==> start_cancel_denial(env, id)
            == Some(Error::WinnersAlreadySelected),
        env.timestamp > claim_expiry_in(env.store, id).unwrap() ==> start_cancel_denial(env, id)
            is None,
{
}

} // verus!
