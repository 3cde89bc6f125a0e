//! What holds of an event after any sequence of calls.
use crate::env::{EnvView, Settings};
use crate::errors::Error;
use crate::event_ops::cancel::{
    batch_end, batch_processed, cancel_finalized, cancel_started, cancel_step_refusal,
    finalize_cancel_refusal, refunded_between, start_cancel_denial, start_cancel_refusal,
};
use crate::event_ops::create::{create_refusal, event_created};
use crate::event_ops::funds::{add_funds_denial, add_funds_refusal, funds_added};
use crate::event_ops::manager::{
    accept_manager_refusal, manager_accepted, manager_of_event, no_event,
    pending_manager_cancelled, proposal_voided, proposed,
};
use crate::event_ops::submissions::{
    submissions_closed, submit_denial, submit_refusal, submitted, withdraw_refusal, withdrawn,
};
use crate::event_ops::winners::{
    claim_denial, claim_refusal, prize_claimed, select_denial, select_refusal, selected,
    winners_recorded,
};
use crate::host::{ascending, Text};
use crate::idempotency::next_id_in;
use crate::laws::books::{
    contributors_are_in_order, law_contribution_keeps_contributors_in_order,
    law_contributors_start_in_order, lemma_same_contributors_are_in_order, same_books,
};
use crate::laws::frame::{
    law_batch_stays_within_event, law_cancel_end_stays_within_event,
    law_cancel_start_stays_within_event, law_claim_stays_within_event,
    law_create_touches_no_other_event, law_funds_stay_within_event,
    law_rotation_stays_within_event, law_select_stays_within_event, law_submit_stays_within_event,
    law_withdraw_stays_within_event, lemma_refunds_keep, lemma_selection_keeps,
};
use crate::laws::numbers::{
    law_new_event_gets_fresh_number, law_numbers_stay_fresh, numbers_are_fresh,
};
use crate::laws::prizes::{
    law_escrow_covers_selection, lemma_same_prizes_are_sound, prizes_are_sound, same_prizes,
};
use crate::laws::rows::{
    law_claim_keeps_winners_in_order, law_escrow_covers_claim, law_escrow_covers_unpaid_rows,
    law_selection_keeps_winners_in_order, law_winners_start_in_order,
    lemma_same_winners_are_in_order, unpaid_amounts, winners_are_in_order,
};
use crate::storage::{
    award_in, cancellation_in, contribution_in, entry_in, event_in, non_owner_total_in,
    pending_manager_in, winner_count_in, Store,
};
use crate::types::{
    event_of, Address, Bytes32, CreateEventParams, DataKey, EventRecord, EventStatus, Pillar,
    ReleaseKind, WinnerSpec,
};
use vstd::prelude::*;

verus! {

/// An operation, with its arguments.
pub enum Step {
    CreateEvent { params: CreateEventParams, op_id: Bytes32, pillar_verdict: Result<(), Error> },
    ProposeManager { id: u64, target: Address },
    AcceptManager { id: u64 },
    CancelPendingManager { id: u64 },
    AddFunds { id: u64, from: Address, amount: i128, op_id: Bytes32 },
    StartCancel { id: u64, op_id: Bytes32 },
    ProcessCancelBatch { id: u64, max_refunds: u32, op_id: Bytes32 },
    FinalizeCancel { id: u64, op_id: Bytes32 },
    Submit { id: u64, applicant: Address, content_uri: Text, op_id: Bytes32 },
    WithdrawSubmission { id: u64, applicant: Address, op_id: Bytes32 },
    SelectWinners { id: u64, winners: Seq<WinnerSpec>, op_id: Bytes32 },
    ClaimPrize { id: u64, position: u32, op_id: Bytes32 },
}

/// The operation and what the ledger's clock and the contract's configuration are when it
/// is called.
pub struct Call {
    pub timestamp: u64,
    pub sequence: u32,
    pub settings: Settings,
    pub step: Step,
}

/// The environment after an operation, refused or not.
pub open spec fn stepped(env: EnvView, step: Step) -> EnvView {
    match step {
        Step::CreateEvent { params, op_id, pillar_verdict } => if env.settings.paused {
            env
        } else if create_refusal(env, params, op_id, pillar_verdict) is Some {
            env.authorized_by(params.owner)
        } else {
            event_created(env, params, op_id)
        },
        Step::ProposeManager { id, target } => if no_event(env, id) is Some {
            env
        } else {
            proposed(
                proposal_voided(env.authorized_by(manager_of_event(env.store, id)), id),
                id,
                target,
            )
        },
        Step::AcceptManager { id } => if accept_manager_refusal(env, id) is Some {
            env
        } else {
            manager_accepted(env, id)
        },
        Step::CancelPendingManager { id } => if no_event(env, id) is Some {
            env
        } else if pending_manager_in(env.store, id) is None {
            env.authorized_by(manager_of_event(env.store, id))
        } else {
            pending_manager_cancelled(env.authorized_by(manager_of_event(env.store, id)), id)
        },
        Step::AddFunds { id, from, amount, op_id } => if add_funds_denial(env, id, amount)
            is Some {
            env
        } else if add_funds_refusal(env, id, from, op_id) is Some {
            env.authorized_by(from)
        } else {
            funds_added(env, id, from, amount, op_id)
        },
        Step::StartCancel { id, op_id } => if start_cancel_denial(env, id) is Some {
            env
        } else if start_cancel_refusal(env, id, op_id) is Some {
            env.authorized_by(manager_of_event(env.store, id))
        } else {
            cancel_started(env, id, op_id)
        },
        Step::ProcessCancelBatch { id, max_refunds, op_id } => if cancel_step_refusal(
            env,
            id,
            op_id,
        ) is Some {
            env
        } else {
            batch_processed(env, id, max_refunds, op_id)
        },
        Step::FinalizeCancel { id, op_id } => if finalize_cancel_refusal(env, id, op_id) is Some {
            env
        } else {
            cancel_finalized(env, id, op_id)
        },
        Step::Submit { id, applicant, content_uri, op_id } => if submit_denial(env, id) is Some {
            env
        } else if submit_refusal(env, id, applicant, content_uri, op_id) is Some {
            env.authorized_by(applicant)
        } else {
            submitted(env, id, applicant, content_uri, op_id)
        },
        Step::WithdrawSubmission { id, applicant, op_id } => if submissions_closed(env, id)
            is Some {
            env
        } else if withdraw_refusal(env, id, applicant, op_id) is Some {
            env.authorized_by(applicant)
        } else {
            withdrawn(env, id, applicant, op_id)
        },
        Step::SelectWinners { id, winners, op_id } => if select_denial(env, id) is Some {
            env
        } else if select_refusal(env, id, winners, op_id) is Some {
            env.authorized_by(manager_of_event(env.store, id))
        } else {
            winners_recorded(env, id, winners, op_id)
        },
        Step::ClaimPrize { id, position, op_id } => if claim_denial(env, id, position) is Some {
            env
        } else if claim_refusal(env, id, position, op_id) is Some {
            env.authorized_by(award_in(env.store, id, position).unwrap().recipient)
        } else {
            prize_claimed(env, id, position, op_id)
        },
    }
}

/// The environment that a call finds.
pub open spec fn found_by(env: EnvView, call: Call) -> EnvView {
    EnvView {
        timestamp: call.timestamp,
        sequence: call.sequence,
        settings: call.settings,
        ..env
    }
}

/// The environment after some calls, one after the other.
pub open spec fn after_calls(env: EnvView, calls: Seq<Call>) -> EnvView
    decreases calls.len(),
{
    if calls.len() == 0 {
        env
    } else {
        stepped(
            found_by(after_calls(env, calls.drop_last()), calls.last()),
            calls.last().step,
        )
    }
}

/// The event that an operation is called on, unless it creates one.
pub open spec fn event_of_step(step: Step) -> Option<u64> {
    match step {
        Step::CreateEvent { .. } => None,
        Step::ProposeManager { id, .. } => Some(id),
        Step::AcceptManager { id } => Some(id),
        Step::CancelPendingManager { id } => Some(id),
        Step::AddFunds { id, .. } => Some(id),
        Step::StartCancel { id, .. } => Some(id),
        Step::ProcessCancelBatch { id, .. } => Some(id),
        Step::FinalizeCancel { id, .. } => Some(id),
        Step::Submit { id, .. } => Some(id),
        Step::WithdrawSubmission { id, .. } => Some(id),
        Step::SelectWinners { id, .. } => Some(id),
        Step::ClaimPrize { id, .. } => Some(id),
    }
}

/// What no operation changes about an event.
pub open spec fn same_terms(a: EventRecord, b: EventRecord) -> bool {
    &&& b.id == a.id
    &&& b.pillar == a.pillar
    &&& b.owner == a.owner
    &&& b.token == a.token
    &&& b.total_budget == a.total_budget
    &&& b.release_kind == a.release_kind
    &&& b.content_uri == a.content_uri
    &&& b.title == a.title
    &&& b.created_at == a.created_at
    &&& b.deadline == a.deadline
    &&& b.winner_distribution == a.winner_distribution
    &&& b.fee_bps_override == a.fee_bps_override
}

/// An operation on another event, or one that creates an event, leaves every entry of an
/// event alone.
proof fn lemma_step_elsewhere(env: EnvView, step: Step, id: u64)
    requires
        id < next_id_in(env.store),
        event_of_step(step) != Some(id),
    ensures
        forall|key: DataKey|
            event_of(key) == Some(id) ==> #[trigger] entry_in(stepped(env, step).store, key)
                == entry_in(env.store, key),
        id < next_id_in(stepped(env, step).store),
{
    let next = DataKey::NextEventId;
    match step {
        Step::CreateEvent { params, op_id, pillar_verdict } => {
            assert forall|key: DataKey| event_of(key) == Some(id) implies #[trigger] entry_in(
                stepped(env, step).store,
                key,
            ) == entry_in(env.store, key) by {
                law_create_touches_no_other_event(env, params, op_id, key);
            }
        },
        Step::ProposeManager { id: other, target } => {
            let asked = env.authorized_by(manager_of_event(env.store, other));
            law_rotation_stays_within_event(asked, other, target);
        },
        Step::AcceptManager { id: other } => {
            law_rotation_stays_within_event(env, other, env.contract);
        },
        Step::CancelPendingManager { id: other } => {
            let asked = env.authorized_by(manager_of_event(env.store, other));
            law_rotation_stays_within_event(asked, other, env.contract);
        },
        Step::AddFunds { id: other, from, amount, op_id } => {
            law_funds_stay_within_event(env, other, from, amount, op_id);
        },
        Step::StartCancel { id: other, op_id } => {
            law_cancel_start_stays_within_event(env, other, op_id);
        },
        Step::ProcessCancelBatch { id: other, max_refunds, op_id } => {
            law_batch_stays_within_event(env, other, max_refunds, op_id);
        },
        Step::FinalizeCancel { id: other, op_id } => {
            law_cancel_end_stays_within_event(env, other, op_id);
        },
        Step::Submit { id: other, applicant, content_uri, op_id } => {
            law_submit_stays_within_event(env, other, applicant, content_uri, op_id);
        },
        Step::WithdrawSubmission { id: other, applicant, op_id } => {
            law_withdraw_stays_within_event(env, other, applicant, op_id);
        },
        Step::SelectWinners { id: other, winners, op_id } => {
            law_select_stays_within_event(env, other, winners, op_id);
        },
        Step::ClaimPrize { id: other, position, op_id } => {
            law_claim_stays_within_event(env, other, position, op_id);
        },
    }
    if !(step is CreateEvent) {
        assert(entry_in(stepped(env, step).store, next) == entry_in(env.store, next));
    }
}

/// A batch touches nothing but what contributors have paid in, how far the refunds have
/// got, and the record of the operation.
proof fn lemma_batch_keeps(
    env: EnvView,
    id: u64,
    max_refunds: u32,
    op_id: Bytes32,
    key: DataKey,
)
    requires
        !(key is ContributorAmount),
        !(key is CancellationState),
        !(key is OpSeen),
    ensures
        entry_in(batch_processed(env, id, max_refunds, op_id).store, key) == entry_in(
            env.store,
            key,
        ),
{
    let state = cancellation_in(env.store, id).unwrap();
    let token = event_in(env.store, id).unwrap().token;
    let end = batch_end(state, max_refunds) as int;
    let refunded = refunded_between(env, id, token, state, state.next_idx as int, end).store;
    lemma_refunds_keep(env, id, token, state, state.next_idx as int, end, key);
    assert(entry_in(batch_processed(env, id, max_refunds, op_id).store, key) == entry_in(
        refunded,
        key,
    ));
}

/// A selection touches nothing but winners, awards and the terms on which prizes are
/// claimed, and the record of the operation.
proof fn lemma_select_keeps(
    env: EnvView,
    id: u64,
    winners: Seq<WinnerSpec>,
    op_id: Bytes32,
    key: DataKey,
)
    requires
        event_in(env.store, id) is Some,
        !(key is EventWinnerAt),
        !(key is EventWinnerCount),
        !(key is EventPrizeAward),
        !(key is EventPrizeBaseEscrow),
        !(key is EventUnclaimedPrizes),
        !(key is EventPrizeClaimExpiry),
        !(key is OpSeen),
    ensures
        entry_in(winners_recorded(env, id, winners, op_id).store, key) == entry_in(env.store, key),
{
    lemma_selection_keeps(env.store, id, winners, env.timestamp, key);
    let chosen = selected(env.store, id, winners, env.timestamp);
    assert(entry_in(winners_recorded(env, id, winners, op_id).store, key) == entry_in(
        chosen,
        key,
    ));
}

/// No operation removes an event, changes its terms or makes it active again.
#[verifier::rlimit(50)]
pub proof fn law_terms_are_kept(env: EnvView, step: Step, id: u64)
    requires
        id < next_id_in(env.store),
        event_in(env.store, id) is Some,
    ensures
        id < next_id_in(stepped(env, step).store),
        event_in(stepped(env, step).store, id) matches Some(event) && same_terms(
            event_in(env.store, id).unwrap(),
            event,
        ) && (event.status == EventStatus::Active ==> event_in(env.store, id).unwrap().status
            == EventStatus::Active),
{
    let after = stepped(env, step).store;
    let key = DataKey::Event(id);
    let next = DataKey::NextEventId;
    if event_of_step(step) != Some(id) {
        lemma_step_elsewhere(env, step, id);
        assert(entry_in(after, key) == entry_in(env.store, key));
    } else {
        match step {
            Step::ProcessCancelBatch { id: _, max_refunds, op_id } => {
                lemma_batch_keeps(env, id, max_refunds, op_id, key);
                lemma_batch_keeps(env, id, max_refunds, op_id, next);
            },
            Step::SelectWinners { id: _, winners, op_id } => {
                lemma_select_keeps(env, id, winners, op_id, key);
                lemma_select_keeps(env, id, winners, op_id, next);
            },
            Step::ProposeManager { .. } => {
                assert(entry_in(after, key) == entry_in(env.store, key));
            },
            Step::AcceptManager { .. } => {
                assert(entry_in(after, key) == entry_in(env.store, key));
            },
            Step::CancelPendingManager { .. } => {
                assert(entry_in(after, key) == entry_in(env.store, key));
            },
            Step::Submit { .. } => {
                assert(entry_in(after, key) == entry_in(env.store, key));
            },
            Step::WithdrawSubmission { .. } => {
                assert(entry_in(after, key) == entry_in(env.store, key));
            },
            Step::AddFunds { .. } => {
                assert(event_in(after, id) is Some);
            },
            Step::StartCancel { .. } => {
                assert(event_in(after, id) is Some);
            },
            Step::FinalizeCancel { .. } => {
                assert(event_in(after, id) is Some);
            },
            Step::ClaimPrize { .. } => {
                assert(event_in(after, id) is Some);
            },
            Step::CreateEvent { .. } => {},
        }
        assert(entry_in(after, next) == entry_in(env.store, next));
    }
}

/// Whatever operation is called, nothing comes to stand under the numbers that have not
/// been handed out.
pub proof fn law_every_step_keeps_numbers_fresh(env: EnvView, step: Step)
    requires
        numbers_are_fresh(env.store),
    ensures
        numbers_are_fresh(stepped(env, step).store),
        next_id_in(env.store) <= next_id_in(stepped(env, step).store),
{
    let s = env.store;
    let after = stepped(env, step).store;
    let unused = Bytes32 { high: 0, low: 0 };
    if after != s {
        match step {
            Step::CreateEvent { params, op_id, pillar_verdict } => {
                law_new_event_gets_fresh_number(env, params, op_id, pillar_verdict);
            },
            Step::ProposeManager { id, target } => {
                let asked = env.authorized_by(manager_of_event(s, id));
                law_rotation_stays_within_event(asked, id, target);
                law_numbers_stay_fresh(s, after, id, env.contract, unused);
            },
            Step::AcceptManager { id } => {
                law_rotation_stays_within_event(env, id, env.contract);
                law_numbers_stay_fresh(s, after, id, env.contract, unused);
            },
            Step::CancelPendingManager { id } => {
                let asked = env.authorized_by(manager_of_event(s, id));
                law_rotation_stays_within_event(asked, id, env.contract);
                law_numbers_stay_fresh(s, after, id, env.contract, unused);
            },
            Step::AddFunds { id, from, amount, op_id } => {
                law_funds_stay_within_event(env, id, from, amount, op_id);
                law_numbers_stay_fresh(s, after, id, from, op_id);
            },
            Step::StartCancel { id, op_id } => {
                law_cancel_start_stays_within_event(env, id, op_id);
                law_numbers_stay_fresh(s, after, id, manager_of_event(s, id), op_id);
            },
            Step::ProcessCancelBatch { id, max_refunds, op_id } => {
                law_batch_stays_within_event(env, id, max_refunds, op_id);
                law_numbers_stay_fresh(s, after, id, env.contract, op_id);
            },
            Step::FinalizeCancel { id, op_id } => {
                law_cancel_end_stays_within_event(env, id, op_id);
                law_numbers_stay_fresh(s, after, id, env.contract, op_id);
            },
            Step::Submit { id, applicant, content_uri, op_id } => {
                law_submit_stays_within_event(env, id, applicant, content_uri, op_id);
                law_numbers_stay_fresh(s, after, id, applicant, op_id);
            },
            Step::WithdrawSubmission { id, applicant, op_id } => {
                law_withdraw_stays_within_event(env, id, applicant, op_id);
                law_numbers_stay_fresh(s, after, id, applicant, op_id);
            },
            Step::SelectWinners { id, winners, op_id } => {
                law_select_stays_within_event(env, id, winners, op_id);
                law_numbers_stay_fresh(s, after, id, manager_of_event(s, id), op_id);
            },
            Step::ClaimPrize { id, position, op_id } => {
                law_claim_stays_within_event(env, id, position, op_id);
                let winner = award_in(s, id, position).unwrap().recipient;
                law_numbers_stay_fresh(s, after, id, winner, op_id);
            },
        }
    }
}

/// Nothing ever comes to stand under the numbers that have not been handed out.
pub proof fn law_numbers_stay_fresh_ever_after(start: EnvView, calls: Seq<Call>)
    requires
        numbers_are_fresh(start.store),
    ensures
        numbers_are_fresh(after_calls(start, calls).store),
        next_id_in(start.store) <= next_id_in(after_calls(start, calls).store),
    decreases calls.len(),
{
    if calls.len() > 0 {
        let before = calls.drop_last();
        law_numbers_stay_fresh_ever_after(start, before);
        law_every_step_keeps_numbers_fresh(
            found_by(after_calls(start, before), calls.last()),
            calls.last().step,
        );
    }
}

/// A ledger without events has fresh numbers.
pub proof fn law_numbers_start_fresh(s: Store)
    requires
        forall|key: DataKey| #[trigger] event_of(key) is Some ==> entry_in(s, key) is None,
    ensures
        numbers_are_fresh(s),
{
}

/// No operation brings an escrow below zero.
#[verifier::rlimit(50)]
proof fn lemma_step_overdraws_nothing(env: EnvView, step: Step, id: u64)
    requires
        id < next_id_in(env.store),
        event_in(env.store, id) matches Some(event) && event.remaining_escrow >= 0,
    ensures
        event_in(stepped(env, step).store, id) matches Some(event) && event.remaining_escrow >= 0,
{
    let after = stepped(env, step).store;
    let key = DataKey::Event(id);
    law_terms_are_kept(env, step, id);
    if event_of_step(step) != Some(id) {
        lemma_step_elsewhere(env, step, id);
        assert(entry_in(after, key) == entry_in(env.store, key));
    } else {
        match step {
            Step::ProcessCancelBatch { id: _, max_refunds, op_id } => {
                lemma_batch_keeps(env, id, max_refunds, op_id, key);
            },
            Step::SelectWinners { id: _, winners, op_id } => {
                lemma_select_keeps(env, id, winners, op_id, key);
            },
            Step::AddFunds { .. } => {
                assert(event_in(after, id) is Some);
            },
            Step::StartCancel { .. } => {
                assert(event_in(after, id) is Some);
            },
            Step::FinalizeCancel { .. } => {
                assert(event_in(after, id) is Some);
            },
            Step::ClaimPrize { .. } => {
                assert(event_in(after, id) is Some);
            },
            _ => {
                assert(entry_in(after, key) == entry_in(env.store, key));
            },
        }
    }
}

/// Whatever an event pays for and whatever calls follow, its escrow is never negative.
pub proof fn law_escrow_is_never_negative(start: EnvView, calls: Seq<Call>, id: u64)
    requires
        id < next_id_in(start.store),
        event_in(start.store, id) matches Some(event) && event.remaining_escrow >= 0,
    ensures
        id < next_id_in(after_calls(start, calls).store),
        event_in(after_calls(start, calls).store, id) matches Some(event) && event.remaining_escrow
            >= 0,
    decreases calls.len(),
{
    if calls.len() > 0 {
        let before = calls.drop_last();
        law_escrow_is_never_negative(start, before, id);
        let found = found_by(after_calls(start, before), calls.last());
        law_terms_are_kept(found, calls.last().step, id);
        lemma_step_overdraws_nothing(found, calls.last().step, id);
    }
}

/// Whether an operation selects winners of an event or claims a prize of it.
pub open spec fn is_on_prizes(step: Step, id: u64) -> bool {
    event_of_step(step) == Some(id) && (step is SelectWinners || step is ClaimPrize)
}

/// Every other operation leaves the prizes of an event alone, and so does every operation
/// once the event is not active.
#[verifier::rlimit(50)]
proof fn lemma_step_beside_prizes(env: EnvView, step: Step, id: u64)
    requires
        id < next_id_in(env.store),
        event_in(env.store, id) is Some,
        is_on_prizes(step, id) ==> event_in(env.store, id).unwrap().status != EventStatus::Active,
    ensures
        same_prizes(env.store, stepped(env, step).store, id),
{
    let after = stepped(env, step).store;
    if event_of_step(step) != Some(id) {
        lemma_step_elsewhere(env, step, id);
    } else {
        match step {
            Step::ProcessCancelBatch { id: _, max_refunds, op_id } => {
                assert forall|key: DataKey|
                    !(key is ContributorAmount) && !(key is CancellationState) && !(
                    key is OpSeen) implies #[trigger] entry_in(after, key) == entry_in(
                    env.store,
                    key,
                ) by {
                    lemma_batch_keeps(env, id, max_refunds, op_id, key);
                }
            },
            Step::SelectWinners { .. } => {
                assert(after == env.store);
            },
            Step::ClaimPrize { .. } => {
                assert(after == env.store);
            },
            Step::AddFunds { .. } => {
                assert(same_prizes(env.store, after, id));
            },
            Step::StartCancel { .. } => {
                assert(same_prizes(env.store, after, id));
            },
            Step::FinalizeCancel { .. } => {
                assert(same_prizes(env.store, after, id));
            },
            Step::Submit { .. } => {
                assert(same_prizes(env.store, after, id));
            },
            Step::WithdrawSubmission { .. } => {
                assert(same_prizes(env.store, after, id));
            },
            Step::ProposeManager { .. } => {
                assert(same_prizes(env.store, after, id));
            },
            Step::AcceptManager { .. } => {
                assert(same_prizes(env.store, after, id));
            },
            Step::CancelPendingManager { .. } => {
                assert(same_prizes(env.store, after, id));
            },
            Step::CreateEvent { .. } => {},
        }
    }
}

/// As long as it leaves the event active, an operation other than a claim takes nothing
/// from its escrow.
#[verifier::rlimit(50)]
proof fn lemma_step_leaves_escrow(env: EnvView, step: Step, id: u64)
    requires
        id < next_id_in(env.store),
        event_in(env.store, id) is Some,
        !is_on_prizes(step, id),
        event_in(stepped(env, step).store, id).unwrap().status == EventStatus::Active,
    ensures
        event_in(stepped(env, step).store, id).unwrap().remaining_escrow >= event_in(
            env.store,
            id,
        ).unwrap().remaining_escrow,
{
    let after = stepped(env, step).store;
    let key = DataKey::Event(id);
    if event_of_step(step) != Some(id) {
        lemma_step_elsewhere(env, step, id);
        assert(entry_in(after, key) == entry_in(env.store, key));
    } else {
        match step {
            Step::ProcessCancelBatch { id: _, max_refunds, op_id } => {
                lemma_batch_keeps(env, id, max_refunds, op_id, key);
            },
            Step::AddFunds { .. } => {
                assert(event_in(after, id) is Some);
            },
            Step::StartCancel { .. } => {
                assert(event_in(after, id) is Some);
            },
            Step::FinalizeCancel { .. } => {
                assert(event_in(after, id) is Some);
            },
            _ => {
                assert(entry_in(after, key) == entry_in(env.store, key));
            },
        }
    }
}

/// Whether an event that pays each prize in one piece has its winners in order and, while
/// it is active, an escrow that covers its prizes.
pub open spec fn prizes_hold(s: Store, id: u64) -> bool {
    &&& winners_are_in_order(s, id)
    &&& event_in(s, id).unwrap().status == EventStatus::Active ==> prizes_are_sound(s, id)
}

/// Whatever operation is called, an event that pays each prize in one piece and is no
/// crowdfunding campaign keeps its winners in order and, while it is active, an escrow that
/// covers its prizes.
pub proof fn law_every_step_keeps_prizes(env: EnvView, step: Step, id: u64)
    requires
        id < next_id_in(env.store),
        event_in(env.store, id) matches Some(event) && event.release_kind == ReleaseKind::Single
            && event.pillar != Pillar::Crowdfunding,
        prizes_hold(env.store, id),
    ensures
        prizes_hold(stepped(env, step).store, id),
{
    let s = env.store;
    let after = stepped(env, step).store;
    law_terms_are_kept(env, step, id);
    if is_on_prizes(step, id) && event_in(s, id).unwrap().status == EventStatus::Active {
        match step {
            Step::SelectWinners { id: _, winners, op_id } => {
                if select_denial(env, id) is None && select_refusal(env, id, winners, op_id)
                    is None {
                    law_selection_keeps_winners_in_order(env, id, winners, op_id);
                }
            },
            Step::ClaimPrize { id: _, position, op_id } => {
                if claim_denial(env, id, position) is None && claim_refusal(
                    env,
                    id,
                    position,
                    op_id,
                ) is None {
                    law_claim_keeps_winners_in_order(env, id, position, op_id);
                }
            },
            _ => {},
        }
    } else {
        lemma_step_beside_prizes(env, step, id);
        lemma_same_winners_are_in_order(s, after, id);
        if event_in(after, id).unwrap().status == EventStatus::Active {
            lemma_step_leaves_escrow(env, step, id);
            lemma_same_prizes_are_sound(s, after, id);
        }
    }
}

proof fn lemma_calls_keep_prizes(start: EnvView, calls: Seq<Call>, id: u64)
    requires
        id < next_id_in(start.store),
        event_in(start.store, id) matches Some(event) && event.release_kind == ReleaseKind::Single
            && event.pillar != Pillar::Crowdfunding,
        prizes_hold(start.store, id),
    ensures
        id < next_id_in(after_calls(start, calls).store),
        event_in(after_calls(start, calls).store, id) matches Some(event) && same_terms(
            event_in(start.store, id).unwrap(),
            event,
        ),
        prizes_hold(after_calls(start, calls).store, id),
    decreases calls.len(),
{
    if calls.len() > 0 {
        lemma_calls_keep_prizes(start, calls.drop_last(), id);
        let found = found_by(after_calls(start, calls.drop_last()), calls.last());
        law_terms_are_kept(found, calls.last().step, id);
        law_every_step_keeps_prizes(found, calls.last().step, id);
    }
}

/// An event that pays each prize in one piece and is no crowdfunding campaign has its
/// winners in order after any calls whatever that follow its creation. While it is active,
/// its escrow covers all prizes that have not been paid: neither a selection nor a claim is
/// ever refused for want of escrow. `later` is any environment that finds the ledger so.
pub proof fn law_prizes_hold_ever_after(
    env: EnvView,
    params: CreateEventParams,
    op_id: Bytes32,
    pillar_verdict: Result<(), Error>,
    calls: Seq<Call>,
    later: EnvView,
    winners: Seq<WinnerSpec>,
    position: u32,
    next_op: Bytes32,
)
    requires
        numbers_are_fresh(env.store),
        create_refusal(env, params, op_id, pillar_verdict) is None,
        ascending(params.winner_distribution@),
        params.release_kind == ReleaseKind::Single,
        params.pillar != Pillar::Crowdfunding,
        later.store == after_calls(event_created(env, params, op_id), calls).store,
    ensures
        ({
            let id = next_id_in(env.store);
            let event = event_in(later.store, id).unwrap();
            &&& event_in(later.store, id) is Some
            &&& winners_are_in_order(later.store, id)
            &&& event.status == EventStatus::Active ==> prizes_are_sound(later.store, id)
                && unpaid_amounts(later.store, id, winner_count_in(later.store, id) as int)
                <= event.remaining_escrow
            &&& select_denial(later, id) is None ==> select_refusal(later, id, winners, next_op)
                != Some(Error::InsufficientEscrow)
            &&& claim_denial(later, id, position) is None ==> claim_refusal(
                later,
                id,
                position,
                next_op,
            ) != Some(Error::InsufficientEscrow)
        }),
{
    let id = next_id_in(env.store);
    let start = event_created(env, params, op_id);
    law_new_event_gets_fresh_number(env, params, op_id, pillar_verdict);
    assert forall|key: DataKey| event_of(key) == Some(id) implies #[trigger] entry_in(
        env.store,
        key,
    ) is None by {}
    law_winners_start_in_order(env, params, op_id);
    lemma_calls_keep_prizes(start, calls, id);
    if event_in(later.store, id).unwrap().status == EventStatus::Active {
        law_escrow_covers_unpaid_rows(later.store, id);
        law_escrow_covers_selection(later, id, winners, next_op);
        if claim_denial(later, id, position) is None {
            law_escrow_covers_claim(later, id, position, next_op);
        }
    }
}

/// What an operation credits to `who` as a contribution to an event.
pub open spec fn credit_of(env: EnvView, step: Step, id: u64, who: Address) -> int {
    match step {
        Step::AddFunds { id: to, from, amount, op_id } => if to == id && from == who
            && add_funds_denial(env, id, amount) is None && add_funds_refusal(env, id, from, op_id)
            is None {
            amount as int
        } else {
            0
        },
        _ => 0,
    }
}

/// What an operation credits to anyone but the owner as a contribution to an event.
pub open spec fn partner_credit_of(env: EnvView, step: Step, id: u64) -> int {
    match step {
        Step::AddFunds { id: to, from, amount, op_id } => if from == event_in(
            env.store,
            id,
        ).unwrap().owner {
            0
        } else {
            credit_of(env, step, id, from)
        },
        _ => 0,
    }
}

/// What some calls have credited to `who` as contributions to an event.
pub open spec fn credits(start: EnvView, calls: Seq<Call>, id: u64, who: Address) -> int
    decreases calls.len(),
{
    if calls.len() == 0 {
        0
    } else {
        credits(start, calls.drop_last(), id, who) + credit_of(
            found_by(after_calls(start, calls.drop_last()), calls.last()),
            calls.last().step,
            id,
            who,
        )
    }
}

/// What some calls have credited to all but the owner as contributions to an event.
pub open spec fn partner_credits(start: EnvView, calls: Seq<Call>, id: u64) -> int
    decreases calls.len(),
{
    if calls.len() == 0 {
        0
    } else {
        partner_credits(start, calls.drop_last(), id) + partner_credit_of(
            found_by(after_calls(start, calls.drop_last()), calls.last()),
            calls.last().step,
            id,
        )
    }
}

/// Whether an operation is a contribution to an event that is accepted.
pub open spec fn contributes(env: EnvView, step: Step, id: u64) -> bool {
    step matches Step::AddFunds { id: to, from, amount, op_id } && to == id && add_funds_denial(
        env,
        id,
        amount,
    ) is None && add_funds_refusal(env, id, from, op_id) is None
}

/// Every operation but a contribution leaves the books of an event alone, as long as it
/// leaves the event active.
#[verifier::rlimit(50)]
proof fn lemma_step_beside_books(env: EnvView, step: Step, id: u64)
    requires
        id < next_id_in(env.store),
        event_in(env.store, id) is Some,
        !contributes(env, step, id),
        event_in(stepped(env, step).store, id).unwrap().status == EventStatus::Active,
    ensures
        same_books(env.store, stepped(env, step).store, id),
{
    let after = stepped(env, step).store;
    law_terms_are_kept(env, step, id);
    if event_of_step(step) != Some(id) {
        lemma_step_elsewhere(env, step, id);
    } else {
        match step {
            Step::SelectWinners { id: _, winners, op_id } => {
                assert forall|key: DataKey|
                    key is ContributorAmount || key is ContributorCount || key is ContributorAt
                        || key is ContributorSlot
                        || key is NonOwnerContributionTotal implies #[trigger] entry_in(after, key)
                    == entry_in(env.store, key) by {
                    lemma_select_keeps(env, id, winners, op_id, key);
                }
            },
            Step::ProcessCancelBatch { id: _, max_refunds, op_id } => {
                lemma_batch_keeps(env, id, max_refunds, op_id, DataKey::Event(id));
                assert(after == env.store);
            },
            Step::AddFunds { .. } => {
                assert(after == env.store);
            },
            Step::StartCancel { .. } => {
                assert(after == env.store);
            },
            Step::FinalizeCancel { .. } => {
                assert(after == env.store);
            },
            Step::ClaimPrize { .. } => {
                assert(same_books(env.store, after, id));
            },
            Step::Submit { .. } => {
                assert(same_books(env.store, after, id));
            },
            Step::WithdrawSubmission { .. } => {
                assert(same_books(env.store, after, id));
            },
            Step::ProposeManager { .. } => {
                assert(same_books(env.store, after, id));
            },
            Step::AcceptManager { .. } => {
                assert(same_books(env.store, after, id));
            },
            Step::CancelPendingManager { .. } => {
                assert(same_books(env.store, after, id));
            },
            Step::CreateEvent { .. } => {},
        }
    }
}

/// The contributors of an event that is active are in order after any calls, and each has
/// paid in what was credited to the contributor.
pub open spec fn credits_are_kept(start: EnvView, calls: Seq<Call>, id: u64) -> bool {
    let s = after_calls(start, calls).store;
    let owner = event_in(s, id).unwrap().owner;
    &&& contributors_are_in_order(s, id)
    &&& non_owner_total_in(s, id) matches Some(total) && total == partner_credits(start, calls, id)
    &&& forall|who: Address|
        who != owner ==> #[trigger] contribution_in(s, id, who) == credits(start, calls, id, who)
}

proof fn lemma_calls_keep_credits(start: EnvView, calls: Seq<Call>, id: u64)
    requires
        id < next_id_in(start.store),
        event_in(start.store, id) is Some,
        credits_are_kept(start, Seq::empty(), id),
        partner_credits(start, calls, id) <= i128::MAX,
    ensures
        id < next_id_in(after_calls(start, calls).store),
        event_in(after_calls(start, calls).store, id) matches Some(event) && same_terms(
            event_in(start.store, id).unwrap(),
            event,
        ),
        event_in(after_calls(start, calls).store, id).unwrap().status == EventStatus::Active
            ==> credits_are_kept(start, calls, id),
    decreases calls.len(),
{
    if calls.len() == 0 {
        assert(calls =~= Seq::empty());
    } else {
        let before = calls.drop_last();
        let found = found_by(after_calls(start, before), calls.last());
        let step = calls.last().step;
        let s = found.store;
        let after = after_calls(start, calls).store;
        lemma_calls_keep_credits(start, before, id);
        law_terms_are_kept(found, step, id);
        let owner = event_in(s, id).unwrap().owner;
        if event_in(after, id).unwrap().status == EventStatus::Active {
            assert(credits_are_kept(start, before, id));
            if contributes(found, step, id) {
                if let Step::AddFunds { id: _, from, amount, op_id } = step {
                    law_contribution_keeps_contributors_in_order(found, id, from, amount, op_id);
                    assert forall|who: Address| who != owner implies #[trigger] contribution_in(
                        after,
                        id,
                        who,
                    ) == credits(start, calls, id, who) by {
                        assert(contribution_in(s, id, who) == credits(start, before, id, who));
                    }
                }
            } else {
                lemma_step_beside_books(found, step, id);
                lemma_same_contributors_are_in_order(s, after, id);
                assert forall|who: Address| who != owner implies #[trigger] contribution_in(
                    after,
                    id,
                    who,
                ) == credits(start, calls, id, who) by {
                    assert(contribution_in(s, id, who) == credits(start, before, id, who));
                }
            }
        }
    }
}

/// After any calls whatever that follow the creation of an event, as long as it is active
/// and the contributions together can be written down: the list of contributors holds no one
/// twice and not the owner, everyone in it has paid in something, what each has paid in is
/// what the contributor's own calls have credited, one after the other, and the total on file
/// is what all of them have.
pub proof fn law_contributions_add_up(
    env: EnvView,
    params: CreateEventParams,
    op_id: Bytes32,
    pillar_verdict: Result<(), Error>,
    calls: Seq<Call>,
)
    requires
        numbers_are_fresh(env.store),
        create_refusal(env, params, op_id, pillar_verdict) is None,
        partner_credits(event_created(env, params, op_id), calls, next_id_in(env.store))
            <= i128::MAX,
        event_in(
            after_calls(event_created(env, params, op_id), calls).store,
            next_id_in(env.store),
        ) matches Some(event) ==> event.status == EventStatus::Active,
    ensures
        ({
            let id = next_id_in(env.store);
            let start = event_created(env, params, op_id);
            let s = after_calls(start, calls).store;
            &&& event_in(s, id) matches Some(event) && event.owner == params.owner
            &&& contributors_are_in_order(s, id)
            &&& non_owner_total_in(s, id) matches Some(total) && total == partner_credits(
                start,
                calls,
                id,
            )
            &&& forall|who: Address|
                who != params.owner ==> #[trigger] contribution_in(s, id, who) == credits(
                    start,
                    calls,
                    id,
                    who,
                )
        }),
{
    let id = next_id_in(env.store);
    let start = event_created(env, params, op_id);
    law_new_event_gets_fresh_number(env, params, op_id, pillar_verdict);
    assert forall|key: DataKey| event_of(key) == Some(id) implies #[trigger] entry_in(
        env.store,
        key,
    ) is None by {}
    law_contributors_start_in_order(env, params, op_id);
    assert(credits_are_kept(start, Seq::empty(), id));
    lemma_calls_keep_credits(start, calls, id);
}

} // verus!
