//! An operation is carried out once, and none while the contract is paused.
use crate::env::EnvView;
use crate::errors::Error;
use crate::event_ops::cancel::{
    batch_processed, cancel_finalized, cancel_started, cancel_step_refusal,
    finalize_cancel_refusal, start_cancel_denial, start_cancel_refusal,
};
use crate::event_ops::create::{create_refusal, event_created};
use crate::event_ops::funds::{add_funds_denial, add_funds_refusal, funds_added};
use crate::event_ops::manager::{
    accept_manager_refusal, manager_accepted, manager_of_event, no_event,
    pending_manager_cancelled, proposal_voided, proposed,
};
use crate::event_ops::submissions::{
    submissions_closed, submit_denial, submit_refusal, submitted, withdraw_refusal, withdrawn,
};
use crate::event_ops::winners::{
    claim_denial, claim_refusal, prize_claimed, select_denial, select_refusal, winners_recorded,
};
use crate::host::Text;
use crate::idempotency::{big_endian, child_input, lemma_big_endian_len, seen_in};
use crate::laws::frame::{
    law_batch_stays_within_event, law_cancel_end_stays_within_event,
    law_cancel_start_stays_within_event, law_claim_stays_within_event,
    law_funds_stay_within_event, law_rotation_stays_within_event, law_select_stays_within_event,
    law_submit_stays_within_event, law_withdraw_stays_within_event,
};
use crate::storage::{award_in, entry_in, Store};
use crate::types::{Address, Bytes32, CreateEventParams, DataKey, WinnerSpec};
use vstd::prelude::*;

verus! {

/// Every operation that succeeds is recorded as done by the caller who authorized it;
/// the steps of a cancellation, that anyone may take, by the contract.
pub proof fn law_success_is_recorded(
    env: EnvView,
    id: u64,
    who: Address,
    amount: i128,
    text: Text,
    params: CreateEventParams,
    winners: Seq<WinnerSpec>,
    position: u32,
    max_refunds: u32,
    op_id: Bytes32,
)
    ensures
        seen_in(event_created(env, params, op_id).store, params.owner, op_id),
        seen_in(funds_added(env, id, who, amount, op_id).store, who, op_id),
        seen_in(
            cancel_started(env, id, op_id).store,
            manager_of_event(env.store, id),
            op_id,
        ),
        seen_in(batch_processed(env, id, max_refunds, op_id).store, env.contract, op_id),
        seen_in(cancel_finalized(env, id, op_id).store, env.contract, op_id),
        seen_in(submitted(env, id, who, text, op_id).store, who, op_id),
        seen_in(withdrawn(env, id, who, op_id).store, who, op_id),
        seen_in(
            winners_recorded(env, id, winners, op_id).store,
            manager_of_event(env.store, id),
            op_id,
        ),
        seen_in(
            prize_claimed(env, id, position, op_id).store,
            award_in(env.store, id, position).unwrap().recipient,
            op_id,
        ),
{
}

/// An operation that its caller has had carried out before is refused, whatever has
/// happened in between.
pub proof fn law_replay_is_refused(
    env: EnvView,
    id: u64,
    who: Address,
    amount: i128,
    text: Text,
    params: CreateEventParams,
    verdict: Result<(), Error>,
    winners: Seq<WinnerSpec>,
    position: u32,
    op_id: Bytes32,
)
    ensures
        seen_in(env.store, params.owner, op_id) ==> create_refusal(env, params, op_id, verdict)
            == Some(Error::DuplicateOperation),
        seen_in(env.store, who, op_id) ==> add_funds_denial(env, id, amount) is Some
            || add_funds_refusal(env, id, who, op_id) == Some(Error::DuplicateOperation),
        seen_in(env.store, who, op_id) ==> submit_denial(env, id) is Some || submit_refusal(
            env,
            id,
            who,
            text,
            op_id,
        ) == Some(Error::DuplicateOperation),
        seen_in(env.store, who, op_id) ==> submissions_closed(env, id) is Some || withdraw_refusal(
            env,
            id,
            who,
            op_id,
        ) == Some(Error::DuplicateOperation),
        seen_in(env.store, manager_of_event(env.store, id), op_id) ==> start_cancel_denial(
            env,
            id,
        ) is Some || start_cancel_refusal(env, id, op_id) == Some(Error::DuplicateOperation),
        seen_in(env.store, manager_of_event(env.store, id), op_id) ==> select_denial(env, id)
            is Some || select_refusal(env, id, winners, op_id) == Some(Error::DuplicateOperation),
        seen_in(
            env.store,
            award_in(env.store, id, position).unwrap().recipient,
            op_id,
        ) ==> claim_denial(env, id, position) is Some || claim_refusal(env, id, position, op_id)
            == Some(Error::DuplicateOperation),
        seen_in(env.store, env.contract, op_id) && !env.settings.paused ==> cancel_step_refusal(
            env,
            id,
            op_id,
        ) == Some(Error::DuplicateOperation) && finalize_cancel_refusal(env, id, op_id) == Some(
            Error::DuplicateOperation,
        ),
{
}

/// The powers of 256.
spec fn power_of_256(n: int) -> int
    decreases n,
{
    if n <= 0 {
        1
    } else {
        256 * power_of_256(n - 1)
    }
}

/// Numbers that fit are told apart by their bytes.
proof fn lemma_bytes_tell_numbers_apart(a: int, b: int, n: int)
    requires
        0 <= n,
        0 <= a < power_of_256(n),
        0 <= b < power_of_256(n),
        big_endian(a, n) == big_endian(b, n),
    ensures
        a == b,
    decreases n,
{
    if n > 0 {
        let (x, y) = (big_endian(a, n), big_endian(b, n));
        lemma_big_endian_len(a / 256, n - 1);
        lemma_big_endian_len(b / 256, n - 1);
        assert(x.last() == y.last());
        assert(x.drop_last() =~= big_endian(a / 256, n - 1));
        assert(y.drop_last() =~= big_endian(b / 256, n - 1));
        lemma_bytes_tell_numbers_apart(a / 256, b / 256, n - 1);
    }
}

/// The identifiers of different operations, and of different parts of one operation, are
/// hashes of different inputs.
pub proof fn law_parts_are_told_apart(a: Bytes32, b: Bytes32, part: u8, other: u8)
    requires
        child_input(a, part) == child_input(b, other),
    ensures
        a == b,
        part == other,
{
    let (x, y) = (child_input(a, part), child_input(b, other));
    lemma_big_endian_len(a.high as int, 16);
    lemma_big_endian_len(a.low as int, 16);
    lemma_big_endian_len(b.high as int, 16);
    lemma_big_endian_len(b.low as int, 16);
    assert(x.last() == y.last());
    assert(x.subrange(0, 16) =~= big_endian(a.high as int, 16));
    assert(y.subrange(0, 16) =~= big_endian(b.high as int, 16));
    assert(x.subrange(16, 32) =~= big_endian(a.low as int, 16));
    assert(y.subrange(16, 32) =~= big_endian(b.low as int, 16));
    assert(power_of_256(16) > u128::MAX) by {
        reveal_with_fuel(power_of_256, 17);
    }
    lemma_bytes_tell_numbers_apart(a.high as int, b.high as int, 16);
    lemma_bytes_tell_numbers_apart(a.low as int, b.low as int, 16);
}

/// Whether everything that has been done is still recorded as done.
pub open spec fn keeps_record(before: Store, after: Store) -> bool {
    forall|who: Address, op_id: Bytes32|
        seen_in(before, who, op_id) ==> #[trigger] seen_in(after, who, op_id)
}

/// No operation forgets what has been done.
pub proof fn law_record_is_kept(
    env: EnvView,
    id: u64,
    who: Address,
    amount: i128,
    text: Text,
    params: CreateEventParams,
    winners: Seq<WinnerSpec>,
    position: u32,
    max_refunds: u32,
    op_id: Bytes32,
)
    ensures
        keeps_record(env.store, event_created(env, params, op_id).store),
        keeps_record(env.store, proposed(proposal_voided(env, id), id, who).store),
        keeps_record(env.store, manager_accepted(env, id).store),
        keeps_record(env.store, pending_manager_cancelled(env, id).store),
        keeps_record(env.store, funds_added(env, id, who, amount, op_id).store),
        keeps_record(env.store, cancel_started(env, id, op_id).store),
        keeps_record(env.store, batch_processed(env, id, max_refunds, op_id).store),
        keeps_record(env.store, cancel_finalized(env, id, op_id).store),
        keeps_record(env.store, submitted(env, id, who, text, op_id).store),
        keeps_record(env.store, withdrawn(env, id, who, op_id).store),
        keeps_record(env.store, winners_recorded(env, id, winners, op_id).store),
        keeps_record(env.store, prize_claimed(env, id, position, op_id).store),
{
    law_success_is_recorded(
        env,
        id,
        who,
        amount,
        text,
        params,
        winners,
        position,
        max_refunds,
        op_id,
    );
    law_rotation_stays_within_event(env, id, who);
    law_funds_stay_within_event(env, id, who, amount, op_id);
    law_cancel_start_stays_within_event(env, id, op_id);
    law_batch_stays_within_event(env, id, max_refunds, op_id);
    law_cancel_end_stays_within_event(env, id, op_id);
    law_submit_stays_within_event(env, id, who, text, op_id);
    law_withdraw_stays_within_event(env, id, who, op_id);
    law_select_stays_within_event(env, id, winners, op_id);
    law_claim_stays_within_event(env, id, position, op_id);
    let batch = batch_processed(env, id, max_refunds, op_id).store;
    let recorded = winners_recorded(env, id, winners, op_id).store;
    assert forall|a: Address, o: Bytes32| seen_in(env.store, a, o) implies #[trigger] seen_in(
        batch,
        a,
        o,
    ) by {
        assert(entry_in(batch, DataKey::OpSeen(a, o)) == entry_in(env.store, DataKey::OpSeen(a, o))
            || (a == env.contract && o == op_id));
    }
    assert forall|a: Address, o: Bytes32| seen_in(env.store, a, o) implies #[trigger] seen_in(
        recorded,
        a,
        o,
    ) by {
        assert(entry_in(recorded, DataKey::OpSeen(a, o)) == entry_in(
            env.store,
            DataKey::OpSeen(a, o),
        ) || (a == manager_of_event(env.store, id) && o == op_id));
    }
}

/// While the contract is paused every operation is refused.
pub proof fn law_pause_stops_everything(
    env: EnvView,
    id: u64,
    amount: i128,
    position: u32,
    op_id: Bytes32,
)
    requires
        env.settings.paused,
    ensures
        no_event(env, id) == Some(Error::Paused),
        accept_manager_refusal(env, id) == Some(Error::Paused),
        add_funds_denial(env, id, amount) == Some(Error::Paused),
        start_cancel_denial(env, id) == Some(Error::Paused),
        cancel_step_refusal(env, id, op_id) == Some(Error::Paused),
        finalize_cancel_refusal(env, id, op_id) == Some(Error::Paused),
        submit_denial(env, id) == Some(Error::Paused),
        submissions_closed(env, id) == Some(Error::Paused),
        select_denial(env, id) == Some(Error::Paused),
        claim_denial(env, id, position) == Some(Error::Paused),
{
}

} // verus!
