//! Which events may be created, and what comes of it.
use crate::env::{Effect, Env, EnvView, Event, Transfer};
use crate::errors::Error;
use crate::event_ops::create::{check_creation, create_event, percent_sum, provisional_record};
use crate::host::text_bytes;
use crate::idempotency::{next_event_id, upcoming_event_id};
use crate::laws::shares::lemma_share_floor;
use crate::storage::{flag_in, number_in, winner_count_in, Entry};
use crate::types::{
    Bytes32, CreateEventParams, DataKey, EventRecord, EventStatus, PendingManager, Pillar,
    ReleaseKind, Winner,
};
use vstd::prelude::*;

verus! {

/// What the percentages come to grows by each of them, from nothing.
pub proof fn law_percentages_are_summed(pairs: Seq<(u32, u32)>, position: u32, percent: u32)
    ensures
        percent_sum(Seq::empty()) == 0,
        percent_sum(pairs.push((position, percent))) == percent_sum(pairs) + percent,
{
    assert(pairs.push((position, percent)).drop_last() =~= pairs);
}

/// An event may be created by whoever owns it while the contract is not paused: in a token
/// that the contract deals in, with a title of at most 120 bytes, a budget, prizes that
/// come to a hundred per cent, a fee rate of its own, if any, that is not too high, prizes
/// in one piece if it is a hackathon, nothing against it in the rules of its pillar, and a
/// number left for it, in an operation that is new to the owner.
pub proof fn law_proper_event_may_be_created(
    env: &mut Env,
    params: CreateEventParams,
    op_id: Bytes32,
    verdict: Result<(), Error>,
    r: Result<u64, Error>,
)
    requires
        call_ensures(create_event, (env, params, op_id, verdict), r),
    ensures
        r is Ok <==> ({
            let s = old(env)@.store;
            &&& !old(env)@.settings.paused
            &&& !flag_in(s, DataKey::OpSeen(params.owner, op_id))
            &&& flag_in(s, DataKey::SupportedToken(params.token))
            &&& text_bytes(params.title).len() <= 120
            &&& params.total_budget > 0
            &&& params.winner_distribution@.len() > 0
            &&& percent_sum(params.winner_distribution@) == 100
            &&& params.fee_bps_override is Some ==> params.fee_bps_override.unwrap()
                <= old(env)@.settings.max_fee_bps
            &&& params.pillar == Pillar::Hackathon ==> params.release_kind == ReleaseKind::Single
            &&& verdict is Ok
            &&& number_in(s, DataKey::NextEventId) != Some(u64::MAX)
        }),
        old(env)@.settings.paused ==> r == Err::<u64, Error>(Error::Paused) && final(env)@
            == old(env)@,
        !old(env)@.settings.paused && r is Err ==> final(env)@ == (EnvView {
            auths: old(env)@.auths.push(params.owner),
            ..old(env)@
        }),
{
}

/// An event that is refused is refused for the first of these reasons that holds.
pub proof fn law_refused_event_says_why(
    env: &Env,
    params: CreateEventParams,
    op_id: Bytes32,
    verdict: Result<(), Error>,
    r: Result<(), Error>,
)
    requires
        call_ensures(check_creation, (env, &params, op_id, verdict), r),
    ensures
        ({
            let s = env@.store;
            let seen = flag_in(s, DataKey::OpSeen(params.owner, op_id));
            let foreign = !flag_in(s, DataKey::SupportedToken(params.token));
            let long = text_bytes(params.title).len() > 120;
            let free = params.total_budget <= 0;
            let empty = params.winner_distribution@.len() == 0;
            let off = percent_sum(params.winner_distribution@) != 100;
            let dear = params.fee_bps_override is Some && params.fee_bps_override.unwrap()
                > env@.settings.max_fee_bps;
            let split = params.pillar == Pillar::Hackathon && params.release_kind
                != ReleaseKind::Single;
            let out = number_in(s, DataKey::NextEventId) == Some(u64::MAX);
            &&& seen ==> r == Err::<(), Error>(Error::DuplicateOperation)
            &&& !seen && foreign ==> r == Err::<(), Error>(Error::UnsupportedToken)
            &&& !seen && !foreign && long ==> r == Err::<(), Error>(Error::TitleTooLong)
            &&& !seen && !foreign && !long && free ==> r == Err::<(), Error>(Error::InvalidBudget)
            &&& !seen && !foreign && !long && !free && empty ==> r == Err::<(), Error>(
                Error::InvalidDistribution,
            )
            &&& !seen && !foreign && !long && !free && !empty && off ==> r == Err::<(), Error>(
                Error::DistributionMismatch,
            )
            &&& !seen && !foreign && !long && !free && !empty && !off && dear ==> r == Err::<
                (),
                Error,
            >(Error::InvalidFeeBps)
            &&& !seen && !foreign && !long && !free && !empty && !off && !dear && split ==> r
                == Err::<(), Error>(Error::InvalidReleaseKind)
            &&& !seen && !foreign && !long && !free && !empty && !off && !dear && !split
                && verdict is Err ==> r == verdict
            &&& !seen && !foreign && !long && !free && !empty && !off && !dear && !split
                && verdict is Ok && out ==> r == Err::<(), Error>(Error::EventIdExhausted)
            &&& !seen && !foreign && !long && !free && !empty && !off && !dear && !split
                && verdict is Ok && !out ==> r == Ok::<(), Error>(())
        }),
{
}

/// An event is created or refused as the check says that precedes it.
pub proof fn law_creation_follows_its_check(
    env: &mut Env,
    params: CreateEventParams,
    op_id: Bytes32,
    verdict: Result<(), Error>,
    checked: Result<(), Error>,
    r: Result<u64, Error>,
)
    requires
        call_ensures(create_event, (env, params, op_id, verdict), r),
        call_ensures(check_creation, (&*old(env), &params, op_id, verdict), checked),
        !old(env)@.settings.paused,
    ensures
        checked is Ok <==> r is Ok,
        checked is Err ==> r == Err::<u64, Error>(checked->Err_0),
{
}

/// Events are numbered from one on without a gap. The last number of the range is not
/// handed out.
pub proof fn law_events_are_numbered_in_turn(
    env: &mut Env,
    upcoming: u64,
    r: Result<u64, Error>,
)
    requires
        call_ensures(upcoming_event_id, (&*old(env),), upcoming),
        call_ensures(next_event_id, (env,), r),
    ensures
        ({
            let on_file = number_in(old(env)@.store, DataKey::NextEventId);
            let id = if on_file is Some {
                on_file.unwrap()
            } else {
                1
            };
            &&& upcoming == id
            &&& id == u64::MAX ==> r == Err::<u64, Error>(Error::EventIdExhausted) && final(env)@
                == old(env)@
            &&& id < u64::MAX ==> r == Ok::<u64, Error>(id) && final(env)@ == (EnvView {
                store: old(env)@.store.insert(DataKey::NextEventId, Entry::Number((id + 1) as u64)),
                ..old(env)@
            })
        }),
{
}

/// The record of an event says what its creator asked for and when, that it is active, and
/// that the whole budget is in escrow, or nothing yet for a crowdfunding campaign.
pub proof fn law_record_says_what_was_asked(env: &Env, params: CreateEventParams, r: EventRecord)
    requires
        call_ensures(provisional_record, (env, &params), r),
    ensures
        params.pillar == Pillar::Crowdfunding ==> r.remaining_escrow == 0,
        params.pillar != Pillar::Crowdfunding ==> r.remaining_escrow == params.total_budget,
        r == (EventRecord {
            id: 0,
            pillar: params.pillar,
            owner: params.owner,
            token: params.token,
            total_budget: params.total_budget,
            remaining_escrow: r.remaining_escrow,
            release_kind: params.release_kind,
            status: EventStatus::Active,
            content_uri: params.content_uri,
            title: params.title,
            created_at: env@.timestamp,
            deadline: params.deadline,
            winner_distribution: params.winner_distribution,
            fee_bps_override: params.fee_bps_override,
        }),
{
}

/// Creating an event takes the next number and files the record of it under that number,
/// with no contributions. A crowdfunding campaign gets its owner as its winner. A manager
/// that is named is proposed, for 17280 ledgers. Nothing else is written but that the
/// operation is done.
pub proof fn law_created_event_goes_on_file(
    env: &mut Env,
    params: CreateEventParams,
    op_id: Bytes32,
    verdict: Result<(), Error>,
    r: Result<u64, Error>,
    id: u64,
    record: EventRecord,
)
    requires
        call_ensures(create_event, (env, params, op_id, verdict), r),
        r is Ok,
        number_in(old(env)@.store, DataKey::NextEventId) == Some(id) || number_in(
            old(env)@.store,
            DataKey::NextEventId,
        ) is None && id == 1,
        call_ensures(provisional_record, (&*old(env), &params), record),
    ensures
        r == Ok::<u64, Error>(id),
        ({
            let s = old(env)@.store;
            let count = winner_count_in(s, id);
            let last = old(env)@.sequence + 17_280;
            let filed = s.insert(DataKey::OpSeen(params.owner, op_id), Entry::Flag(true)).insert(
                DataKey::NextEventId,
                Entry::Number((id + 1) as u64),
            ).insert(DataKey::Event(id), Entry::Event(EventRecord { id, ..record })).insert(
                DataKey::NonOwnerContributionTotal(id),
                Entry::Amount(0),
            );
            let campaign = filed.insert(
                DataKey::EventWinnerAt(id, count),
                Entry::Winner(
                    Winner {
                        recipient: params.owner,
                        position: 1,
                        amount: 0,
                        milestone: None,
                        paid_at: None,
                    },
                ),
            ).insert(DataKey::EventWinnerCount(id), Entry::Count((count + 1) as u32));
            let listed = if params.pillar == Pillar::Crowdfunding {
                campaign
            } else {
                filed
            };
            &&& params.manager is None ==> final(env)@.store == listed
            &&& params.manager is Some ==> final(env)@.store == listed.insert(
                DataKey::PendingManager(id),
                Entry::PendingManager(
                    PendingManager {
                        target: params.manager.unwrap(),
                        expires_at_ledger: if last > u32::MAX {
                            u32::MAX
                        } else {
                            last as u32
                        },
                    },
                ),
            )
        }),
        final(env)@ == (EnvView {
            store: final(env)@.store,
            auths: old(env)@.auths.push(params.owner),
            effects: final(env)@.effects,
            ..old(env)@
        }),
{
}

/// Whoever creates an event pays the whole budget to the contract, and on top of it to the
/// fee account the part of it that the event's own fee rate stands for, or the platform's
/// where the event has none: the ten-thousandths rounded down. A crowdfunding campaign is
/// free, and a fee of nothing is not paid. The event is announced, and then the manager
/// that is proposed, if any.
pub proof fn law_budget_is_paid_with_its_fee(
    env: &mut Env,
    params: CreateEventParams,
    op_id: Bytes32,
    verdict: Result<(), Error>,
    id: u64,
    rate: u32,
)
    requires
        call_ensures(create_event, (env, params, op_id, verdict), Ok::<u64, Error>(id)),
        params.fee_bps_override == Some(rate) || params.fee_bps_override is None && rate
            == old(env)@.settings.fee_bps,
    ensures
        ({
            let before = old(env)@.effects;
            let after = final(env)@.effects;
            let n = before.len() as int;
            let amount = params.total_budget;
            let paid = Effect::Transfer(
                Transfer {
                    token: params.token,
                    from: params.owner,
                    to: old(env)@.contract,
                    amount,
                },
            );
            let told = Effect::Publish(
                Event::EventCreated {
                    id,
                    pillar: params.pillar,
                    owner: params.owner,
                    token: params.token,
                    total_budget: amount,
                    content_uri: params.content_uri,
                    title: params.title,
                },
            );
            let last = old(env)@.sequence + 17_280;
            let proposed = |effects: Seq<Effect>|
                if params.manager is None {
                    effects
                } else {
                    effects.push(
                        Effect::Publish(
                            Event::ManagerProposed {
                                event_id: id,
                                target: params.manager.unwrap(),
                                expires_at_ledger: if last > u32::MAX {
                                    u32::MAX
                                } else {
                                    last as u32
                                },
                            },
                        ),
                    )
                };
            if params.pillar == Pillar::Crowdfunding {
                after == proposed(before.push(told))
            } else if amount * rate < 10_000 {
                after == proposed(before.push(paid).push(told))
            } else {
                &&& after == proposed(before.push(paid).push(after[n + 1]).push(told))
                &&& after[n + 1] matches Effect::Transfer(fee) && {
                    &&& fee.token == params.token
                    &&& fee.from == params.owner
                    &&& fee.to == old(env)@.settings.fee_account
                    &&& amount * rate <= i128::MAX ==> 10_000 * fee.amount <= amount * rate < 10_000
                        * fee.amount + 10_000
                    &&& amount * rate > i128::MAX ==> 10_000 * fee.amount <= i128::MAX < 10_000
                        * fee.amount + 10_000
                }
            }
        }),
{
    lemma_share_floor(params.total_budget as int, rate as int, 10_000);
    let amount = params.total_budget;
    assert(rate == 0 ==> amount * rate == 0) by (nonlinear_arith);
}

} // verus!
