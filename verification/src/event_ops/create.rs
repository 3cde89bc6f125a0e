//! Creating an event and escrowing its budget.
use crate::env::{writes_behind, Effect, Env, EnvView, Event};
use crate::errors::Error;
use crate::escrow::{deposit_with_fee_at, deposited, effective_fee_bps, fee_rate};
use crate::event_ops::manager::{proposed, record_proposal};
use crate::event_ops::winners::{append_winner, row_added};
use crate::event_ops::MAX_TITLE_LEN;
use crate::host::{text_bytes, text_clone, text_len, Distribution};
use crate::idempotency::{
    mark_seen, marked_seen, next_event_id, next_id_in, require_unseen, seen_in, upcoming_event_id,
};
use crate::storage::{flag_in, winner_count_in, Entry, Store};
use crate::types::{
    Address, Bytes32, CreateEventParams, DataKey, EventRecord, EventStatus, Pillar, ReleaseKind,
    Winner,
};
use vstd::prelude::*;

verus! {

/// What the percentages come to.
pub open spec fn percent_sum(pairs: Seq<(u32, u32)>) -> int
    decreases pairs.len(),
{
    if pairs.len() == 0 {
        0
    } else {
        percent_sum(pairs.drop_last()) + pairs.last().1
    }
}

/// The budget that is escrowed when the event is created: crowdfunding campaigns start
/// empty.
pub open spec fn initial_escrow(params: CreateEventParams) -> i128 {
    if params.pillar == Pillar::Crowdfunding {
        0
    } else {
        params.total_budget
    }
}

/// The record of the event that `params` asks for, at time `now`, under the number `id`.
pub open spec fn record_for(params: CreateEventParams, id: u64, now: u64) -> EventRecord {
    EventRecord {
        id,
        pillar: params.pillar,
        owner: params.owner,
        token: params.token,
        total_budget: params.total_budget,
        remaining_escrow: initial_escrow(params),
        release_kind: params.release_kind,
        status: EventStatus::Active,
        content_uri: params.content_uri,
        title: params.title,
        created_at: now,
        deadline: params.deadline,
        winner_distribution: params.winner_distribution,
        fee_bps_override: params.fee_bps_override,
    }
}

/// Whether the contract deals in a token.
pub open spec fn is_supported(s: Store, token: Address) -> bool {
    flag_in(s, DataKey::SupportedToken(token))
}

/// Why an event is refused after its owner has been asked for authorization.
/// `pillar_verdict` is what the rules of the event's pillar say about its provisional
/// record.
pub open spec fn create_refusal(
    env: EnvView,
    params: CreateEventParams,
    op_id: Bytes32,
    pillar_verdict: Result<(), Error>,
) -> Option<Error> {
    if seen_in(env.store, params.owner, op_id) {
        Some(Error::DuplicateOperation)
    } else if !is_supported(env.store, params.token) {
        Some(Error::UnsupportedToken)
    } else if text_bytes(params.title).len() > MAX_TITLE_LEN {
        Some(Error::TitleTooLong)
    } else if params.total_budget <= 0 {
        Some(Error::InvalidBudget)
    } else if params.winner_distribution@.len() == 0 {
        Some(Error::InvalidDistribution)
    } else if percent_sum(params.winner_distribution@) != 100 {
        Some(Error::DistributionMismatch)
    } else if params.fee_bps_override is Some && params.fee_bps_override.unwrap()
        > env.settings.max_fee_bps {
        Some(Error::InvalidFeeBps)
    } else if params.pillar == Pillar::Hackathon && params.release_kind != ReleaseKind::Single {
        Some(Error::InvalidReleaseKind)
    } else if pillar_verdict is Err {
        Some(pillar_verdict->Err_0)
    } else if next_id_in(env.store) == u64::MAX {
        Some(Error::EventIdExhausted)
    } else {
        None
    }
}

/// The row that makes the owner of a crowdfunding campaign its only winner.
pub open spec fn campaign_row(owner: Address) -> Winner {
    Winner { recipient: owner, position: 1, amount: 0, milestone: None, paid_at: None }
}

/// The entries once the event is on file.
pub open spec fn event_filed(s: Store, params: CreateEventParams, now: u64) -> Store {
    let id = next_id_in(s);
    let filed = s.insert(DataKey::NextEventId, Entry::Number((id + 1) as u64)).insert(
        DataKey::Event(id),
        Entry::Event(record_for(params, id, now)),
    ).insert(DataKey::NonOwnerContributionTotal(id), Entry::Amount(0));
    if params.pillar == Pillar::Crowdfunding {
        row_added(filed, id, campaign_row(params.owner))
    } else {
        filed
    }
}

/// The environment once the event has been created: its budget has been deposited, with
/// the fee on top, and a manager that was named with it has been proposed.
pub open spec fn event_created(env: EnvView, params: CreateEventParams, op_id: Bytes32) -> EnvView {
    let id = next_id_in(env.store);
    let asked = env.authorized_by(params.owner);
    let paid = if params.pillar == Pillar::Crowdfunding {
        asked
    } else {
        deposited(
            asked,
            params.token,
            params.owner,
            params.total_budget,
            fee_rate(env.settings, params.fee_bps_override),
        )
    };
    let announced = paid.with_store(event_filed(env.store, params, env.timestamp)).with(
        Effect::Publish(
            Event::EventCreated {
                id,
                pillar: params.pillar,
                owner: params.owner,
                token: params.token,
                total_budget: params.total_budget,
                content_uri: params.content_uri,
                title: params.title,
            },
        ),
    );
    marked_seen(
        match params.manager {
            Some(manager) => proposed(announced, id, manager),
            None => announced,
        },
        params.owner,
        op_id,
    )
}

/// The record of the event that `params` asks for, before it has a number.
pub fn provisional_record(env: &Env, params: &CreateEventParams) -> (r: EventRecord)
    ensures
        r == record_for(*params, 0, env@.timestamp),
{
    let remaining_escrow: i128 = if params.pillar == Pillar::Crowdfunding {
        0
    } else {
        params.total_budget
    };
    EventRecord {
        id: 0,
        pillar: params.pillar,
        owner: params.owner,
        token: params.token,
        total_budget: params.total_budget,
        remaining_escrow,
        release_kind: params.release_kind,
        status: EventStatus::Active,
        content_uri: text_clone(&params.content_uri),
        title: text_clone(&params.title),
        created_at: env.timestamp,
        deadline: params.deadline,
        winner_distribution: params.winner_distribution.clone(),
        fee_bps_override: params.fee_bps_override,
    }
}

/// Checks that the percentages come to a hundred.
fn check_distribution(distribution: &Distribution) -> (r: Result<(), Error>)
    ensures
        r == if distribution@.len() == 0 {
            Err::<(), Error>(Error::InvalidDistribution)
        } else if percent_sum(distribution@) != 100 {
            Err(Error::DistributionMismatch)
        } else {
            Ok(())
        },
{
    if distribution.is_empty() {
        return Err(Error::InvalidDistribution);
    }
    let pairs: Vec<(u32, u32)> = distribution.pairs();
    let mut sum: u32 = 0;
    let mut i: usize = 0;
    while i < pairs.len()
        invariant
            i <= pairs.len(),
            sum == if percent_sum(pairs@.take(i as int)) > u32::MAX {
                u32::MAX as int
            } else {
                percent_sum(pairs@.take(i as int))
            },
        decreases pairs.len() - i,
    {
        assert(pairs@.take(i + 1).drop_last() =~= pairs@.take(i as int));
        sum = sum.saturating_add(pairs[i].1);
        i = i + 1;
    }
    assert(pairs@.take(i as int) =~= pairs@);
    if sum != 100 {
        return Err(Error::DistributionMismatch);
    }
    Ok(())
}

/// Checks that nothing speaks against the event that `params` asks for; the pause is not
/// looked at.
pub fn check_creation(
    env: &Env,
    params: &CreateEventParams,
    op_id: Bytes32,
    pillar_verdict: Result<(), Error>,
) -> (r: Result<(), Error>)
    ensures
        r == match create_refusal(env@, *params, op_id, pillar_verdict) {
            Some(error) => Err::<(), Error>(error),
            None => Ok(()),
        },
{
    require_unseen(env, params.owner, op_id)?;
    if !env.storage.flag(DataKey::SupportedToken(params.token)) {
        return Err(Error::UnsupportedToken);
    }
    if text_len(&params.title) > MAX_TITLE_LEN {
        return Err(Error::TitleTooLong);
    }
    if params.total_budget <= 0 {
        return Err(Error::InvalidBudget);
    }
    check_distribution(&params.winner_distribution)?;
    if let Some(bps) = params.fee_bps_override {
        if bps > env.settings.max_fee_bps {
            return Err(Error::InvalidFeeBps);
        }
    }
    if params.pillar == Pillar::Hackathon && params.release_kind != ReleaseKind::Single {
        return Err(Error::InvalidReleaseKind);
    }
    pillar_verdict?;
    if upcoming_event_id(env) == u64::MAX {
        return Err(Error::EventIdExhausted);
    }
    Ok(())
}

/// Creates an event and returns its number. Its owner deposits the budget, with the fee
/// on top, except for a crowdfunding campaign. `pillar_verdict` is what the rules of the
/// event's pillar say about its [`provisional_record`]; that a hackathon pays its prizes
/// in one piece is checked here.
pub fn create_event(
    env: &mut Env,
    params: CreateEventParams,
    op_id: Bytes32,
    pillar_verdict: Result<(), Error>,
) -> (r: Result<u64, Error>)
    requires
        params.pillar == Pillar::Crowdfunding && !old(env)@.settings.paused && create_refusal(
            old(env)@,
            params,
            op_id,
            pillar_verdict,
        ) is None ==> winner_count_in(old(env)@.store, next_id_in(old(env)@.store)) < u32::MAX,
    ensures
        if old(env)@.settings.paused {
            r == Err::<u64, Error>(Error::Paused) && final(env)@ == old(env)@
        } else {
            match create_refusal(old(env)@, params, op_id, pillar_verdict) {
                Some(error) => r == Err::<u64, Error>(error) && final(env)@
                    == old(env)@.authorized_by(params.owner),
                None => r == Ok::<u64, Error>(next_id_in(old(env)@.store)) && final(env)@
                    == event_created(old(env)@, params, op_id),
            }
        },
        writes_behind(*old(env), *final(env), r is Ok),
{
    if env.settings.paused {
        return Err(Error::Paused);
    }
    let ghost pre = env@;
    let owner: Address = params.owner;
    env.require_auth(owner);
    check_creation(env, &params, op_id, pillar_verdict)?;
    let effective_bps: u32 = effective_fee_bps(env, params.fee_bps_override);
    let is_crowdfunding: bool = params.pillar == Pillar::Crowdfunding;

    let mut record: EventRecord = provisional_record(env, &params);
    let id: u64 = next_event_id(env)?;
    record.id = id;
    if !is_crowdfunding {
        deposit_with_fee_at(env, params.token, owner, params.total_budget, effective_bps);
    }
    env.put(DataKey::Event(id), Entry::Event(record));
    env.put(DataKey::NonOwnerContributionTotal(id), Entry::Amount(0));
    if is_crowdfunding {
        append_winner(
            env,
            id,
            Winner { recipient: owner, position: 1, amount: 0, milestone: None, paid_at: None },
        );
    }
    assert(env@.store == event_filed(pre.store, params, pre.timestamp));
    env.publish(
        Event::EventCreated {
            id,
            pillar: params.pillar,
            owner,
            token: params.token,
            total_budget: params.total_budget,
            content_uri: params.content_uri,
            title: params.title,
        },
    );
    if let Some(manager) = params.manager {
        record_proposal(env, id, manager);
    }
    mark_seen(env, owner, op_id);
    Ok(id)
}

} // verus!
