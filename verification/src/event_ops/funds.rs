//! Paying into an event's escrow.
use crate::amounts::{saturated, saturating_add};
use crate::env::{writes_behind, Effect, Env, EnvView, Event};
use crate::errors::Error;
use crate::escrow::{
    deposit_no_fee, deposit_with_fee_at, deposited, effective_fee_bps, fee_rate, taken_in,
};
use crate::event_ops::MIN_CONTRIBUTION_STROOPS;
use crate::idempotency::{mark_seen, marked_seen, require_unseen, seen_in};
use crate::storage::{
    contribution_in, contributor_count_in, count_in, event_in, non_owner_total_in, Entry, Store,
};
use crate::types::{Address, Bytes32, DataKey, EventRecord, EventStatus, Pillar};
use vstd::prelude::*;

verus! {

/// What others than the owner have paid in, all together: zero where nobody has, and
/// unknown where there are contributors but no total.
pub open spec fn partner_total(s: Store, id: u64) -> Result<i128, Error> {
    match non_owner_total_in(s, id) {
        Some(total) => Ok(total),
        None => if contributor_count_in(s, id) == 0 {
            Ok(0)
        } else {
            Err(Error::CancellationTotalMissing)
        },
    }
}

pub open spec fn contributor_slot_in(s: Store, id: u64, who: Address) -> u32 {
    count_in(s, DataKey::ContributorSlot(id, who))
}

/// Whether the list of contributors has no room for `who`.
pub open spec fn no_room_for(s: Store, id: u64, who: Address) -> bool {
    contributor_slot_in(s, id, who) == 0 && contributor_count_in(s, id) == u32::MAX
}

/// The entries once `who` stands in the list of contributors.
pub open spec fn listed(s: Store, id: u64, who: Address) -> Store {
    let count = contributor_count_in(s, id);
    if contributor_slot_in(s, id, who) != 0 {
        s
    } else {
        s.insert(DataKey::ContributorAt(id, count), Entry::Address(who)).insert(
            DataKey::ContributorSlot(id, who),
            Entry::Count((count + 1) as u32),
        ).insert(DataKey::ContributorCount(id), Entry::Count((count + 1) as u32))
    }
}

/// The entries once `who`, not the owner, has paid in `amount`.
pub open spec fn contributed(s: Store, id: u64, who: Address, amount: i128) -> Store {
    let prior = contribution_in(s, id, who);
    let total = partner_total(s, id).unwrap();
    (if prior == 0 {
        listed(s, id, who)
    } else {
        s
    }).insert(
        DataKey::ContributorAmount(id, who),
        Entry::Amount(saturated(prior + amount)),
    ).insert(
        DataKey::NonOwnerContributionTotal(id),
        Entry::Amount(saturated(total + amount)),
    )
}

/// Why a contribution is refused before its sender is asked for authorization.
pub open spec fn add_funds_denial(env: EnvView, id: u64, amount: i128) -> Option<Error> {
    if env.settings.paused {
        Some(Error::Paused)
    } else if amount <= 0 {
        Some(Error::InvalidContributionAmount)
    } else if amount < MIN_CONTRIBUTION_STROOPS {
        Some(Error::BelowMinimumContribution)
    } else {
        match event_in(env.store, id) {
            None => Some(Error::EventNotFound),
            Some(event) => if event.status != EventStatus::Active {
                Some(Error::EventNotActive)
            } else {
                None
            },
        }
    }
}

/// Why a contribution is refused after its sender has been asked for authorization.
pub open spec fn add_funds_refusal(env: EnvView, id: u64, from: Address, op_id: Bytes32) -> Option<
    Error,
> {
    if seen_in(env.store, from, op_id) {
        Some(Error::DuplicateOperation)
    } else if from == event_in(env.store, id).unwrap().owner {
        None
    } else if partner_total(env.store, id) is Err {
        Some(Error::CancellationTotalMissing)
    } else if contribution_in(env.store, id, from) == 0 && no_room_for(env.store, id, from) {
        Some(Error::TooManyContributors)
    } else {
        None
    }
}

/// The event once `amount` has been paid in.
pub open spec fn topped_up(event: EventRecord, amount: i128) -> EventRecord {
    EventRecord { remaining_escrow: saturated(event.remaining_escrow + amount), ..event }
}

/// The environment once a contribution has been made.
pub open spec fn funds_added(
    env: EnvView,
    id: u64,
    from: Address,
    amount: i128,
    op_id: Bytes32,
) -> EnvView {
    let event = event_in(env.store, id).unwrap();
    let after = topped_up(event, amount);
    let s = if from == event.owner {
        env.store
    } else {
        contributed(env.store, id, from, amount)
    };
    let asked = env.authorized_by(from);
    let paid = if event.pillar == Pillar::Crowdfunding {
        taken_in(asked, event.token, from, amount)
    } else {
        deposited(
            asked,
            event.token,
            from,
            amount,
            fee_rate(env.settings, event.fee_bps_override),
        )
    };
    marked_seen(
        paid.with_store(s).put(DataKey::Event(id), Entry::Event(after)).with(
            Effect::Publish(
                Event::FundsAdded {
                    event_id: id,
                    contributor: from,
                    amount,
                    new_remaining: after.remaining_escrow,
                },
            ),
        ),
        from,
        op_id,
    )
}

/// What others than the owner have paid in; written down as zero where nobody has.
pub(crate) fn get_or_init_non_owner_total(env: &mut Env, event_id: u64) -> (r: Result<i128, Error>)
    ensures
        r == partner_total(old(env)@.store, event_id),
        final(env)@ == if non_owner_total_in(old(env)@.store, event_id) is None && r is Ok {
            old(env)@.put(DataKey::NonOwnerContributionTotal(event_id), Entry::Amount(0))
        } else {
            old(env)@
        },
        writes_behind(
            *old(env),
            *final(env),
            non_owner_total_in(old(env)@.store, event_id) is None && r is Ok,
        ),
{
    match env.storage.amount(DataKey::NonOwnerContributionTotal(event_id)) {
        Some(total) => Ok(total),
        None => {
            if env.storage.count(DataKey::ContributorCount(event_id)) == 0 {
                env.put(DataKey::NonOwnerContributionTotal(event_id), Entry::Amount(0));
                Ok(0)
            } else {
                Err(Error::CancellationTotalMissing)
            }
        },
    }
}

/// Puts `who` into the list of contributors, once.
fn append_contributor(env: &mut Env, event_id: u64, who: Address) -> (r: Result<(), Error>)
    ensures
        r == if no_room_for(old(env)@.store, event_id, who) {
            Err::<(), Error>(Error::TooManyContributors)
        } else {
            Ok(())
        },
        final(env)@ == if r is Ok {
            old(env)@.with_store(listed(old(env)@.store, event_id, who))
        } else {
            old(env)@
        },
        writes_behind(*old(env), *final(env), r is Ok),
{
    if env.storage.count(DataKey::ContributorSlot(event_id, who)) != 0 {
        return Ok(());
    }
    let count: u32 = env.storage.count(DataKey::ContributorCount(event_id));
    if count == u32::MAX {
        return Err(Error::TooManyContributors);
    }
    env.put(DataKey::ContributorAt(event_id, count), Entry::Address(who));
    env.put(DataKey::ContributorSlot(event_id, who), Entry::Count(count + 1));
    env.put(DataKey::ContributorCount(event_id), Entry::Count(count + 1));
    Ok(())
}

/// Pays `amount` into the escrow of an active event. The fee comes on top of it; a
/// crowdfunding contribution bears none. What others than the owner pay in is kept by
/// contributor and in total, for a refund.
pub fn add_funds(
    env: &mut Env,
    event_id: u64,
    from: Address,
    amount: i128,
    op_id: Bytes32,
) -> (r: Result<(), Error>)
    ensures
        match add_funds_denial(old(env)@, event_id, amount) {
            Some(error) => r == Err::<(), Error>(error) && final(env)@ == old(env)@,
            None => match add_funds_refusal(old(env)@, event_id, from, op_id) {
                Some(error) => r == Err::<(), Error>(error) && final(env)@
                    == old(env)@.authorized_by(from),
                None => r == Ok::<(), Error>(()) && final(env)@ == funds_added(
                    old(env)@,
                    event_id,
                    from,
                    amount,
                    op_id,
                ),
            },
        },
        writes_behind(*old(env), *final(env), r is Ok),
{
    if env.settings.paused {
        return Err(Error::Paused);
    }
    if amount <= 0 {
        return Err(Error::InvalidContributionAmount);
    }
    if amount < MIN_CONTRIBUTION_STROOPS {
        return Err(Error::BelowMinimumContribution);
    }
    let mut event: EventRecord = match env.storage.event(event_id) {
        Some(event) => event,
        None => return Err(Error::EventNotFound),
    };
    if event.status != EventStatus::Active {
        return Err(Error::EventNotActive);
    }
    let ghost pre = env@.authorized_by(from);
    env.require_auth(from);
    require_unseen(env, from, op_id)?;

    let is_non_owner: bool = from != event.owner;
    let prior_contribution: i128 = if is_non_owner {
        env.storage.contribution(event_id, from)
    } else {
        0
    };
    let non_owner_total_before: i128 = if is_non_owner {
        get_or_init_non_owner_total(env, event_id)?
    } else {
        0
    };
    if is_non_owner && prior_contribution == 0 {
        append_contributor(env, event_id, from)?;
    }
    let credited: i128 = if event.pillar == Pillar::Crowdfunding {
        deposit_no_fee(env, event.token, from, amount)
    } else {
        let bps: u32 = effective_fee_bps(env, event.fee_bps_override);
        deposit_with_fee_at(env, event.token, from, amount, bps)
    };
    event.remaining_escrow = saturating_add(event.remaining_escrow, credited);
    let new_remaining: i128 = event.remaining_escrow;

    if is_non_owner {
        env.put(
            DataKey::ContributorAmount(event_id, from),
            Entry::Amount(saturating_add(prior_contribution, credited)),
        );
        env.put(
            DataKey::NonOwnerContributionTotal(event_id),
            Entry::Amount(saturating_add(non_owner_total_before, credited)),
        );
        assert(env@.store =~= contributed(pre.store, event_id, from, amount));
    }
    env.put(DataKey::Event(event_id), Entry::Event(event));
    env.publish(
        Event::FundsAdded { event_id, contributor: from, amount: credited, new_remaining },
    );
    mark_seen(env, from, op_id);
    Ok(())
}

} // verus!
