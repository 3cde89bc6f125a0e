//! Who may pay into an event, and what comes of it.
use crate::env::{Effect, Env, EnvView, Event, Transfer};
use crate::errors::Error;
use crate::event_ops::funds::add_funds;
use crate::laws::shares::lemma_share_floor;
use crate::storage::{
    contribution_in, contributor_count_in, count_in, event_in, flag_in, non_owner_total_in, Entry,
};
use crate::types::{Address, Bytes32, DataKey, EventRecord, EventStatus, Pillar};
use vstd::prelude::*;

verus! {

/// Whoever wants to may pay ten tokens of seven decimals or more into any active event, of
/// whatever pillar, while the contract is not paused, once for each identifier of an
/// operation: nothing else is asked of the owner, and of others only that the books know
/// what has been paid in and have room for them.
pub proof fn law_anyone_may_contribute_to_active_event(
    env: &mut Env,
    id: u64,
    from: Address,
    amount: i128,
    op_id: Bytes32,
    r: Result<(), Error>,
)
    requires
        call_ensures(add_funds, (env, id, from, amount, op_id), r),
    ensures
        r is Ok <==> ({
            let s = old(env)@.store;
            &&& !old(env)@.settings.paused
            &&& amount >= 100_000_000
            &&& event_in(s, id) is Some
            &&& event_in(s, id).unwrap().status == EventStatus::Active
            &&& !flag_in(s, DataKey::OpSeen(from, op_id))
            &&& from == event_in(s, id).unwrap().owner || {
                &&& non_owner_total_in(s, id) is Some || contributor_count_in(s, id) == 0
                &&& contribution_in(s, id, from) != 0 || count_in(
                    s,
                    DataKey::ContributorSlot(id, from),
                ) != 0 || contributor_count_in(s, id) < u32::MAX
            }
        }),
{
}

/// A contribution that is refused is refused for the first of these reasons that holds,
/// and leaves no trace but that its sender was asked, if it got that far.
pub proof fn law_refused_contribution_says_why(
    env: &mut Env,
    id: u64,
    from: Address,
    amount: i128,
    op_id: Bytes32,
    r: Result<(), Error>,
)
    requires
        call_ensures(add_funds, (env, id, from, amount, op_id), r),
    ensures
        old(env)@.settings.paused ==> r == Err::<(), Error>(Error::Paused),
        !old(env)@.settings.paused ==> {
            let s = old(env)@.store;
            let event = event_in(s, id);
            &&& amount <= 0 ==> r == Err::<(), Error>(Error::InvalidContributionAmount)
            &&& 0 < amount < 100_000_000 ==> r == Err::<(), Error>(Error::BelowMinimumContribution)
            &&& amount >= 100_000_000 && event is None ==> r == Err::<(), Error>(
                Error::EventNotFound,
            )
            &&& amount >= 100_000_000 && event is Some && event.unwrap().status
                != EventStatus::Active ==> r == Err::<(), Error>(Error::EventNotActive)
            &&& amount >= 100_000_000 && event is Some && event.unwrap().status
                == EventStatus::Active ==> {
                let seen = flag_in(s, DataKey::OpSeen(from, op_id));
                let missing = from != event.unwrap().owner && non_owner_total_in(s, id) is None
                    && contributor_count_in(s, id) > 0;
                &&& seen ==> r == Err::<(), Error>(Error::DuplicateOperation)
                &&& !seen && missing ==> r == Err::<(), Error>(Error::CancellationTotalMissing)
                &&& !seen && !missing && r is Err ==> r == Err::<(), Error>(
                    Error::TooManyContributors,
                )
                &&& final(env)@.auths == old(env)@.auths.push(from)
            }
            &&& amount < 100_000_000 || event is None || event.unwrap().status
                != EventStatus::Active ==> final(env)@.auths == old(env)@.auths
        },
        old(env)@.settings.paused ==> final(env)@.auths == old(env)@.auths,
        r is Err ==> final(env)@ == (EnvView { auths: final(env)@.auths, ..old(env)@ }),
{
}

/// Whoever contributes to an event pays the contribution to the contract, all of it, and
/// on top of it to the fee account the part of it that the event's own fee rate stands
/// for, or the platform's where the event has none: the ten-thousandths rounded down. A
/// crowdfunding contribution bears no fee, and a fee of nothing is not paid.
pub proof fn law_contribution_is_paid_with_its_fee(
    env: &mut Env,
    id: u64,
    from: Address,
    amount: i128,
    op_id: Bytes32,
    r: Result<(), Error>,
    event: EventRecord,
    rate: u32,
)
    requires
        call_ensures(add_funds, (env, id, from, amount, op_id), r),
        r is Ok,
        event_in(old(env)@.store, id) == Some(event),
        event.fee_bps_override == Some(rate) || event.fee_bps_override is None && rate
            == old(env)@.settings.fee_bps,
    ensures
        ({
            let before = old(env)@.effects;
            let after = final(env)@.effects;
            let n = before.len() as int;
            let paid = Effect::Transfer(
                Transfer { token: event.token, from, to: old(env)@.contract, amount },
            );
            let sum = event.remaining_escrow + amount;
            let announced = Effect::Publish(
                Event::FundsAdded {
                    event_id: id,
                    contributor: from,
                    amount,
                    new_remaining: if sum > i128::MAX {
                        i128::MAX
                    } else {
                        sum as i128
                    },
                },
            );
            if event.pillar == Pillar::Crowdfunding || amount * rate < 10_000 {
                after == before.push(paid).push(announced)
            } else {
                &&& after == before.push(paid).push(after[n + 1]).push(announced)
                &&& after[n + 1] matches Effect::Transfer(fee) && {
                    &&& fee.token == event.token
                    &&& fee.from == from
                    &&& fee.to == old(env)@.settings.fee_account
                    &&& amount * rate <= i128::MAX ==> 10_000 * fee.amount <= amount * rate < 10_000
                        * fee.amount + 10_000
                    &&& amount * rate > i128::MAX ==> 10_000 * fee.amount <= i128::MAX < 10_000
                        * fee.amount + 10_000
                }
            }
        }),
{
    lemma_share_floor(amount as int, rate as int, 10_000);
    assert(rate == 0 ==> amount * rate == 0) by (nonlinear_arith);
}

/// A contribution raises the event's escrow by its amount and, where it is not the
/// owner's, what its sender and what all others than the owner have paid in; the sender
/// goes to the end of the list where nothing of the sender's was there and the sender has
/// no place in it. Nothing else is written but that the operation is done, and the event
/// stays as it was.
pub proof fn law_contribution_is_booked(
    env: &mut Env,
    id: u64,
    from: Address,
    amount: i128,
    op_id: Bytes32,
    r: Result<(), Error>,
    event: EventRecord,
)
    requires
        call_ensures(add_funds, (env, id, from, amount, op_id), r),
        r is Ok,
        event_in(old(env)@.store, id) == Some(event),
    ensures
        final(env)@ == (EnvView {
            store: final(env)@.store,
            auths: old(env)@.auths.push(from),
            effects: final(env)@.effects,
            ..old(env)@
        }),
        ({
            let s = old(env)@.store;
            let prior = contribution_in(s, id, from);
            let total = match non_owner_total_in(s, id) {
                Some(total) => total,
                None => 0,
            };
            let count = contributor_count_in(s, id);
            let escrow = event.remaining_escrow + amount;
            let capped = |x: int|
                if x > i128::MAX {
                    i128::MAX
                } else {
                    x as i128
                };
            let done = s.insert(DataKey::OpSeen(from, op_id), Entry::Flag(true)).insert(
                DataKey::Event(id),
                Entry::Event(EventRecord { remaining_escrow: capped(escrow), ..event }),
            );
            let booked = done.insert(
                DataKey::ContributorAmount(id, from),
                Entry::Amount(capped(prior + amount)),
            ).insert(DataKey::NonOwnerContributionTotal(id), Entry::Amount(capped(total + amount)));
            if from == event.owner {
                final(env)@.store == done
            } else if prior != 0 || count_in(s, DataKey::ContributorSlot(id, from)) != 0 {
                final(env)@.store == booked
            } else {
                final(env)@.store == booked.insert(
                    DataKey::ContributorAt(id, count),
                    Entry::Address(from),
                ).insert(
                    DataKey::ContributorSlot(id, from),
                    Entry::Count((count + 1) as u32),
                ).insert(DataKey::ContributorCount(id), Entry::Count((count + 1) as u32))
            }
        }),
{
}

} // verus!
