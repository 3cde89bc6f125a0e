//! Who may claim a prize, and what comes of it.
use crate::env::{Effect, Env, EnvView, Event, ProfileCall, Reason, Transfer};
use crate::errors::Error;
use crate::event_ops::winners::claim_prize;
use crate::host::{sha256_of, Text};
use crate::idempotency::{child_input, derive_child};
use crate::storage::{award_in, event_in, flag_in, unclaimed_in, winner_in, Entry};
use crate::types::{
    Bytes32, DataKey, EventRecord, EventStatus, PrizeAward, ReleaseKind, Winner,
};
use vstd::prelude::*;

verus! {

/// Whoever was awarded a position of an active event that pays its prizes in one piece may
/// claim its prize while the contract is not paused: the row that the award points to is
/// the winner's, is not paid, is worth something and the escrow covers it, and the
/// operation is new to the winner. There is no last day for that.
pub proof fn law_winner_may_claim(
    env: &mut Env,
    id: u64,
    position: u32,
    op_id: Bytes32,
    r: Result<(), Error>,
)
    requires
        call_ensures(claim_prize, (env, id, position, op_id), r),
    ensures
        ({
            let s = old(env)@.store;
            let paused = old(env)@.settings.paused;
            let there = event_in(s, id) is Some;
            let event = event_in(s, id).unwrap();
            let active = there && event.status == EventStatus::Active;
            let single = event.release_kind == ReleaseKind::Single;
            let award = award_in(s, id, position).unwrap();
            let asked = !paused && active && single && award_in(s, id, position) is Some;
            let seen = flag_in(s, DataKey::OpSeen(award.recipient, op_id));
            let row = winner_in(s, id, award.anchor_idx);
            let own = row is Some && row.unwrap().recipient == award.recipient
                && row.unwrap().position == position;
            let paid = row.unwrap().paid_at is Some;
            let worth = row.unwrap().amount > 0;
            let covered = row.unwrap().amount <= event.remaining_escrow;
            &&& r is Ok <==> asked && !seen && own && !paid && worth && covered
            &&& paused ==> r == Err::<(), Error>(Error::Paused)
            &&& !paused && !there ==> r == Err::<(), Error>(Error::EventNotFound)
            &&& !paused && there && !active ==> r == Err::<(), Error>(Error::EventNotActive)
            &&& !paused && active && !single ==> r == Err::<(), Error>(Error::InvalidReleaseKind)
            &&& !paused && active && single && !asked ==> r == Err::<(), Error>(
                Error::InvalidWinnerPosition,
            )
            &&& asked && seen ==> r == Err::<(), Error>(Error::DuplicateOperation)
            &&& asked && !seen && !own ==> r == Err::<(), Error>(Error::InvalidWinnerPosition)
            &&& asked && !seen && own && paid ==> r == Err::<(), Error>(Error::PrizeAlreadyClaimed)
            &&& asked && !seen && own && !paid && !worth ==> r == Err::<(), Error>(
                Error::InvalidDistribution,
            )
            &&& asked && !seen && own && !paid && worth && !covered ==> r == Err::<(), Error>(
                Error::InsufficientEscrow,
            )
            &&& final(env)@.auths == if asked {
                old(env)@.auths.push(award.recipient)
            } else {
                old(env)@.auths
            }
        }),
        r is Err ==> final(env)@ == (EnvView { auths: final(env)@.auths, ..old(env)@ }),
{
}

/// A claim pays the winner what the winner's row says, to the last unit, out of the
/// event's escrow, and the row says when; one prize less is waiting, and an event whose
/// escrow is empty is complete. The payment is announced, and the winner's profile hears
/// of it in three calls, each under an identifier of its own.
pub proof fn law_claim_pays_the_row(
    env: &mut Env,
    id: u64,
    position: u32,
    op_id: Bytes32,
    r: Result<(), Error>,
    event: EventRecord,
    award: PrizeAward,
    row: Winner,
    host: &Text,
    children: (Bytes32, Bytes32, Bytes32),
)
    requires
        call_ensures(claim_prize, (env, id, position, op_id), r),
        r is Ok,
        event_in(old(env)@.store, id) == Some(event),
        award_in(old(env)@.store, id, position) == Some(award),
        winner_in(old(env)@.store, id, award.anchor_idx) == Some(row),
        call_ensures(derive_child, (host, op_id, 1u8), children.0),
        call_ensures(derive_child, (host, op_id, 2u8), children.1),
        call_ensures(derive_child, (host, op_id, 3u8), children.2),
    ensures
        ({
            let s = old(env)@.store;
            let user = award.recipient;
            let left = event.remaining_escrow - row.amount;
            let waiting = unclaimed_in(s, id);
            final(env)@ == (EnvView {
                store: s.insert(DataKey::OpSeen(user, op_id), Entry::Flag(true)).insert(
                    DataKey::EventWinnerAt(id, award.anchor_idx),
                    Entry::Winner(
                        Winner { milestone: None, paid_at: Some(old(env)@.timestamp), ..row },
                    ),
                ).insert(
                    DataKey::EventUnclaimedPrizes(id),
                    Entry::Count(
                        if waiting == 0 {
                            0
                        } else {
                            (waiting - 1) as u32
                        },
                    ),
                ).insert(
                    DataKey::Event(id),
                    Entry::Event(
                        EventRecord {
                            remaining_escrow: left as i128,
                            status: if left == 0 {
                                EventStatus::Completed
                            } else {
                                EventStatus::Active
                            },
                            ..event
                        },
                    ),
                ),
                auths: old(env)@.auths.push(user),
                effects: old(env)@.effects.push(
                    Effect::Transfer(
                        Transfer {
                            token: event.token,
                            from: old(env)@.contract,
                            to: user,
                            amount: row.amount,
                        },
                    ),
                ).push(
                    Effect::Publish(
                        Event::WinnerPaid {
                            event_id: id,
                            recipient: user,
                            position,
                            amount: row.amount,
                            milestone: None,
                        },
                    ),
                ).push(
                    Effect::Profile(ProfileCall::Bootstrap { user, op_id: children.0 }),
                ).push(
                    Effect::Profile(
                        ProfileCall::BumpReputation {
                            user,
                            bump: award.reputation_bump,
                            reason: Reason::Win,
                            op_id: children.1,
                        },
                    ),
                ).push(
                    Effect::Profile(
                        ProfileCall::RegisterEarnings {
                            user,
                            token: event.token,
                            amount: row.amount,
                            op_id: children.2,
                        },
                    ),
                ),
                ..old(env)@
            })
        }),
{
}

/// The identifier of a part is the hash of its bytes, whatever text the hash is asked of.
pub proof fn law_part_is_hash_of_its_bytes(host: &Text, op_id: Bytes32, part: u8, r: Bytes32)
    requires
        call_ensures(derive_child, (host, op_id, part), r),
    ensures
        (r.high, r.low) == sha256_of(child_input(op_id, part)),
{
}

} // verus!
