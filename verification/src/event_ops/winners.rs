//! Selecting winners, and winners claiming their prizes.
use crate::amounts::{saturated, saturating_add, saturating_sub, share, share_of};
use crate::env::{writes_behind, Effect, Env, EnvView, Event, ProfileCall, Reason};
use crate::errors::Error;
use crate::escrow::{release, released};
use crate::event_ops::manager::{event_to_change, manager_of_event, no_event, resolve_manager};
use crate::event_ops::{MAX_WINNERS_PER_SELECT, PRIZE_CLAIM_WINDOW_SECS};
use crate::host::{text_clone, value_at, Positions, Text};
use crate::idempotency::{
    child_of, derive_child, mark_seen, marked_seen, require_unseen, seen_in, BOOTSTRAP, BUMP_REP,
    REGISTER_EARNINGS,
};
use crate::storage::{
    award_in, base_escrow_in, claim_expiry_in, continues, entry_in, event_in, unclaimed_in,
    winner_count_in, winner_in, Entry, Store,
};
use crate::types::{
    Address, Bytes32, DataKey, EventRecord, EventStatus, Pillar, PrizeAward, ReleaseKind, Winner,
    WinnerSpec,
};
use vstd::prelude::*;

verus! {

pub const WHOLE_PERCENT: i128 = 100;

/// The prize that `percent` of an escrow of `base` makes.
pub open spec fn prize(base: i128, percent: u32) -> i128 {
    share(base as int, percent as int, WHOLE_PERCENT as int)
}

/// The prize of a position.
pub open spec fn prize_of(base: i128, distribution: Seq<(u32, u32)>, position: u32) -> i128 {
    match value_at(distribution, position) {
        Some(percent) => prize(base, percent),
        None => 0,
    }
}

/// Whether one of the first `count` winners is not tied to a milestone.
pub open spec fn has_plain_row(s: Store, id: u64, count: u32) -> bool {
    exists|idx: u32| idx < count && is_plain_row(s, id, idx)
}

pub open spec fn is_plain_row(s: Store, id: u64, idx: u32) -> bool {
    winner_in(s, id, idx) matches Some(winner) && winner.milestone is None
}

/// Whether the winners of the event are settled. An event that pays prizes in one piece
/// may select winners in several goes, except where it has winners from a time at which
/// the escrow to split was not written down. An event that pays in milestones selects
/// its winners once.
pub open spec fn selection_closed(s: Store, id: u64) -> bool {
    let count = winner_count_in(s, id);
    match event_in(s, id).unwrap().release_kind {
        ReleaseKind::Single => count > 0 && base_escrow_in(s, id) is None,
        ReleaseKind::Multi(_) => has_plain_row(s, id, count),
    }
}

/// Whether one of the first `n` winners takes `position`.
pub open spec fn takes_position(winners: Seq<WinnerSpec>, n: int, position: u32) -> bool {
    exists|j: int| 0 <= j < n && #[trigger] winners[j].position == position
}

/// What is wrong with the first of the first `n` winners whose position is taken or wins
/// nothing.
pub open spec fn bad_position(
    winners: Seq<WinnerSpec>,
    distribution: Seq<(u32, u32)>,
    n: int,
) -> Option<Error>
    decreases n,
{
    if n <= 0 {
        None
    } else if bad_position(winners, distribution, n - 1) is Some {
        bad_position(winners, distribution, n - 1)
    } else if takes_position(winners, n - 1, winners[n - 1].position) {
        Some(Error::DuplicateWinnerPosition)
    } else if value_at(distribution, winners[n - 1].position) is None {
        Some(Error::InvalidWinnerPosition)
    } else {
        None
    }
}

/// What is wrong with the first of the first `n` winners whose position has been awarded
/// before or is worth nothing.
pub open spec fn bad_prize(
    s: Store,
    id: u64,
    winners: Seq<WinnerSpec>,
    distribution: Seq<(u32, u32)>,
    base: i128,
    n: int,
) -> Option<Error>
    decreases n,
{
    if n <= 0 {
        None
    } else if bad_prize(s, id, winners, distribution, base, n - 1) is Some {
        bad_prize(s, id, winners, distribution, base, n - 1)
    } else if award_in(s, id, winners[n - 1].position) is Some {
        Some(Error::DuplicateWinnerPosition)
    } else if prize_of(base, distribution, winners[n - 1].position) <= 0 {
        Some(Error::InvalidDistribution)
    } else {
        None
    }
}

/// What the prizes of the first `n` winners come to.
pub open spec fn owed(
    winners: Seq<WinnerSpec>,
    distribution: Seq<(u32, u32)>,
    base: i128,
    n: int,
) -> i128
    decreases n,
{
    if n <= 0 {
        0
    } else {
        saturated(
            owed(winners, distribution, base, n - 1) + prize_of(
                base,
                distribution,
                winners[n - 1].position,
            ),
        )
    }
}

/// The escrow that the prizes of an event are a part of: what it held when its first
/// winners were selected.
pub open spec fn prize_base(s: Store, id: u64) -> i128 {
    match base_escrow_in(s, id) {
        Some(base) => base,
        None => event_in(s, id).unwrap().remaining_escrow,
    }
}

/// Why a selection is refused before the manager is asked for authorization.
pub open spec fn select_denial(env: EnvView, id: u64) -> Option<Error> {
    if no_event(env, id) is Some {
        no_event(env, id)
    } else if event_in(env.store, id).unwrap().status != EventStatus::Active {
        Some(Error::EventNotActive)
    } else if event_in(env.store, id).unwrap().pillar == Pillar::Crowdfunding {
        Some(Error::InvalidPillar)
    } else {
        None
    }
}

/// Why a selection is refused after the manager has been asked for authorization.
pub open spec fn select_refusal(
    env: EnvView,
    id: u64,
    winners: Seq<WinnerSpec>,
    op_id: Bytes32,
) -> Option<Error> {
    let s = env.store;
    let event = event_in(s, id).unwrap();
    let distribution = event.winner_distribution@;
    let base = prize_base(s, id);
    let n = winners.len() as int;
    if seen_in(s, manager_of_event(s, id), op_id) {
        Some(Error::DuplicateOperation)
    } else if selection_closed(s, id) {
        Some(Error::WinnersAlreadySelected)
    } else if n == 0 {
        Some(Error::NoSubmissions)
    } else if n > MAX_WINNERS_PER_SELECT {
        Some(Error::InvalidWinnerPosition)
    } else if bad_position(winners, distribution, n) is Some {
        bad_position(winners, distribution, n)
    } else if event.release_kind != ReleaseKind::Single {
        None
    } else if bad_prize(s, id, winners, distribution, base, n) is Some {
        bad_prize(s, id, winners, distribution, base, n)
    } else if owed(winners, distribution, base, n) > event.remaining_escrow {
        Some(Error::InsufficientEscrow)
    } else {
        None
    }
}

/// The row of a winner who has not been paid.
pub open spec fn unpaid_row(winner: WinnerSpec, amount: i128) -> Winner {
    Winner {
        recipient: winner.recipient,
        position: winner.position,
        amount,
        milestone: None,
        paid_at: None,
    }
}

/// The entries once a row has been added to the list of winners.
pub open spec fn row_added(s: Store, id: u64, row: Winner) -> Store {
    let count = winner_count_in(s, id);
    s.insert(DataKey::EventWinnerAt(id, count), Entry::Winner(row)).insert(
        DataKey::EventWinnerCount(id),
        Entry::Count((count + 1) as u32),
    )
}

/// The entries once a winner is in the list and the position is awarded.
pub open spec fn prize_awarded(s: Store, id: u64, winner: WinnerSpec, amount: i128) -> Store {
    row_added(s, id, unpaid_row(winner, amount)).insert(
        DataKey::EventPrizeAward(id, winner.position),
        Entry::Award(
            PrizeAward {
                recipient: winner.recipient,
                anchor_idx: winner_count_in(s, id),
                reputation_bump: winner.reputation_bump,
            },
        ),
    )
}

/// The entries once the first `n` winners have been awarded their prizes.
pub open spec fn prizes_awarded(
    s: Store,
    id: u64,
    winners: Seq<WinnerSpec>,
    distribution: Seq<(u32, u32)>,
    base: i128,
    n: int,
) -> Store
    decreases n,
{
    if n <= 0 {
        s
    } else {
        prize_awarded(
            prizes_awarded(s, id, winners, distribution, base, n - 1),
            id,
            winners[n - 1],
            prize_of(base, distribution, winners[n - 1].position),
        )
    }
}

/// The entries once the first `n` winners are in the list, with nothing to their name
/// before their first milestone.
pub open spec fn rows_added(s: Store, id: u64, winners: Seq<WinnerSpec>, n: int) -> Store
    decreases n,
{
    if n <= 0 {
        s
    } else {
        row_added(rows_added(s, id, winners, n - 1), id, unpaid_row(winners[n - 1], 0))
    }
}

/// The entries once the escrow that the prizes are a part of is written down.
pub open spec fn base_recorded(s: Store, id: u64) -> Store {
    if base_escrow_in(s, id) is Some {
        s
    } else {
        s.insert(DataKey::EventPrizeBaseEscrow(id), Entry::Amount(prize_base(s, id)))
    }
}

/// The entries once winners have until `expiry` to claim; time given before is not taken
/// away.
pub open spec fn expiry_extended(s: Store, id: u64, expiry: u64) -> Store {
    let current = match claim_expiry_in(s, id) {
        Some(current) => current,
        None => 0,
    };
    if expiry > current {
        s.insert(DataKey::EventPrizeClaimExpiry(id), Entry::Number(expiry))
    } else {
        s
    }
}

/// The entries once winners have been selected.
pub open spec fn selected(s: Store, id: u64, winners: Seq<WinnerSpec>, now: u64) -> Store {
    let event = event_in(s, id).unwrap();
    let n = winners.len() as int;
    let listed = match event.release_kind {
        ReleaseKind::Single => expiry_extended(
            prizes_awarded(
                base_recorded(s, id),
                id,
                winners,
                event.winner_distribution@,
                prize_base(s, id),
                n,
            ).insert(
                DataKey::EventUnclaimedPrizes(id),
                Entry::Count(unclaimed_in(s, id).saturating_add(n as u32)),
            ),
            id,
            now.saturating_add(PRIZE_CLAIM_WINDOW_SECS),
        ),
        ReleaseKind::Multi(_) => rows_added(s, id, winners, n),
    };
    listed.insert(DataKey::Event(id), Entry::Event(event))
}

/// The environment once winners have been selected.
pub open spec fn winners_recorded(
    env: EnvView,
    id: u64,
    winners: Seq<WinnerSpec>,
    op_id: Bytes32,
) -> EnvView {
    let manager = manager_of_event(env.store, id);
    marked_seen(
        env.authorized_by(manager).with_store(
            selected(env.store, id, winners, env.timestamp),
        ).with(
            Effect::Publish(Event::WinnersSelected { event_id: id, count: winners.len() as u32 }),
        ),
        manager,
        op_id,
    )
}

/// Why a claim is refused before the winner is asked for authorization.
pub open spec fn claim_denial(env: EnvView, id: u64, position: u32) -> Option<Error> {
    if no_event(env, id) is Some {
        no_event(env, id)
    } else if event_in(env.store, id).unwrap().status != EventStatus::Active {
        Some(Error::EventNotActive)
    } else if event_in(env.store, id).unwrap().release_kind != ReleaseKind::Single {
        Some(Error::InvalidReleaseKind)
    } else if award_in(env.store, id, position) is None {
        Some(Error::InvalidWinnerPosition)
    } else {
        None
    }
}

/// The row that the award of a position points to, if it is the winner's.
pub open spec fn anchor_in(s: Store, id: u64, position: u32) -> Option<Winner> {
    let award = award_in(s, id, position).unwrap();
    match winner_in(s, id, award.anchor_idx) {
        Some(row) => if row.recipient == award.recipient && row.position == position {
            Some(row)
        } else {
            None
        },
        None => None,
    }
}

/// Why a claim is refused after the winner has been asked for authorization.
pub open spec fn claim_refusal(env: EnvView, id: u64, position: u32, op_id: Bytes32) -> Option<
    Error,
> {
    let s = env.store;
    if seen_in(s, award_in(s, id, position).unwrap().recipient, op_id) {
        Some(Error::DuplicateOperation)
    } else {
        match anchor_in(s, id, position) {
            None => Some(Error::InvalidWinnerPosition),
            Some(row) => if row.paid_at is Some {
                Some(Error::PrizeAlreadyClaimed)
            } else if row.amount <= 0 {
                Some(Error::InvalidDistribution)
            } else if row.amount > event_in(s, id).unwrap().remaining_escrow {
                Some(Error::InsufficientEscrow)
            } else {
                None
            },
        }
    }
}

/// The event once a prize of `amount` has been paid out of its escrow.
pub open spec fn paid_down(event: EventRecord, amount: i128) -> EventRecord {
    let left = saturated(event.remaining_escrow - amount);
    EventRecord {
        remaining_escrow: left,
        status: if left == 0 {
            EventStatus::Completed
        } else {
            event.status
        },
        ..event
    }
}

/// The entries once the prize of a position has been claimed at time `now`.
pub open spec fn prize_paid(s: Store, id: u64, position: u32, now: u64) -> Store {
    let award = award_in(s, id, position).unwrap();
    let row = anchor_in(s, id, position).unwrap();
    s.insert(
        DataKey::EventWinnerAt(id, award.anchor_idx),
        Entry::Winner(
            Winner {
                recipient: row.recipient,
                position,
                amount: row.amount,
                milestone: None,
                paid_at: Some(now),
            },
        ),
    ).insert(
        DataKey::EventUnclaimedPrizes(id),
        Entry::Count(unclaimed_in(s, id).saturating_sub(1)),
    ).insert(DataKey::Event(id), Entry::Event(paid_down(event_in(s, id).unwrap(), row.amount)))
}

/// The environment once the prize of a position has been claimed: the entries are
/// written before the tokens leave, and the profile contract hears of it last.
pub open spec fn prize_claimed(env: EnvView, id: u64, position: u32, op_id: Bytes32) -> EnvView {
    let award = award_in(env.store, id, position).unwrap();
    let amount = anchor_in(env.store, id, position).unwrap().amount;
    let user = award.recipient;
    let token = event_in(env.store, id).unwrap().token;
    released(
        marked_seen(
            env.authorized_by(user).with_store(prize_paid(env.store, id, position, env.timestamp)),
            user,
            op_id,
        ),
        token,
        user,
        amount,
    ).with(
        Effect::Publish(
            Event::WinnerPaid { event_id: id, recipient: user, position, amount, milestone: None },
        ),
    ).with(
        Effect::Profile(ProfileCall::Bootstrap { user, op_id: child_of(op_id, BOOTSTRAP) }),
    ).with(
        Effect::Profile(
            ProfileCall::BumpReputation {
                user,
                bump: award.reputation_bump,
                reason: Reason::Win,
                op_id: child_of(op_id, BUMP_REP),
            },
        ),
    ).with(
        Effect::Profile(
            ProfileCall::RegisterEarnings {
                user,
                token,
                amount,
                op_id: child_of(op_id, REGISTER_EARNINGS),
            },
        ),
    )
}

/// Checks that each winner takes a position of the distribution, and each another one.
fn check_positions(winners: &Vec<WinnerSpec>, event: &EventRecord) -> (r: Result<(), Error>)
    requires
        winners.len() <= MAX_WINNERS_PER_SELECT,
    ensures
        r == match bad_position(
            winners@,
            event.winner_distribution@,
            winners@.len() as int,
        ) {
            Some(error) => Err::<(), Error>(error),
            None => Ok(()),
        },
{
    let mut seen_positions: Positions = Positions::new(&event.winner_distribution);
    let mut i: usize = 0;
    while i < winners.len()
        invariant
            i <= winners.len() <= MAX_WINNERS_PER_SELECT,
            bad_position(winners@, event.winner_distribution@, i as int) is None,
            seen_positions@.len() == i,
            forall|j: int| 0 <= j < i ==> #[trigger] seen_positions@[j] == winners@[j].position,
        decreases winners.len() - i,
    {
        let position: u32 = winners[i].position;
        let taken: bool = seen_positions.contains(position);
        proof {
            lemma_seen_is_taken(winners@, seen_positions@, i as int, position);
        }
        let percent: Option<u32> = event.winner_distribution.get(position);
        i = i + 1;
        if taken {
            proof {
                lemma_bad_position_stays(
                    winners@,
                    event.winner_distribution@,
                    i as int,
                    winners@.len() as int,
                );
            }
            return Err(Error::DuplicateWinnerPosition);
        }
        if percent.is_none() {
            proof {
                lemma_bad_position_stays(
                    winners@,
                    event.winner_distribution@,
                    i as int,
                    winners@.len() as int,
                );
            }
            return Err(Error::InvalidWinnerPosition);
        }
        seen_positions = seen_positions.with(position);
    }
    Ok(())
}

/// The positions seen are those that winners have taken.
proof fn lemma_seen_is_taken(winners: Seq<WinnerSpec>, seen: Seq<u32>, n: int, position: u32)
    requires
        seen.len() == n <= winners.len(),
        forall|j: int| 0 <= j < n ==> #[trigger] seen[j] == winners[j].position,
    ensures
        seen.contains(position) == takes_position(winners, n, position),
{
    if takes_position(winners, n, position) {
        let j = choose|j: int| 0 <= j < n && #[trigger] winners[j].position == position;
        assert(seen[j] == position);
    }
    if seen.contains(position) {
        let j = choose|j: int| 0 <= j < seen.len() && seen[j] == position;
        assert(winners[j].position == position);
    }
}

/// The first bad position found among some winners is the first among more of them.
proof fn lemma_bad_position_stays(
    winners: Seq<WinnerSpec>,
    distribution: Seq<(u32, u32)>,
    m: int,
    n: int,
)
    requires
        m <= n,
        bad_position(winners, distribution, m) is Some,
    ensures
        bad_position(winners, distribution, n) == bad_position(winners, distribution, m),
    decreases n - m,
{
    if m < n {
        lemma_bad_position_stays(winners, distribution, m, n - 1);
    }
}

/// The first bad prize found among some winners is the first among more of them.
proof fn lemma_bad_prize_stays(
    s: Store,
    id: u64,
    winners: Seq<WinnerSpec>,
    distribution: Seq<(u32, u32)>,
    base: i128,
    m: int,
    n: int,
)
    requires
        m <= n,
        bad_prize(s, id, winners, distribution, base, m) is Some,
    ensures
        bad_prize(s, id, winners, distribution, base, n) == bad_prize(
            s,
            id,
            winners,
            distribution,
            base,
            m,
        ),
    decreases n - m,
{
    if m < n {
        lemma_bad_prize_stays(s, id, winners, distribution, base, m, n - 1);
    }
}

/// The prize of a position.
fn prize_for(base: i128, event: &EventRecord, position: u32) -> (r: i128)
    ensures
        r == prize_of(base, event.winner_distribution@, position),
{
    match event.winner_distribution.get(position) {
        Some(percent) => share_of(base, percent as i128, WHOLE_PERCENT),
        None => 0,
    }
}

/// Checks that no position has been awarded before, that each prize is worth something
/// and that the escrow covers them.
fn check_prizes(
    env: &Env,
    event_id: u64,
    winners: &Vec<WinnerSpec>,
    event: &EventRecord,
    base: i128,
) -> (r: Result<(), Error>)
    ensures
        r == match bad_prize(
            env@.store,
            event_id,
            winners@,
            event.winner_distribution@,
            base,
            winners@.len() as int,
        ) {
            Some(error) => Err::<(), Error>(error),
            None => if owed(winners@, event.winner_distribution@, base, winners@.len() as int)
                > event.remaining_escrow {
                Err(Error::InsufficientEscrow)
            } else {
                Ok(())
            },
        },
{
    let mut total_owed: i128 = 0;
    let mut i: usize = 0;
    while i < winners.len()
        invariant
            i <= winners.len(),
            bad_prize(
                env@.store,
                event_id,
                winners@,
                event.winner_distribution@,
                base,
                i as int,
            ) is None,
            total_owed == owed(winners@, event.winner_distribution@, base, i as int),
        decreases winners.len() - i,
    {
        let position: u32 = winners[i].position;
        let awarded: bool = env.storage.award(event_id, position).is_some();
        let amount: i128 = prize_for(base, event, position);
        i = i + 1;
        if awarded || amount <= 0 {
            proof {
                lemma_bad_prize_stays(
                    env@.store,
                    event_id,
                    winners@,
                    event.winner_distribution@,
                    base,
                    i as int,
                    winners@.len() as int,
                );
            }
            return Err(
                if awarded {
                    Error::DuplicateWinnerPosition
                } else {
                    Error::InvalidDistribution
                },
            );
        }
        total_owed = saturating_add(total_owed, amount);
    }
    if total_owed > event.remaining_escrow {
        return Err(Error::InsufficientEscrow);
    }
    Ok(())
}

/// Whether the winners of the event are settled.
fn is_selection_closed(env: &Env, event_id: u64, event: &EventRecord) -> (r: bool)
    requires
        event_in(env@.store, event_id) == Some(*event),
    ensures
        r == selection_closed(env@.store, event_id),
{
    let existing_count: u32 = env.storage.count(DataKey::EventWinnerCount(event_id));
    match event.release_kind {
        ReleaseKind::Single => existing_count > 0 && env.storage.amount(
            DataKey::EventPrizeBaseEscrow(event_id),
        ).is_none(),
        ReleaseKind::Multi(_) => {
            let mut idx: u32 = 0;
            while idx < existing_count
                invariant
                    idx <= existing_count,
                    existing_count == winner_count_in(env@.store, event_id),
                    event_in(env@.store, event_id) == Some(*event),
                    event.release_kind is Multi,
                    !has_plain_row(env@.store, event_id, idx),
                decreases existing_count - idx,
            {
                if let Some(winner) = env.storage.winner(event_id, idx) {
                    if winner.milestone.is_none() {
                        assert(is_plain_row(env@.store, event_id, idx));
                        return true;
                    }
                }
                idx = idx + 1;
            }
            false
        },
    }
}

/// Adds a row to the list of winners.
pub(crate) fn append_winner(env: &mut Env, event_id: u64, row: Winner)
    requires
        winner_count_in(old(env)@.store, event_id) < u32::MAX,
    ensures
        final(env)@ == old(env)@.with_store(row_added(old(env)@.store, event_id, row)),
        writes_behind(*old(env), *final(env), true),
{
    let count: u32 = env.storage.count(DataKey::EventWinnerCount(event_id));
    env.put(DataKey::EventWinnerAt(event_id, count), Entry::Winner(row));
    env.put(DataKey::EventWinnerCount(event_id), Entry::Count(count + 1));
}

/// Awards each winner the prize of the position, to be claimed within the window.
fn award_prizes(env: &mut Env, event_id: u64, winners: &Vec<WinnerSpec>, event: &EventRecord)
    requires
        event_in(old(env)@.store, event_id) == Some(*event),
        event.release_kind == ReleaseKind::Single,
        winners.len() <= MAX_WINNERS_PER_SELECT,
        winner_count_in(old(env)@.store, event_id) + winners.len() <= u32::MAX,
    ensures
        final(env)@.put(DataKey::Event(event_id), Entry::Event(*event)) == old(env)@.with_store(
            selected(old(env)@.store, event_id, winners@, old(env)@.timestamp),
        ),
        writes_behind(*old(env), *final(env), true),
{
    let ghost pre = env@;
    let existing_count: u32 = env.storage.count(DataKey::EventWinnerCount(event_id));
    let base_escrow: i128 = match env.storage.amount(DataKey::EventPrizeBaseEscrow(event_id)) {
        Some(base) => base,
        None => {
            let base: i128 = event.remaining_escrow;
            env.put(DataKey::EventPrizeBaseEscrow(event_id), Entry::Amount(base));
            base
        },
    };
    let ghost s = env@.store;
    assert(s == base_recorded(pre.store, event_id));
    let ghost distribution = event.winner_distribution@;
    let ghost written = env.storage.log@;
    let mut i: usize = 0;
    while i < winners.len()
        invariant
            i <= winners.len(),
            continues(env.storage.log@, written),
            existing_count + winners.len() <= u32::MAX,
            winner_count_in(env@.store, event_id) == existing_count + i,
            distribution == event.winner_distribution@,
            env@ == pre.with_store(
                prizes_awarded(s, event_id, winners@, distribution, base_escrow, i as int),
            ),
        decreases winners.len() - i,
    {
        let winner: WinnerSpec = winners[i];
        let amount: i128 = prize_for(base_escrow, event, winner.position);
        let anchor_idx: u32 = existing_count + i as u32;
        append_winner(
            env,
            event_id,
            Winner {
                recipient: winner.recipient,
                position: winner.position,
                amount,
                milestone: None,
                paid_at: None,
            },
        );
        env.put(
            DataKey::EventPrizeAward(event_id, winner.position),
            Entry::Award(
                PrizeAward {
                    recipient: winner.recipient,
                    anchor_idx,
                    reputation_bump: winner.reputation_bump,
                },
            ),
        );
        i = i + 1;
    }
    proof {
        let n = winners@.len() as int;
        let unclaimed = DataKey::EventUnclaimedPrizes(event_id);
        lemma_awarding_keeps(s, event_id, winners@, distribution, base_escrow, n, unclaimed);
    }
    let unclaimed: u32 = env.storage.count(DataKey::EventUnclaimedPrizes(event_id));
    env.put(
        DataKey::EventUnclaimedPrizes(event_id),
        Entry::Count(unclaimed.saturating_add(winners.len() as u32)),
    );
    let expiry: u64 = env.timestamp.saturating_add(PRIZE_CLAIM_WINDOW_SECS);
    let current: u64 = match env.storage.number(DataKey::EventPrizeClaimExpiry(event_id)) {
        Some(current) => current,
        None => 0,
    };
    if expiry > current {
        env.put(DataKey::EventPrizeClaimExpiry(event_id), Entry::Number(expiry));
    }
}

/// Awarding prizes touches only the list of winners and the awards.
pub proof fn lemma_awarding_keeps(
    s: Store,
    id: u64,
    winners: Seq<WinnerSpec>,
    distribution: Seq<(u32, u32)>,
    base: i128,
    n: int,
    key: DataKey,
)
    requires
        !(key is EventWinnerAt),
        !(key is EventWinnerCount),
        !(key is EventPrizeAward),
    ensures
        entry_in(prizes_awarded(s, id, winners, distribution, base, n), key) == entry_in(s, key),
    decreases n,
{
    if n > 0 {
        lemma_awarding_keeps(s, id, winners, distribution, base, n - 1, key);
    }
}

/// Looks up an event to select winners for.
pub fn event_to_decide(env: &Env, event_id: u64) -> (r: Result<EventRecord, Error>)
    ensures
        r == match select_denial(env@, event_id) {
            Some(error) => Err::<EventRecord, Error>(error),
            None => Ok(event_in(env@.store, event_id).unwrap()),
        },
{
    let event: EventRecord = event_to_change(env, event_id)?;
    if event.status != EventStatus::Active {
        return Err(Error::EventNotActive);
    }
    if event.pillar == Pillar::Crowdfunding {
        return Err(Error::InvalidPillar);
    }
    Ok(event)
}

/// Checks that nothing speaks against a selection of winners for an event.
pub fn check_selection(
    env: &Env,
    event_id: u64,
    event: &EventRecord,
    winners: &Vec<WinnerSpec>,
    op_id: Bytes32,
) -> (r: Result<(), Error>)
    requires
        event_in(env@.store, event_id) == Some(*event),
    ensures
        r == match select_refusal(env@, event_id, winners@, op_id) {
            Some(error) => Err::<(), Error>(error),
            None => Ok(()),
        },
{
    let manager: Address = resolve_manager(env, event_id, event.owner);
    require_unseen(env, manager, op_id)?;
    if is_selection_closed(env, event_id, event) {
        return Err(Error::WinnersAlreadySelected);
    }
    if winners.len() == 0 {
        return Err(Error::NoSubmissions);
    }
    if winners.len() > MAX_WINNERS_PER_SELECT as usize {
        return Err(Error::InvalidWinnerPosition);
    }
    check_positions(winners, event)?;
    if event.release_kind == ReleaseKind::Single {
        let base: i128 = match env.storage.amount(DataKey::EventPrizeBaseEscrow(event_id)) {
            Some(base) => base,
            None => event.remaining_escrow,
        };
        check_prizes(env, event_id, winners, event, base)?;
    }
    Ok(())
}

/// The manager selects winners, at most [`MAX_WINNERS_PER_SELECT`] at a time. Where
/// prizes are paid in one piece their amounts are fixed now, as parts of what the escrow
/// held at the first selection, and the winners claim them later.
pub fn select_winners(
    env: &mut Env,
    event_id: u64,
    winners: &Vec<WinnerSpec>,
    op_id: Bytes32,
) -> (r: Result<(), Error>)
    requires
        select_denial(old(env)@, event_id) is None && select_refusal(
            old(env)@,
            event_id,
            winners@,
            op_id,
        ) is None ==> winner_count_in(old(env)@.store, event_id) + winners.len() <= u32::MAX,
    ensures
        match select_denial(old(env)@, event_id) {
            Some(error) => r == Err::<(), Error>(error) && final(env)@ == old(env)@,
            None => match select_refusal(old(env)@, event_id, winners@, op_id) {
                Some(error) => r == Err::<(), Error>(error) && final(env)@
                    == old(env)@.authorized_by(manager_of_event(old(env)@.store, event_id)),
                None => r == Ok::<(), Error>(()) && final(env)@ == winners_recorded(
                    old(env)@,
                    event_id,
                    winners@,
                    op_id,
                ),
            },
        },
        writes_behind(*old(env), *final(env), r is Ok),
{
    let event: EventRecord = event_to_decide(env, event_id)?;
    let manager: Address = resolve_manager(env, event_id, event.owner);
    env.require_auth(manager);
    check_selection(env, event_id, &event, winners, op_id)?;

    match event.release_kind {
        ReleaseKind::Single => {
            award_prizes(env, event_id, winners, &event);
        },
        ReleaseKind::Multi(_) => {
            let ghost asked = env@;
            let ghost written = env.storage.log@;
            let mut i: usize = 0;
            while i < winners.len()
                invariant
                    i <= winners.len(),
                    continues(env.storage.log@, written),
                    winner_count_in(asked.store, event_id) + winners.len() <= u32::MAX,
                    winner_count_in(env@.store, event_id) == winner_count_in(asked.store, event_id)
                        + i,
                    env@ == asked.with_store(
                        rows_added(asked.store, event_id, winners@, i as int),
                    ),
                decreases winners.len() - i,
            {
                append_winner(
                    env,
                    event_id,
                    Winner {
                        recipient: winners[i].recipient,
                        position: winners[i].position,
                        amount: 0,
                        milestone: None,
                        paid_at: None,
                    },
                );
                i = i + 1;
            }
        },
    }
    env.put(DataKey::Event(event_id), Entry::Event(event));
    env.publish(Event::WinnersSelected { event_id, count: winners.len() as u32 });
    mark_seen(env, manager, op_id);
    Ok(())
}

/// A winner claims the prize of a position, once. The event is complete when its escrow
/// is empty. That the profile contract may fail to hear of it does not undo the payment.
pub fn claim_prize(
    env: &mut Env,
    event_id: u64,
    position: u32,
    op_id: Bytes32,
) -> (r: Result<(), Error>)
    ensures
        match claim_denial(old(env)@, event_id, position) {
            Some(error) => r == Err::<(), Error>(error) && final(env)@ == old(env)@,
            None => match claim_refusal(old(env)@, event_id, position, op_id) {
                Some(error) => r == Err::<(), Error>(error) && final(env)@
                    == old(env)@.authorized_by(
                    award_in(old(env)@.store, event_id, position).unwrap().recipient,
                ),
                None => r == Ok::<(), Error>(()) && final(env)@ == prize_claimed(
                    old(env)@,
                    event_id,
                    position,
                    op_id,
                ),
            },
        },
        writes_behind(*old(env), *final(env), r is Ok),
{
    let mut event: EventRecord = event_to_change(env, event_id)?;
    if event.status != EventStatus::Active {
        return Err(Error::EventNotActive);
    }
    if event.release_kind != ReleaseKind::Single {
        return Err(Error::InvalidReleaseKind);
    }
    let award: PrizeAward = match env.storage.award(event_id, position) {
        Some(award) => award,
        None => return Err(Error::InvalidWinnerPosition),
    };
    let user: Address = award.recipient;
    env.require_auth(user);
    require_unseen(env, user, op_id)?;

    let anchor: Winner = match env.storage.winner(event_id, award.anchor_idx) {
        Some(anchor) => anchor,
        None => return Err(Error::InvalidWinnerPosition),
    };
    if anchor.recipient != user || anchor.position != position {
        return Err(Error::InvalidWinnerPosition);
    }
    if anchor.paid_at.is_some() {
        return Err(Error::PrizeAlreadyClaimed);
    }
    let amount: i128 = anchor.amount;
    if amount <= 0 {
        return Err(Error::InvalidDistribution);
    }
    if amount > event.remaining_escrow {
        return Err(Error::InsufficientEscrow);
    }
    let now: u64 = env.timestamp;
    let token: Address = event.token;
    let host: Text = text_clone(&event.title);
    let unclaimed: u32 = env.storage.count(DataKey::EventUnclaimedPrizes(event_id));
    env.put(
        DataKey::EventWinnerAt(event_id, award.anchor_idx),
        Entry::Winner(
            Winner {
                recipient: anchor.recipient,
                position,
                amount,
                milestone: None,
                paid_at: Some(now),
            },
        ),
    );
    env.put(
        DataKey::EventUnclaimedPrizes(event_id),
        Entry::Count(unclaimed.saturating_sub(1)),
    );
    event.remaining_escrow = saturating_sub(event.remaining_escrow, amount);
    if event.remaining_escrow == 0 {
        event.status = EventStatus::Completed;
    }
    env.put(DataKey::Event(event_id), Entry::Event(event));
    mark_seen(env, user, op_id);

    release(env, token, user, amount);
    env.publish(
        Event::WinnerPaid { event_id, recipient: user, position, amount, milestone: None },
    );
    let bootstrap_op: Bytes32 = derive_child(&host, op_id, BOOTSTRAP);
    env.call_profile(ProfileCall::Bootstrap { user, op_id: bootstrap_op });
    let rep_op: Bytes32 = derive_child(&host, op_id, BUMP_REP);
    env.call_profile(
        ProfileCall::BumpReputation {
            user,
            bump: award.reputation_bump,
            reason: Reason::Win,
            op_id: rep_op,
        },
    );
    let earnings_op: Bytes32 = derive_child(&host, op_id, REGISTER_EARNINGS);
    env.call_profile(
        ProfileCall::RegisterEarnings { user, token, amount, op_id: earnings_op },
    );
    Ok(())
}

} // verus!
