//! What is read is what is on file.
use crate::env::Env;
use crate::errors::Error;
use crate::event_ops::funds::{contributor_slot_in, partner_total};
use crate::event_ops::manager::{manager_in, manager_of_event};
use crate::event_ops::reads::{entries_between, if_event, page, page_end};
use crate::host::{ascending, is_place_of, value_at};
use crate::idempotency::{
    big_endian, child_input, next_id_in, seen_in, BOOTSTRAP, BUMP_REP, REGISTER_EARNINGS,
};
use crate::laws::replay::law_parts_are_told_apart;
use crate::storage::{
    address_in, amount_in, applicant_count_in, applicant_in, award_in, base_escrow_in,
    cancellation_in, claim_expiry_in, contribution_in, contributor_count_in, contributor_in,
    count_in, entry_in, event_in, flag_in, non_owner_total_in, number_in, pending_manager_in,
    replayed, submission_count_in, submission_in, unclaimed_in, winner_count_in, winner_in, Entry,
    Store,
};
use crate::types::{Address, Bytes32, DataKey};
use vstd::prelude::*;

verus! {

/// A log of writes leaves behind what was written last under each key.
pub proof fn law_last_write_counts(
    log: Seq<(DataKey, Option<Entry>)>,
    key: DataKey,
    entry: Option<Entry>,
    other: DataKey,
)
    ensures
        replayed(Seq::empty()) == Map::<DataKey, Entry>::empty(),
        entry_in(replayed(log.push((key, entry))), key) == entry,
        other != key ==> entry_in(replayed(log.push((key, entry))), other) == entry_in(
            replayed(log),
            other,
        ),
{
    assert(log.push((key, entry)).drop_last() =~= log);
}

/// What stands under a key is what is read, if it is of the kind that is asked for; if
/// not, nothing is read, and of a count or a flag zero or not set.
pub proof fn law_reading_gives_the_entry(s: Store, key: DataKey)
    ensures
        entry_in(s, key) is Some <==> s.contains_key(key),
        s.contains_key(key) ==> entry_in(s, key) == Some(s[key]),
        flag_in(s, key) <==> s.contains_key(key) && s[key] == Entry::Flag(true),
        s.contains_key(key) && s[key] is Count ==> s[key] == Entry::Count(count_in(s, key)),
        !s.contains_key(key) || !(s[key] is Count) ==> count_in(s, key) == 0,
        number_in(s, key) is Some <==> s.contains_key(key) && s[key] is Number,
        number_in(s, key) is Some ==> s[key] == Entry::Number(number_in(s, key).unwrap()),
        amount_in(s, key) is Some <==> s.contains_key(key) && s[key] is Amount,
        amount_in(s, key) is Some ==> s[key] == Entry::Amount(amount_in(s, key).unwrap()),
        address_in(s, key) is Some <==> s.contains_key(key) && s[key] is Address,
        address_in(s, key) is Some ==> s[key] == Entry::Address(address_in(s, key).unwrap()),
{
}

/// Each record stands under its own key.
pub proof fn law_records_stand_under_their_keys(s: Store, id: u64, who: Address, i: u32)
    ensures
        match entry_in(s, DataKey::Event(id)) {
            Some(Entry::Event(record)) => event_in(s, id) == Some(record),
            _ => event_in(s, id) is None,
        },
        match entry_in(s, DataKey::EventSubmission(id, who)) {
            Some(Entry::Submission(record)) => submission_in(s, id, who) == Some(record),
            _ => submission_in(s, id, who) is None,
        },
        match entry_in(s, DataKey::EventWinnerAt(id, i)) {
            Some(Entry::Winner(record)) => winner_in(s, id, i) == Some(record),
            _ => winner_in(s, id, i) is None,
        },
        match entry_in(s, DataKey::EventPrizeAward(id, i)) {
            Some(Entry::Award(record)) => award_in(s, id, i) == Some(record),
            _ => award_in(s, id, i) is None,
        },
        match entry_in(s, DataKey::CancellationState(id)) {
            Some(Entry::Cancellation(record)) => cancellation_in(s, id) == Some(record),
            _ => cancellation_in(s, id) is None,
        },
        match entry_in(s, DataKey::PendingManager(id)) {
            Some(Entry::PendingManager(record)) => pending_manager_in(s, id) == Some(record),
            _ => pending_manager_in(s, id) is None,
        },
        applicant_in(s, id, i) == address_in(s, DataKey::EventApplicantAt(id, i)),
        contributor_in(s, id, i) == address_in(s, DataKey::ContributorAt(id, i)),
        applicant_count_in(s, id) == count_in(s, DataKey::EventApplicantCount(id)),
        contributor_count_in(s, id) == count_in(s, DataKey::ContributorCount(id)),
        winner_count_in(s, id) == count_in(s, DataKey::EventWinnerCount(id)),
        submission_count_in(s, id) == count_in(s, DataKey::EventSubmissionCount(id)),
        unclaimed_in(s, id) == count_in(s, DataKey::EventUnclaimedPrizes(id)),
        contributor_slot_in(s, id, who) == count_in(s, DataKey::ContributorSlot(id, who)),
        non_owner_total_in(s, id) == amount_in(s, DataKey::NonOwnerContributionTotal(id)),
        base_escrow_in(s, id) == amount_in(s, DataKey::EventPrizeBaseEscrow(id)),
        claim_expiry_in(s, id) == number_in(s, DataKey::EventPrizeClaimExpiry(id)),
        amount_in(s, DataKey::ContributorAmount(id, who)) is None ==> contribution_in(s, id, who)
            == 0,
        amount_in(s, DataKey::ContributorAmount(id, who)) is Some ==> contribution_in(s, id, who)
            == amount_in(s, DataKey::ContributorAmount(id, who)).unwrap(),
{
}

/// A caller has had an operation carried out if and only if that is on file for that
/// caller and that operation; events are numbered from one.
pub proof fn law_operations_and_numbers_on_file(s: Store, who: Address, op_id: Bytes32)
    ensures
        seen_in(s, who, op_id) <==> flag_in(s, DataKey::OpSeen(who, op_id)),
        number_in(s, DataKey::NextEventId) is None ==> next_id_in(s) == 1,
        number_in(s, DataKey::NextEventId) is Some ==> next_id_in(s) == number_in(
            s,
            DataKey::NextEventId,
        ).unwrap(),
{
}

/// The manager is whoever is on file as such, and the owner where nobody is.
pub proof fn law_manager_on_file(s: Store, id: u64, owner: Address)
    ensures
        address_in(s, DataKey::EventManager(id)) is None ==> manager_in(s, id, owner) == owner,
        address_in(s, DataKey::EventManager(id)) is Some ==> manager_in(s, id, owner)
            == address_in(s, DataKey::EventManager(id)).unwrap(),
        manager_of_event(s, id) == manager_in(s, id, event_in(s, id).unwrap().owner),
{
}

/// The total of the contributions is the one on file; where there is none it is zero if
/// nobody is in the list, and missing if anyone is.
pub proof fn law_total_on_file(s: Store, id: u64)
    ensures
        non_owner_total_in(s, id) is Some ==> partner_total(s, id) == Ok::<i128, Error>(
            non_owner_total_in(s, id).unwrap(),
        ),
        non_owner_total_in(s, id) is None && contributor_count_in(s, id) == 0 ==> partner_total(
            s,
            id,
        ) == Ok::<i128, Error>(0),
        non_owner_total_in(s, id) is None && contributor_count_in(s, id) > 0 ==> partner_total(
            s,
            id,
        ) == Err::<i128, Error>(Error::CancellationTotalMissing),
{
}

/// The percentage of a position is the one that stands next to it, and none if the
/// position does not occur.
pub proof fn law_percentage_stands_next_to_position(pairs: Seq<(u32, u32)>, key: u32)
    requires
        ascending(pairs),
    ensures
        forall|i: int|
            0 <= i < pairs.len() && (#[trigger] pairs[i]).0 == key ==> value_at(pairs, key)
                == Some(pairs[i].1),
        value_at(pairs, key) is Some ==> exists|i: int|
            0 <= i < pairs.len() && (#[trigger] pairs[i]).0 == key,
{
    assert forall|i: int| 0 <= i < pairs.len() && (#[trigger] pairs[i]).0 == key implies value_at(
        pairs,
        key,
    ) == Some(pairs[i].1) by {
        assert(is_place_of(pairs, key, i));
        let k = choose|k: int| is_place_of(pairs, key, k);
        assert(is_place_of(pairs, key, k));
        if i < k {
            assert(pairs[i].0 < pairs[k].0);
        } else if k < i {
            assert(pairs[k].0 < pairs[i].0);
        }
    }
    if value_at(pairs, key) is Some {
        let k = choose|k: int| is_place_of(pairs, key, k);
        assert(is_place_of(pairs, key, k));
        assert(pairs[k].0 == key);
    }
}

/// A page begins where it is asked to and goes on for as many places as are asked for, but
/// not for more than a hundred and not beyond the list.
pub proof fn law_page_goes_as_far_as_asked(start: u32, limit: u32, count: u32)
    ensures
        start >= count ==> page_end(start, limit, count) == start,
        start < count && limit <= 100 && start + limit <= count ==> page_end(start, limit, count)
            == start + limit,
        start < count && limit > 100 && start + 100 <= count ==> page_end(start, limit, count)
            == start + 100,
        start < count && (start + limit > count) && (start + 100 > count) ==> page_end(
            start,
            limit,
            count,
        ) == count,
{
}

/// A page holds what stands at its places, in order: it grows by each place that holds
/// something, and by nothing at an empty one.
pub proof fn law_page_grows_place_by_place<T>(
    at: spec_fn(u32) -> Option<T>,
    start: u32,
    limit: u32,
    count: u32,
    to: u32,
)
    ensures
        page(at, start, limit, count) == entries_between(
            at,
            start as int,
            page_end(start, limit, count),
        ),
        to <= start ==> entries_between(at, start as int, to as int) == Seq::<T>::empty(),
        start <= to && at(to) is Some ==> entries_between(at, start as int, to + 1)
            == entries_between(at, start as int, to as int).push(at(to).unwrap()),
        start <= to && at(to) is None ==> entries_between(at, start as int, to + 1)
            == entries_between(at, start as int, to as int),
{
}

/// A read about an event gives what it is asked for if the event exists, and says that it
/// does not if it does not.
pub proof fn law_reads_need_the_event<T>(env: Env, id: u64, value: T)
    ensures
        event_in(env@.store, id) is Some ==> if_event(env, id, value) == Ok::<T, Error>(value),
        event_in(env@.store, id) is None ==> if_event(env, id, value) == Err::<T, Error>(
            Error::EventNotFound,
        ),
{
}

/// The identifier of a part is the hash of the operation's 32 bytes, the highest first,
/// and the number of the part; the three parts of a claim have different numbers.
pub proof fn law_parts_are_hashes_of_bytes(op_id: Bytes32, part: u8, number: int, n: int)
    requires
        n > 0,
    ensures
        child_input(op_id, part) == big_endian(op_id.high as int, 16) + big_endian(
            op_id.low as int,
            16,
        ) + seq![part],
        big_endian(number, 0) == Seq::<u8>::empty(),
        big_endian(number, n) == big_endian(number / 256, n - 1) + seq![(number % 256) as u8],
        child_input(op_id, BOOTSTRAP) != child_input(op_id, BUMP_REP),
        child_input(op_id, BOOTSTRAP) != child_input(op_id, REGISTER_EARNINGS),
        child_input(op_id, BUMP_REP) != child_input(op_id, REGISTER_EARNINGS),
{
    if child_input(op_id, BOOTSTRAP) == child_input(op_id, BUMP_REP) {
        law_parts_are_told_apart(op_id, op_id, BOOTSTRAP, BUMP_REP);
    }
    if child_input(op_id, BOOTSTRAP) == child_input(op_id, REGISTER_EARNINGS) {
        law_parts_are_told_apart(op_id, op_id, BOOTSTRAP, REGISTER_EARNINGS);
    }
    if child_input(op_id, BUMP_REP) == child_input(op_id, REGISTER_EARNINGS) {
        law_parts_are_told_apart(op_id, op_id, BUMP_REP, REGISTER_EARNINGS);
    }
}

} // verus!
