//! What the reads return.
use crate::env::Env;
use crate::errors::Error;
use crate::event_ops::reads::{
    entries_between, get_applicant_at, get_applicant_count, get_applicants, get_applicants_page,
    get_contributor_amount, get_contributor_at, get_contributor_count, get_contributors,
    get_contributors_page, get_event, get_submission, get_winner_at, get_winner_count, get_winners,
    get_winners_page, page_end,
};
use crate::storage::{
    applicant_count_in, applicant_in, contribution_in, contributor_count_in, contributor_in,
    event_in, submission_in, winner_count_in, winner_in,
};
use crate::types::{Address, EventRecord, Submission, Winner};
use vstd::prelude::*;

verus! {

/// An event and a submission are read as they are on file.
pub proof fn law_records_are_read_as_they_are(
    env: &Env,
    id: u64,
    who: Address,
    event: Result<EventRecord, Error>,
    submission: Result<Submission, Error>,
)
    requires
        call_ensures(get_event, (env, id), event),
        call_ensures(get_submission, (env, id, who), submission),
    ensures
        event is Ok <==> event_in(env@.store, id) is Some,
        event is Ok ==> event_in(env@.store, id) == Some(event.unwrap()),
        event is Err ==> event == Err::<EventRecord, Error>(Error::EventNotFound),
        submission is Ok <==> submission_in(env@.store, id, who) is Some,
        submission is Ok ==> submission_in(env@.store, id, who) == Some(submission.unwrap()),
        submission is Err ==> submission == Err::<Submission, Error>(Error::SubmissionNotFound),
{
}

/// The counts of the lists, and what a contributor has paid in, are read as they are on
/// file where the event is.
pub proof fn law_numbers_are_read_as_they_are(
    env: &Env,
    id: u64,
    who: Address,
    applicants: Result<u32, Error>,
    winners: Result<u32, Error>,
    contributors: Result<u32, Error>,
    amount: Result<i128, Error>,
)
    requires
        call_ensures(get_applicant_count, (env, id), applicants),
        call_ensures(get_winner_count, (env, id), winners),
        call_ensures(get_contributor_count, (env, id), contributors),
        call_ensures(get_contributor_amount, (env, id, who), amount),
    ensures
        event_in(env@.store, id) is None ==> {
            &&& applicants == Err::<u32, Error>(Error::EventNotFound)
            &&& winners == Err::<u32, Error>(Error::EventNotFound)
            &&& contributors == Err::<u32, Error>(Error::EventNotFound)
            &&& amount == Err::<i128, Error>(Error::EventNotFound)
        },
        event_in(env@.store, id) is Some ==> {
            &&& applicants == Ok::<u32, Error>(applicant_count_in(env@.store, id))
            &&& winners == Ok::<u32, Error>(winner_count_in(env@.store, id))
            &&& contributors == Ok::<u32, Error>(contributor_count_in(env@.store, id))
            &&& amount == Ok::<i128, Error>(contribution_in(env@.store, id, who))
        },
{
}

/// Who stands at a place of a list is read as it is on file where the event is.
pub proof fn law_places_are_read_as_they_are(
    env: &Env,
    id: u64,
    idx: u32,
    applicant: Result<Option<Address>, Error>,
    winner: Result<Option<Winner>, Error>,
    contributor: Result<Option<Address>, Error>,
)
    requires
        call_ensures(get_applicant_at, (env, id, idx), applicant),
        call_ensures(get_winner_at, (env, id, idx), winner),
        call_ensures(get_contributor_at, (env, id, idx), contributor),
    ensures
        event_in(env@.store, id) is None ==> {
            &&& applicant == Err::<Option<Address>, Error>(Error::EventNotFound)
            &&& winner == Err::<Option<Winner>, Error>(Error::EventNotFound)
            &&& contributor == Err::<Option<Address>, Error>(Error::EventNotFound)
        },
        event_in(env@.store, id) is Some ==> {
            &&& applicant == Ok::<Option<Address>, Error>(applicant_in(env@.store, id, idx))
            &&& winner == Ok::<Option<Winner>, Error>(winner_in(env@.store, id, idx))
            &&& contributor == Ok::<Option<Address>, Error>(contributor_in(env@.store, id, idx))
        },
{
}

/// Where a list has no gaps, place `i` of what is read is place `start + i` of the list.
proof fn lemma_page_without_gaps<T>(at: spec_fn(u32) -> Option<T>, start: u32, to: int)
    requires
        start <= to <= u32::MAX,
        forall|i: u32| start <= i < to ==> #[trigger] at(i) is Some,
    ensures
        entries_between(at, start as int, to).len() == to - start,
        forall|i: int|
            0 <= i < to - start ==> #[trigger] entries_between(at, start as int, to)[i] == at(
                (start + i) as u32,
            ).unwrap(),
    decreases to,
{
    if start < to {
        lemma_page_without_gaps(at, start, to - 1);
        assert(at((to - 1) as u32) is Some);
    }
}

/// A page of the applicants holds those who stand from its first place on, in order: as
/// many as are asked for, but not more than a hundred and not more than there are. Without
/// more to go by, the first hundred are read.
pub proof fn law_applicants_are_read_in_order(
    env: &Env,
    id: u64,
    start: u32,
    limit: u32,
    all: Result<Vec<Address>, Error>,
    some: Result<Vec<Address>, Error>,
)
    requires
        call_ensures(get_applicants, (env, id), all),
        call_ensures(get_applicants_page, (env, id, start, limit), some),
        forall|i: u32|
            i < applicant_count_in(env@.store, id) ==> #[trigger] applicant_in(
                env@.store,
                id,
                i,
            ) is Some,
    ensures
        event_in(env@.store, id) is None ==> all == Err::<Vec<Address>, Error>(Error::EventNotFound)
            && some == Err::<Vec<Address>, Error>(Error::EventNotFound),
        event_in(env@.store, id) is Some ==> all is Ok && some is Ok && ({
            let count = applicant_count_in(env@.store, id);
            let list = some.unwrap()@;
            let first = all.unwrap()@;
            &&& list.len() <= limit && list.len() <= 100
            &&& start >= count ==> list.len() == 0
            &&& start < count ==> start + list.len() <= count
            &&& list.len() == limit || list.len() == 100 || start + list.len() >= count
            &&& forall|i: int|
                0 <= i < list.len() ==> applicant_in(env@.store, id, (start + i) as u32) == Some(
                    #[trigger] list[i],
                )
            &&& first.len() <= 100 && first.len() <= count
            &&& first.len() == 100 || first.len() == count
            &&& forall|i: int|
                0 <= i < first.len() ==> applicant_in(env@.store, id, i as u32) == Some(
                    #[trigger] first[i],
                )
        }),
{
    if event_in(env@.store, id) is Some {
        let at = |i: u32| applicant_in(env@.store, id, i);
        let count = applicant_count_in(env@.store, id);
        lemma_page_without_gaps(at, start, page_end(start, limit, count));
        lemma_page_without_gaps(at, 0, page_end(0, 100, count));
    }
}

/// A page of the winners holds those who stand from its first place on, in order: as many
/// as are asked for, but not more than a hundred and not more than there are. Without more
/// to go by, the first hundred are read.
pub proof fn law_winners_are_read_in_order(
    env: &Env,
    id: u64,
    start: u32,
    limit: u32,
    all: Result<Vec<Winner>, Error>,
    some: Result<Vec<Winner>, Error>,
)
    requires
        call_ensures(get_winners, (env, id), all),
        call_ensures(get_winners_page, (env, id, start, limit), some),
        forall|i: u32|
            i < winner_count_in(env@.store, id) ==> #[trigger] winner_in(env@.store, id, i) is Some,
    ensures
        event_in(env@.store, id) is None ==> all == Err::<Vec<Winner>, Error>(Error::EventNotFound)
            && some == Err::<Vec<Winner>, Error>(Error::EventNotFound),
        event_in(env@.store, id) is Some ==> all is Ok && some is Ok && ({
            let count = winner_count_in(env@.store, id);
            let list = some.unwrap()@;
            let first = all.unwrap()@;
            &&& list.len() <= limit && list.len() <= 100
            &&& start >= count ==> list.len() == 0
            &&& start < count ==> start + list.len() <= count
            &&& list.len() == limit || list.len() == 100 || start + list.len() >= count
            &&& forall|i: int|
                0 <= i < list.len() ==> winner_in(env@.store, id, (start + i) as u32) == Some(
                    #[trigger] list[i],
                )
            &&& first.len() <= 100 && first.len() <= count
            &&& first.len() == 100 || first.len() == count
            &&& forall|i: int|
                0 <= i < first.len() ==> winner_in(env@.store, id, i as u32) == Some(
                    #[trigger] first[i],
                )
        }),
{
    if event_in(env@.store, id) is Some {
        let at = |i: u32| winner_in(env@.store, id, i);
        let count = winner_count_in(env@.store, id);
        lemma_page_without_gaps(at, start, page_end(start, limit, count));
        lemma_page_without_gaps(at, 0, page_end(0, 100, count));
    }
}

/// A page of the contributors holds those who stand from its first place on, in order: as
/// many as are asked for, but not more than a hundred and not more than there are. Without
/// more to go by, the first hundred are read.
pub proof fn law_contributors_are_read_in_order(
    env: &Env,
    id: u64,
    start: u32,
    limit: u32,
    all: Result<Vec<Address>, Error>,
    some: Result<Vec<Address>, Error>,
)
    requires
        call_ensures(get_contributors, (env, id), all),
        call_ensures(get_contributors_page, (env, id, start, limit), some),
        forall|i: u32|
            i < contributor_count_in(env@.store, id) ==> #[trigger] contributor_in(
                env@.store,
                id,
                i,
            ) is Some,
    ensures
        event_in(env@.store, id) is None ==> all == Err::<Vec<Address>, Error>(Error::EventNotFound)
            && some == Err::<Vec<Address>, Error>(Error::EventNotFound),
        event_in(env@.store, id) is Some ==> all is Ok && some is Ok && ({
            let count = contributor_count_in(env@.store, id);
            let list = some.unwrap()@;
            let first = all.unwrap()@;
            &&& list.len() <= limit && list.len() <= 100
            &&& start >= count ==> list.len() == 0
            &&& start < count ==> start + list.len() <= count
            &&& list.len() == limit || list.len() == 100 || start + list.len() >= count
            &&& forall|i: int|
                0 <= i < list.len() ==> contributor_in(env@.store, id, (start + i) as u32) == Some(
                    #[trigger] list[i],
                )
            &&& first.len() <= 100 && first.len() <= count
            &&& first.len() == 100 || first.len() == count
            &&& forall|i: int|
                0 <= i < first.len() ==> contributor_in(env@.store, id, i as u32) == Some(
                    #[trigger] first[i],
                )
        }),
{
    if event_in(env@.store, id) is Some {
        let at = |i: u32| contributor_in(env@.store, id, i);
        let count = contributor_count_in(env@.store, id);
        lemma_page_without_gaps(at, start, page_end(start, limit, count));
        lemma_page_without_gaps(at, 0, page_end(0, 100, count));
    }
}

/// A page whose places are not all taken holds what stands at those that are, in order,
/// and is no longer for the others.
pub proof fn law_empty_places_are_passed_over(
    env: &Env,
    id: u64,
    start: u32,
    limit: u32,
    applicants: Result<Vec<Address>, Error>,
    winners: Result<Vec<Winner>, Error>,
    contributors: Result<Vec<Address>, Error>,
    end: int,
)
    requires
        call_ensures(get_applicants_page, (env, id, start, limit), applicants),
        call_ensures(get_winners_page, (env, id, start, limit), winners),
        call_ensures(get_contributors_page, (env, id, start, limit), contributors),
        event_in(env@.store, id) is Some,
        limit <= 100 ==> end == start + limit,
        limit > 100 ==> end == start + 100,
    ensures
        end <= applicant_count_in(env@.store, id) ==> applicants.unwrap()@ == entries_between(
            |i: u32| applicant_in(env@.store, id, i),
            start as int,
            end,
        ),
        end <= winner_count_in(env@.store, id) ==> winners.unwrap()@ == entries_between(
            |i: u32| winner_in(env@.store, id, i),
            start as int,
            end,
        ),
        end <= contributor_count_in(env@.store, id) ==> contributors.unwrap()@ == entries_between(
            |i: u32| contributor_in(env@.store, id, i),
            start as int,
            end,
        ),
        end > applicant_count_in(env@.store, id) ==> applicants.unwrap()@ == entries_between(
            |i: u32| applicant_in(env@.store, id, i),
            start as int,
            applicant_count_in(env@.store, id) as int,
        ),
        end > winner_count_in(env@.store, id) ==> winners.unwrap()@ == entries_between(
            |i: u32| winner_in(env@.store, id, i),
            start as int,
            winner_count_in(env@.store, id) as int,
        ),
        end > contributor_count_in(env@.store, id) ==> contributors.unwrap()@ == entries_between(
            |i: u32| contributor_in(env@.store, id, i),
            start as int,
            contributor_count_in(env@.store, id) as int,
        ),
{
}

} // verus!
