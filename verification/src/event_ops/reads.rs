//! Reading events and their lists.
use crate::env::Env;
use crate::errors::Error;
use crate::event_ops::VIEW_PAGE_LIMIT;
use crate::storage::{
    applicant_count_in, applicant_in, contribution_in, contributor_count_in, contributor_in,
    event_in, submission_in, winner_count_in, winner_in,
};
use crate::types::{Address, DataKey, EventRecord, Submission, Winner};
use vstd::prelude::*;

verus! {

/// Where a page of at most `limit` entries that begins at `start` ends, in a list of
/// `count` entries.
pub open spec fn page_end(start: u32, limit: u32, count: u32) -> int {
    let limit = if limit < VIEW_PAGE_LIMIT {
        limit as int
    } else {
        VIEW_PAGE_LIMIT as int
    };
    if start >= count {
        start as int
    } else if start + limit > count {
        count as int
    } else {
        start + limit
    }
}

/// The entries at the places from `from` up to `to`, in order; an empty place is skipped.
pub open spec fn entries_between<T>(at: spec_fn(u32) -> Option<T>, from: int, to: int) -> Seq<T>
    decreases to - from,
{
    if to <= from {
        Seq::empty()
    } else {
        let before = entries_between(at, from, to - 1);
        match at((to - 1) as u32) {
            Some(entry) => before.push(entry),
            None => before,
        }
    }
}

/// The page of a list.
pub open spec fn page<T>(at: spec_fn(u32) -> Option<T>, start: u32, limit: u32, count: u32) -> Seq<
    T,
> {
    entries_between(at, start as int, page_end(start, limit, count))
}

/// What a read of something about an event returns: what is there, or that there is no
/// such event.
pub open spec fn if_event<T>(env: Env, id: u64, value: T) -> Result<T, Error> {
    if event_in(env@.store, id) is Some {
        Ok(value)
    } else {
        Err(Error::EventNotFound)
    }
}

fn require_event(env: &Env, event_id: u64) -> (r: Result<(), Error>)
    ensures
        r == if_event(*env, event_id, ()),
{
    match env.storage.event(event_id) {
        Some(_) => Ok(()),
        None => Err(Error::EventNotFound),
    }
}

/// The place at which a page ends.
fn end_of_page(start: u32, limit: u32, count: u32) -> (r: u32)
    ensures
        r == page_end(start, limit, count),
{
    let limit: u32 = if limit < VIEW_PAGE_LIMIT {
        limit
    } else {
        VIEW_PAGE_LIMIT
    };
    if start >= count {
        start
    } else if limit > count - start {
        count
    } else {
        start + limit
    }
}

pub fn get_event(env: &Env, event_id: u64) -> (r: Result<EventRecord, Error>)
    ensures
        r == match event_in(env@.store, event_id) {
            Some(event) => Ok::<EventRecord, Error>(event),
            None => Err(Error::EventNotFound),
        },
{
    match env.storage.event(event_id) {
        Some(event) => Ok(event),
        None => Err(Error::EventNotFound),
    }
}

pub fn get_submission(env: &Env, event_id: u64, applicant: Address) -> (r: Result<
    Submission,
    Error,
>)
    ensures
        r == match submission_in(env@.store, event_id, applicant) {
            Some(submission) => Ok::<Submission, Error>(submission),
            None => Err(Error::SubmissionNotFound),
        },
{
    match env.storage.submission(event_id, applicant) {
        Some(submission) => Ok(submission),
        None => Err(Error::SubmissionNotFound),
    }
}

/// The first page of the applicants.
pub fn get_applicants(env: &Env, event_id: u64) -> (r: Result<Vec<Address>, Error>)
    ensures
        r is Ok <==> event_in(env@.store, event_id) is Some,
        r is Err ==> r->Err_0 == Error::EventNotFound,
        r is Ok ==> r->Ok_0@ == page(
            |i: u32| applicant_in(env@.store, event_id, i),
            0,
            VIEW_PAGE_LIMIT,
            applicant_count_in(env@.store, event_id),
        ),
{
    get_applicants_page(env, event_id, 0, VIEW_PAGE_LIMIT)
}

/// The applicants from place `start` on, at most `limit` and at most
/// [`VIEW_PAGE_LIMIT`] of them.
pub fn get_applicants_page(env: &Env, event_id: u64, start: u32, limit: u32) -> (r: Result<
    Vec<Address>,
    Error,
>)
    ensures
        r is Ok <==> event_in(env@.store, event_id) is Some,
        r is Err ==> r->Err_0 == Error::EventNotFound,
        r is Ok ==> r->Ok_0@ == page(
            |i: u32| applicant_in(env@.store, event_id, i),
            start,
            limit,
            applicant_count_in(env@.store, event_id),
        ),
{
    require_event(env, event_id)?;
    let ghost at = |i: u32| applicant_in(env@.store, event_id, i);
    let count: u32 = env.storage.count(DataKey::EventApplicantCount(event_id));
    let end: u32 = end_of_page(start, limit, count);
    let mut out: Vec<Address> = Vec::new();
    let mut idx: u32 = start;
    while idx < end
        invariant
            start <= idx <= end,
            at == |i: u32| applicant_in(env@.store, event_id, i),
            out@ == entries_between(at, start as int, idx as int),
        decreases end - idx,
    {
        if let Some(applicant) = env.storage.address(DataKey::EventApplicantAt(event_id, idx)) {
            out.push(applicant);
        }
        idx = idx + 1;
    }
    Ok(out)
}

pub fn get_applicant_count(env: &Env, event_id: u64) -> (r: Result<u32, Error>)
    ensures
        r == if_event(*env, event_id, applicant_count_in(env@.store, event_id)),
{
    require_event(env, event_id)?;
    Ok(env.storage.count(DataKey::EventApplicantCount(event_id)))
}

pub fn get_applicant_at(env: &Env, event_id: u64, idx: u32) -> (r: Result<Option<Address>, Error>)
    ensures
        r == if_event(*env, event_id, applicant_in(env@.store, event_id, idx)),
{
    require_event(env, event_id)?;
    Ok(env.storage.address(DataKey::EventApplicantAt(event_id, idx)))
}

/// The first page of the winners.
pub fn get_winners(env: &Env, event_id: u64) -> (r: Result<Vec<Winner>, Error>)
    ensures
        r is Ok <==> event_in(env@.store, event_id) is Some,
        r is Err ==> r->Err_0 == Error::EventNotFound,
        r is Ok ==> r->Ok_0@ == page(
            |i: u32| winner_in(env@.store, event_id, i),
            0,
            VIEW_PAGE_LIMIT,
            winner_count_in(env@.store, event_id),
        ),
{
    get_winners_page(env, event_id, 0, VIEW_PAGE_LIMIT)
}

/// The winners from place `start` on, at most `limit` and at most [`VIEW_PAGE_LIMIT`] of
/// them.
pub fn get_winners_page(env: &Env, event_id: u64, start: u32, limit: u32) -> (r: Result<
    Vec<Winner>,
    Error,
>)
    ensures
        r is Ok <==> event_in(env@.store, event_id) is Some,
        r is Err ==> r->Err_0 == Error::EventNotFound,
        r is Ok ==> r->Ok_0@ == page(
            |i: u32| winner_in(env@.store, event_id, i),
            start,
            limit,
            winner_count_in(env@.store, event_id),
        ),
{
    require_event(env, event_id)?;
    let ghost at = |i: u32| winner_in(env@.store, event_id, i);
    let count: u32 = env.storage.count(DataKey::EventWinnerCount(event_id));
    let end: u32 = end_of_page(start, limit, count);
    let mut out: Vec<Winner> = Vec::new();
    let mut idx: u32 = start;
    while idx < end
        invariant
            start <= idx <= end,
            at == |i: u32| winner_in(env@.store, event_id, i),
            out@ == entries_between(at, start as int, idx as int),
        decreases end - idx,
    {
        if let Some(winner) = env.storage.winner(event_id, idx) {
            out.push(winner);
        }
        idx = idx + 1;
    }
    Ok(out)
}

pub fn get_winner_count(env: &Env, event_id: u64) -> (r: Result<u32, Error>)
    ensures
        r == if_event(*env, event_id, winner_count_in(env@.store, event_id)),
{
    require_event(env, event_id)?;
    Ok(env.storage.count(DataKey::EventWinnerCount(event_id)))
}

pub fn get_winner_at(env: &Env, event_id: u64, idx: u32) -> (r: Result<Option<Winner>, Error>)
    ensures
        r == if_event(*env, event_id, winner_in(env@.store, event_id, idx)),
{
    require_event(env, event_id)?;
    Ok(env.storage.winner(event_id, idx))
}

/// The first page of the contributors.
pub fn get_contributors(env: &Env, event_id: u64) -> (r: Result<Vec<Address>, Error>)
    ensures
        r is Ok <==> event_in(env@.store, event_id) is Some,
        r is Err ==> r->Err_0 == Error::EventNotFound,
        r is Ok ==> r->Ok_0@ == page(
            |i: u32| contributor_in(env@.store, event_id, i),
            0,
            VIEW_PAGE_LIMIT,
            contributor_count_in(env@.store, event_id),
        ),
{
    get_contributors_page(env, event_id, 0, VIEW_PAGE_LIMIT)
}

/// The contributors from place `start` on, at most `limit` and at most
/// [`VIEW_PAGE_LIMIT`] of them.
pub fn get_contributors_page(env: &Env, event_id: u64, start: u32, limit: u32) -> (r: Result<
    Vec<Address>,
    Error,
>)
    ensures
        r is Ok <==> event_in(env@.store, event_id) is Some,
        r is Err ==> r->Err_0 == Error::EventNotFound,
        r is Ok ==> r->Ok_0@ == page(
            |i: u32| contributor_in(env@.store, event_id, i),
            start,
            limit,
            contributor_count_in(env@.store, event_id),
        ),
{
    require_event(env, event_id)?;
    let ghost at = |i: u32| contributor_in(env@.store, event_id, i);
    let count: u32 = env.storage.count(DataKey::ContributorCount(event_id));
    let end: u32 = end_of_page(start, limit, count);
    let mut out: Vec<Address> = Vec::new();
    let mut idx: u32 = start;
    while idx < end
        invariant
            start <= idx <= end,
            at == |i: u32| contributor_in(env@.store, event_id, i),
            out@ == entries_between(at, start as int, idx as int),
        decreases end - idx,
    {
        if let Some(contributor) = env.storage.address(DataKey::ContributorAt(event_id, idx)) {
            out.push(contributor);
        }
        idx = idx + 1;
    }
    Ok(out)
}

pub fn get_contributor_count(env: &Env, event_id: u64) -> (r: Result<u32, Error>)
    ensures
        r == if_event(*env, event_id, contributor_count_in(env@.store, event_id)),
{
    require_event(env, event_id)?;
    Ok(env.storage.count(DataKey::ContributorCount(event_id)))
}

pub fn get_contributor_at(env: &Env, event_id: u64, idx: u32) -> (r: Result<Option<Address>, Error>)
    ensures
        r == if_event(*env, event_id, contributor_in(env@.store, event_id, idx)),
{
    require_event(env, event_id)?;
    Ok(env.storage.address(DataKey::ContributorAt(event_id, idx)))
}

pub fn get_contributor_amount(env: &Env, event_id: u64, contributor: Address) -> (r: Result<
    i128,
    Error,
>)
    ensures
        r == if_event(*env, event_id, contribution_in(env@.store, event_id, contributor)),
{
    require_event(env, event_id)?;
    Ok(env.storage.contribution(event_id, contributor))
}

} // verus!
