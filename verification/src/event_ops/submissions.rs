//! Handing in work, handing it in again and withdrawing it.
use crate::env::{writes_behind, Effect, Env, EnvView, Event};
use crate::errors::Error;
use crate::event_ops::manager::{event_to_change, no_event};
use crate::event_ops::MAX_CONTENT_URI_LEN;
use crate::host::{text_bytes, text_clone, text_len, Text};
use crate::idempotency::{mark_seen, marked_seen, require_unseen, seen_in};
use crate::storage::{
    claim_expiry_in, count_in, event_in, submission_count_in, submission_in, winner_count_in,
    Entry, Store,
};
use crate::types::{Address, Bytes32, DataKey, EventRecord, EventStatus, Pillar, Submission};
use vstd::prelude::*;

verus! {

/// Whether winners have been selected, which closes the event to submissions.
pub open spec fn winners_selected(s: Store, id: u64) -> bool {
    winner_count_in(s, id) > 0 || claim_expiry_in(s, id) is Some
}

/// Whether `applicant` has applied to the event.
pub open spec fn has_applied(s: Store, id: u64, applicant: Address) -> bool {
    count_in(s, DataKey::EventApplicantSlot(id, applicant)) != 0
}

/// Why the submissions of an event cannot be changed.
pub open spec fn submissions_closed(env: EnvView, id: u64) -> Option<Error> {
    if no_event(env, id) is Some {
        no_event(env, id)
    } else if event_in(env.store, id).unwrap().status != EventStatus::Active {
        Some(Error::EventNotActive)
    } else if winners_selected(env.store, id) {
        Some(Error::WinnersAlreadySelected)
    } else {
        None
    }
}

/// Why a submission is refused before the applicant is asked for authorization.
pub open spec fn submit_denial(env: EnvView, id: u64) -> Option<Error> {
    if submissions_closed(env, id) is Some {
        submissions_closed(env, id)
    } else if event_in(env.store, id).unwrap().pillar == Pillar::Crowdfunding {
        Some(Error::InvalidPillar)
    } else {
        None
    }
}

/// Why a submission is refused after the applicant has been asked for authorization.
pub open spec fn submit_refusal(
    env: EnvView,
    id: u64,
    applicant: Address,
    content_uri: Text,
    op_id: Bytes32,
) -> Option<Error> {
    let event = event_in(env.store, id).unwrap();
    if seen_in(env.store, applicant, op_id) {
        Some(Error::DuplicateOperation)
    } else if text_bytes(content_uri).len() > MAX_CONTENT_URI_LEN {
        Some(Error::TitleTooLong)
    } else if submission_in(env.store, id, applicant) is Some {
        None
    } else if (event.pillar == Pillar::Bounty || event.pillar == Pillar::Grant) && !has_applied(
        env.store,
        id,
        applicant,
    ) {
        Some(Error::ApplicantNotApplied)
    } else if submission_count_in(env.store, id) == u32::MAX {
        Some(Error::TooManyContributors)
    } else {
        None
    }
}

/// The entries once a submission of `applicant` is counted; a second one is not.
pub open spec fn submission_counted(s: Store, id: u64, applicant: Address) -> Store {
    if submission_in(s, id, applicant) is Some {
        s
    } else {
        s.insert(
            DataKey::EventSubmissionCount(id),
            Entry::Count((submission_count_in(s, id) + 1) as u32),
        )
    }
}

/// What is on file once `applicant` has handed in `content_uri` at time `now`: a
/// submission that was on file keeps the time at which it was first handed in.
pub open spec fn submission_on_file(
    s: Store,
    id: u64,
    applicant: Address,
    content_uri: Text,
    now: u64,
) -> Submission {
    Submission {
        applicant,
        content_uri,
        submitted_at: match submission_in(s, id, applicant) {
            Some(first) => first.submitted_at,
            None => now,
        },
        updated_at: Some(now),
    }
}

/// The environment once `applicant` has handed in `content_uri`.
pub open spec fn submitted(
    env: EnvView,
    id: u64,
    applicant: Address,
    content_uri: Text,
    op_id: Bytes32,
) -> EnvView {
    marked_seen(
        env.authorized_by(applicant).with_store(submission_counted(env.store, id, applicant)).put(
            DataKey::EventSubmission(id, applicant),
            Entry::Submission(
                submission_on_file(env.store, id, applicant, content_uri, env.timestamp),
            ),
        ).with(Effect::Publish(Event::Submitted { event_id: id, applicant, content_uri })),
        applicant,
        op_id,
    )
}

/// The entries once the submission of `applicant`, if there is one, is gone.
pub open spec fn submission_removed(s: Store, id: u64, applicant: Address) -> Store {
    if submission_in(s, id, applicant) is Some {
        s.remove(DataKey::EventSubmission(id, applicant)).insert(
            DataKey::EventSubmissionCount(id),
            Entry::Count(submission_count_in(s, id).saturating_sub(1)),
        )
    } else {
        s
    }
}

/// Why a withdrawal is refused after the applicant has been asked for authorization.
pub open spec fn withdraw_refusal(
    env: EnvView,
    id: u64,
    applicant: Address,
    op_id: Bytes32,
) -> Option<Error> {
    if seen_in(env.store, applicant, op_id) {
        Some(Error::DuplicateOperation)
    } else if submission_in(env.store, id, applicant) is None {
        Some(Error::SubmissionNotFound)
    } else {
        None
    }
}

/// The environment once `applicant` has withdrawn the submission.
pub open spec fn withdrawn(env: EnvView, id: u64, applicant: Address, op_id: Bytes32) -> EnvView {
    marked_seen(
        env.authorized_by(applicant).with_store(
            submission_removed(env.store, id, applicant),
        ).with(Effect::Publish(Event::SubmissionWithdrawn { event_id: id, applicant })),
        applicant,
        op_id,
    )
}

/// Counts a submission of `applicant`, unless one is on file. There is no cap but the
/// counter's: a submission is paid for by its applicant, so that nobody can fill an
/// event up for others.
pub fn append_submission(env: &mut Env, event_id: u64, applicant: Address) -> (r: Result<(), Error>)
    ensures
        r == if submission_in(old(env)@.store, event_id, applicant) is None && submission_count_in(
            old(env)@.store,
            event_id,
        ) == u32::MAX {
            Err::<(), Error>(Error::TooManyContributors)
        } else {
            Ok(())
        },
        final(env)@ == if r is Ok {
            old(env)@.with_store(submission_counted(old(env)@.store, event_id, applicant))
        } else {
            old(env)@
        },
        writes_behind(*old(env), *final(env), r is Ok),
{
    if env.storage.submission(event_id, applicant).is_some() {
        return Ok(());
    }
    let count: u32 = env.storage.count(DataKey::EventSubmissionCount(event_id));
    if count == u32::MAX {
        return Err(Error::TooManyContributors);
    }
    env.put(DataKey::EventSubmissionCount(event_id), Entry::Count(count + 1));
    Ok(())
}

/// Removes the submission of `applicant` and uncounts it; does nothing where there is
/// none.
pub fn remove_submission(env: &mut Env, event_id: u64, applicant: Address)
    ensures
        final(env)@ == old(env)@.with_store(
            submission_removed(old(env)@.store, event_id, applicant),
        ),
        writes_behind(*old(env), *final(env), true),
{
    if env.storage.submission(event_id, applicant).is_none() {
        return;
    }
    let count: u32 = env.storage.count(DataKey::EventSubmissionCount(event_id));
    env.erase(DataKey::EventSubmission(event_id, applicant));
    env.put(
        DataKey::EventSubmissionCount(event_id),
        Entry::Count(count.saturating_sub(1)),
    );
}

/// `applicant` hands in work, or hands it in again. Bounties and grants take work only
/// from those who have applied.
pub fn submit(
    env: &mut Env,
    event_id: u64,
    applicant: Address,
    content_uri: Text,
    op_id: Bytes32,
) -> (r: Result<(), Error>)
    ensures
        match submit_denial(old(env)@, event_id) {
            Some(error) => r == Err::<(), Error>(error) && final(env)@ == old(env)@,
            None => match submit_refusal(old(env)@, event_id, applicant, content_uri, op_id) {
                Some(error) => r == Err::<(), Error>(error) && final(env)@
                    == old(env)@.authorized_by(applicant),
                None => r == Ok::<(), Error>(()) && final(env)@ == submitted(
                    old(env)@,
                    event_id,
                    applicant,
                    content_uri,
                    op_id,
                ),
            },
        },
        writes_behind(*old(env), *final(env), r is Ok),
{
    let event: EventRecord = event_to_change(env, event_id)?;
    if event.status != EventStatus::Active {
        return Err(Error::EventNotActive);
    }
    if env.storage.count(DataKey::EventWinnerCount(event_id)) > 0 || env.storage.number(
        DataKey::EventPrizeClaimExpiry(event_id),
    ).is_some() {
        return Err(Error::WinnersAlreadySelected);
    }
    if event.pillar == Pillar::Crowdfunding {
        return Err(Error::InvalidPillar);
    }
    env.require_auth(applicant);
    require_unseen(env, applicant, op_id)?;

    if text_len(&content_uri) > MAX_CONTENT_URI_LEN {
        return Err(Error::TitleTooLong);
    }
    let existing: Option<Submission> = env.storage.submission(event_id, applicant);
    if existing.is_none() {
        let needs_application: bool = event.pillar == Pillar::Bounty || event.pillar
            == Pillar::Grant;
        if needs_application && env.storage.count(DataKey::EventApplicantSlot(event_id, applicant))
            == 0 {
            return Err(Error::ApplicantNotApplied);
        }
    }
    append_submission(env, event_id, applicant)?;

    let now: u64 = env.timestamp;
    let submitted_at: u64 = match existing {
        Some(first) => first.submitted_at,
        None => now,
    };
    let submission: Submission = Submission {
        applicant,
        content_uri: text_clone(&content_uri),
        submitted_at,
        updated_at: Some(now),
    };
    env.put(DataKey::EventSubmission(event_id, applicant), Entry::Submission(submission));
    env.publish(Event::Submitted { event_id, applicant, content_uri });
    mark_seen(env, applicant, op_id);
    Ok(())
}

/// `applicant` takes back what was handed in.
pub fn withdraw_submission(
    env: &mut Env,
    event_id: u64,
    applicant: Address,
    op_id: Bytes32,
) -> (r: Result<(), Error>)
    ensures
        match submissions_closed(old(env)@, event_id) {
            Some(error) => r == Err::<(), Error>(error) && final(env)@ == old(env)@,
            None => match withdraw_refusal(old(env)@, event_id, applicant, op_id) {
                Some(error) => r == Err::<(), Error>(error) && final(env)@
                    == old(env)@.authorized_by(applicant),
                None => r == Ok::<(), Error>(()) && final(env)@ == withdrawn(
                    old(env)@,
                    event_id,
                    applicant,
                    op_id,
                ),
            },
        },
        writes_behind(*old(env), *final(env), r is Ok),
{
    let event: EventRecord = event_to_change(env, event_id)?;
    if event.status != EventStatus::Active {
        return Err(Error::EventNotActive);
    }
    if env.storage.count(DataKey::EventWinnerCount(event_id)) > 0 || env.storage.number(
        DataKey::EventPrizeClaimExpiry(event_id),
    ).is_some() {
        return Err(Error::WinnersAlreadySelected);
    }
    env.require_auth(applicant);
    require_unseen(env, applicant, op_id)?;
    if env.storage.submission(event_id, applicant).is_none() {
        return Err(Error::SubmissionNotFound);
    }
    remove_submission(env, event_id, applicant);
    env.publish(Event::SubmissionWithdrawn { event_id, applicant });
    mark_seen(env, applicant, op_id);
    Ok(())
}

} // verus!
