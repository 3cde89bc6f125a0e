//! Who may hand in work, and what comes of handing it in and taking it back.
use crate::env::{Effect, Env, EnvView, Event};
use crate::errors::Error;
use crate::event_ops::submissions::{
    append_submission, remove_submission, submit, withdraw_submission,
};
use crate::host::{text_bytes, Text};
use crate::storage::{
    claim_expiry_in, count_in, event_in, flag_in, submission_count_in, submission_in,
    winner_count_in, Entry,
};
use crate::types::{Address, Bytes32, DataKey, EventRecord, EventStatus, Pillar, Submission};
use vstd::prelude::*;

verus! {

/// Anyone may hand in work to an active event that has no winners yet, while the contract
/// is not paused: to a hackathon as it is, to a bounty or a grant whoever holds a place
/// among the applicants, whichever place it is, and whoever has handed in before may do so
/// again without one. The address of the work is at most 256 bytes long, the operation is
/// new to the applicant, and the count has not run out.
pub proof fn law_applicant_may_submit(
    env: &mut Env,
    id: u64,
    applicant: Address,
    content_uri: Text,
    op_id: Bytes32,
    r: Result<(), Error>,
    event: EventRecord,
)
    requires
        call_ensures(submit, (env, id, applicant, content_uri, op_id), r),
        event_in(old(env)@.store, id) == Some(event),
    ensures
        r is Ok <==> ({
            let s = old(env)@.store;
            &&& !old(env)@.settings.paused
            &&& event.status == EventStatus::Active
            &&& winner_count_in(s, id) == 0
            &&& claim_expiry_in(s, id) is None
            &&& event.pillar != Pillar::Crowdfunding
            &&& !flag_in(s, DataKey::OpSeen(applicant, op_id))
            &&& text_bytes(content_uri).len() <= 256
            &&& submission_in(s, id, applicant) is Some || {
                &&& event.pillar == Pillar::Hackathon || count_in(
                    s,
                    DataKey::EventApplicantSlot(id, applicant),
                ) >= 1
                &&& submission_count_in(s, id) < u32::MAX
            }
        }),
{
}

/// Work that is refused is refused for the first of these reasons that holds, and leaves
/// no trace but that the applicant was asked, if it got that far.
pub proof fn law_refused_submission_says_why(
    env: &mut Env,
    id: u64,
    applicant: Address,
    content_uri: Text,
    op_id: Bytes32,
    r: Result<(), Error>,
)
    requires
        call_ensures(submit, (env, id, applicant, content_uri, op_id), r),
    ensures
        ({
            let s = old(env)@.store;
            let paused = old(env)@.settings.paused;
            let there = event_in(s, id) is Some;
            let event = event_in(s, id).unwrap();
            let active = there && event.status == EventStatus::Active;
            let decided = winner_count_in(s, id) > 0 || claim_expiry_in(s, id) is Some;
            let asked = !paused && active && !decided && event.pillar != Pillar::Crowdfunding;
            let seen = flag_in(s, DataKey::OpSeen(applicant, op_id));
            let long = text_bytes(content_uri).len() > 256;
            let first = submission_in(s, id, applicant) is None;
            let stranger = first && event.pillar != Pillar::Hackathon && count_in(
                s,
                DataKey::EventApplicantSlot(id, applicant),
            ) == 0;
            &&& paused ==> r == Err::<(), Error>(Error::Paused)
            &&& !paused && !there ==> r == Err::<(), Error>(Error::EventNotFound)
            &&& !paused && there && !active ==> r == Err::<(), Error>(Error::EventNotActive)
            &&& !paused && active && decided ==> r == Err::<(), Error>(
                Error::WinnersAlreadySelected,
            )
            &&& !paused && active && !decided && event.pillar == Pillar::Crowdfunding ==> r
                == Err::<(), Error>(Error::InvalidPillar)
            &&& asked && seen ==> r == Err::<(), Error>(Error::DuplicateOperation)
            &&& asked && !seen && long ==> r == Err::<(), Error>(Error::TitleTooLong)
            &&& asked && !seen && !long && stranger ==> r == Err::<(), Error>(
                Error::ApplicantNotApplied,
            )
            &&& asked && !seen && !long && !stranger && r is Err ==> r == Err::<(), Error>(
                Error::TooManyContributors,
            )
            &&& final(env)@.auths == if asked {
                old(env)@.auths.push(applicant)
            } else {
                old(env)@.auths
            }
        }),
        r is Err ==> final(env)@ == (EnvView { auths: final(env)@.auths, ..old(env)@ }),
{
}

/// Work that is handed in is on file under the applicant's name, with the time of the
/// first and of the last handing in; it is counted the first time, and announced.
pub proof fn law_submission_goes_on_file(
    env: &mut Env,
    id: u64,
    applicant: Address,
    content_uri: Text,
    op_id: Bytes32,
    r: Result<(), Error>,
)
    requires
        call_ensures(submit, (env, id, applicant, content_uri, op_id), r),
        r is Ok,
    ensures
        ({
            let s = old(env)@.store;
            let now = old(env)@.timestamp;
            let earlier = submission_in(s, id, applicant);
            let filed = |submitted_at: u64|
                s.insert(DataKey::OpSeen(applicant, op_id), Entry::Flag(true)).insert(
                    DataKey::EventSubmission(id, applicant),
                    Entry::Submission(
                        Submission { applicant, content_uri, submitted_at, updated_at: Some(now) },
                    ),
                );
            &&& earlier is Some ==> final(env)@.store == filed(earlier.unwrap().submitted_at)
            &&& earlier is None ==> final(env)@.store == filed(now).insert(
                DataKey::EventSubmissionCount(id),
                Entry::Count((submission_count_in(s, id) + 1) as u32),
            )
        }),
        final(env)@ == (EnvView {
            store: final(env)@.store,
            auths: old(env)@.auths.push(applicant),
            effects: old(env)@.effects.push(
                Effect::Publish(Event::Submitted { event_id: id, applicant, content_uri }),
            ),
            ..old(env)@
        }),
{
}

/// Whoever has work on file with an active event that has no winners yet may take it back,
/// while the contract is not paused, in an operation that is new to the applicant.
pub proof fn law_applicant_may_withdraw(
    env: &mut Env,
    id: u64,
    applicant: Address,
    op_id: Bytes32,
    r: Result<(), Error>,
)
    requires
        call_ensures(withdraw_submission, (env, id, applicant, op_id), r),
    ensures
        ({
            let s = old(env)@.store;
            let paused = old(env)@.settings.paused;
            let there = event_in(s, id) is Some;
            let active = there && event_in(s, id).unwrap().status == EventStatus::Active;
            let decided = winner_count_in(s, id) > 0 || claim_expiry_in(s, id) is Some;
            let asked = !paused && active && !decided;
            let seen = flag_in(s, DataKey::OpSeen(applicant, op_id));
            let on_file = submission_in(s, id, applicant) is Some;
            &&& r is Ok <==> asked && !seen && on_file
            &&& paused ==> r == Err::<(), Error>(Error::Paused)
            &&& !paused && !there ==> r == Err::<(), Error>(Error::EventNotFound)
            &&& !paused && there && !active ==> r == Err::<(), Error>(Error::EventNotActive)
            &&& !paused && active && decided ==> r == Err::<(), Error>(
                Error::WinnersAlreadySelected,
            )
            &&& asked && seen ==> r == Err::<(), Error>(Error::DuplicateOperation)
            &&& asked && !seen && !on_file ==> r == Err::<(), Error>(Error::SubmissionNotFound)
            &&& final(env)@.auths == if asked {
                old(env)@.auths.push(applicant)
            } else {
                old(env)@.auths
            }
        }),
        r is Err ==> final(env)@ == (EnvView { auths: final(env)@.auths, ..old(env)@ }),
{
}

/// Work that is taken back is no longer on file nor counted, and that is announced.
pub proof fn law_withdrawal_takes_submission_off_file(
    env: &mut Env,
    id: u64,
    applicant: Address,
    op_id: Bytes32,
    r: Result<(), Error>,
)
    requires
        call_ensures(withdraw_submission, (env, id, applicant, op_id), r),
        r is Ok,
    ensures
        ({
            let s = old(env)@.store;
            let count = submission_count_in(s, id);
            final(env)@ == (EnvView {
                store: s.insert(DataKey::OpSeen(applicant, op_id), Entry::Flag(true)).remove(
                    DataKey::EventSubmission(id, applicant),
                ).insert(
                    DataKey::EventSubmissionCount(id),
                    Entry::Count(
                        if count == 0 {
                            0
                        } else {
                            (count - 1) as u32
                        },
                    ),
                ),
                auths: old(env)@.auths.push(applicant),
                effects: old(env)@.effects.push(
                    Effect::Publish(Event::SubmissionWithdrawn { event_id: id, applicant }),
                ),
                ..old(env)@
            })
        }),
{
}

/// A submission is counted once for each applicant, as long as the count has not run out,
/// and nothing else happens.
pub proof fn law_submission_is_counted_once(
    env: &mut Env,
    id: u64,
    applicant: Address,
    r: Result<(), Error>,
)
    requires
        call_ensures(append_submission, (env, id, applicant), r),
    ensures
        ({
            let s = old(env)@.store;
            let count = submission_count_in(s, id);
            let first = submission_in(s, id, applicant) is None;
            &&& !first ==> r is Ok && final(env)@ == old(env)@
            &&& first && count == u32::MAX ==> r == Err::<(), Error>(Error::TooManyContributors)
                && final(env)@ == old(env)@
            &&& first && count < u32::MAX ==> r is Ok && final(env)@ == (EnvView {
                store: s.insert(
                    DataKey::EventSubmissionCount(id),
                    Entry::Count((count + 1) as u32),
                ),
                ..old(env)@
            })
        }),
{
}

/// A submission that is removed is no longer on file nor counted; where none is on file
/// nothing happens.
pub proof fn law_removed_submission_is_uncounted(
    env: &mut Env,
    id: u64,
    applicant: Address,
)
    requires
        call_ensures(remove_submission, (env, id, applicant), ()),
    ensures
        ({
            let s = old(env)@.store;
            let count = submission_count_in(s, id);
            let left = if count == 0 {
                0
            } else {
                (count - 1) as u32
            };
            &&& submission_in(s, id, applicant) is None ==> final(env)@ == old(env)@
            &&& submission_in(s, id, applicant) is Some ==> final(env)@ == (EnvView {
                store: s.remove(DataKey::EventSubmission(id, applicant)).insert(
                    DataKey::EventSubmissionCount(id),
                    Entry::Count(left),
                ),
                ..old(env)@
            })
        }),
{
}

} // verus!
