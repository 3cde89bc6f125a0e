//! What is on file and how it is counted.
use crate::env::EnvView;
use crate::errors::Error;
use crate::event_ops::submissions::{
    submission_removed, submissions_closed, submit_denial, submit_refusal, submitted,
    withdraw_refusal, withdrawn,
};
use crate::event_ops::winners::{
    base_recorded, prize_base, prizes_awarded, rows_added, select_denial, select_refusal,
    winners_recorded,
};
use crate::host::Text;
use crate::storage::{event_in, submission_count_in, submission_in, winner_count_in, Store};
use crate::types::{Address, Bytes32, ReleaseKind, WinnerSpec};
use vstd::prelude::*;

verus! {

/// What has been handed in is what is read back. The first time is kept when it is handed
/// in again.
pub proof fn law_submission_is_read_back(
    env: EnvView,
    id: u64,
    applicant: Address,
    content_uri: Text,
    op_id: Bytes32,
)
    ensures
        submission_in(submitted(env, id, applicant, content_uri, op_id).store, id, applicant)
            matches Some(on_file) && on_file.applicant == applicant && on_file.content_uri
            == content_uri && on_file.updated_at == Some(env.timestamp) && on_file.submitted_at
            == match submission_in(env.store, id, applicant) {
            Some(first) => first.submitted_at,
            None => env.timestamp,
        },
{
}

/// What has been withdrawn is not read back, and cannot be withdrawn again.
pub proof fn law_withdrawn_submission_is_gone(
    env: EnvView,
    id: u64,
    applicant: Address,
    op_id: Bytes32,
    next_op: Bytes32,
)
    ensures
        submission_in(withdrawn(env, id, applicant, op_id).store, id, applicant) is None,
        withdraw_refusal(withdrawn(env, id, applicant, op_id), id, applicant, next_op) is Some,
{
}

/// Whether someone has a submission on file.
pub open spec fn has_submission(s: Store, id: u64) -> spec_fn(Address) -> bool {
    |who: Address| submission_in(s, id, who) is Some
}

/// Whether the counter of an event counts the submissions on file.
pub open spec fn counts_submissions(s: Store, id: u64) -> bool {
    let submitters = Set::new(has_submission(s, id));
    submitters.finite() && submission_count_in(s, id) == submitters.len()
}

/// Handing in keeps the count right: a first submission counts one more, another one of
/// the same applicant does not.
pub proof fn law_submit_keeps_count(
    env: EnvView,
    id: u64,
    applicant: Address,
    content_uri: Text,
    op_id: Bytes32,
)
    requires
        counts_submissions(env.store, id),
        submit_refusal(env, id, applicant, content_uri, op_id) is None,
    ensures
        counts_submissions(submitted(env, id, applicant, content_uri, op_id).store, id),
        submission_count_in(submitted(env, id, applicant, content_uri, op_id).store, id)
            == submission_count_in(env.store, id) + if submission_in(
            env.store,
            id,
            applicant,
        ) is Some {
            0int
        } else {
            1int
        },
{
    let after = submitted(env, id, applicant, content_uri, op_id).store;
    let before_set = Set::new(has_submission(env.store, id));
    let after_set = Set::new(has_submission(after, id));
    assert(after_set =~= before_set.insert(applicant));
}

/// Withdrawing keeps the count right: one less.
pub proof fn law_withdraw_keeps_count(env: EnvView, id: u64, applicant: Address, op_id: Bytes32)
    requires
        counts_submissions(env.store, id),
        withdraw_refusal(env, id, applicant, op_id) is None,
    ensures
        counts_submissions(withdrawn(env, id, applicant, op_id).store, id),
        submission_count_in(withdrawn(env, id, applicant, op_id).store, id)
            == submission_count_in(env.store, id) - 1,
{
    let after = withdrawn(env, id, applicant, op_id).store;
    let before_set = Set::new(has_submission(env.store, id));
    let after_set = Set::new(has_submission(after, id));
    assert(before_set.contains(applicant));
    assert(after_set =~= before_set.remove(applicant));
    assert(before_set.len() >= 1);
}

/// Removing what is not on file changes nothing.
pub proof fn law_removing_nothing_changes_nothing(s: Store, id: u64, applicant: Address)
    requires
        submission_in(s, id, applicant) is None,
    ensures
        submission_removed(s, id, applicant) == s,
{
}

proof fn lemma_rows_counted(s: Store, id: u64, winners: Seq<WinnerSpec>, n: int)
    requires
        0 <= n,
        winner_count_in(s, id) + n <= u32::MAX,
    ensures
        winner_count_in(rows_added(s, id, winners, n), id) == winner_count_in(s, id) + n,
    decreases n,
{
    if n > 0 {
        lemma_rows_counted(s, id, winners, n - 1);
    }
}

proof fn lemma_awards_counted(
    s: Store,
    id: u64,
    winners: Seq<WinnerSpec>,
    distribution: Seq<(u32, u32)>,
    base: i128,
    n: int,
)
    requires
        0 <= n,
        winner_count_in(s, id) + n <= u32::MAX,
    ensures
        winner_count_in(prizes_awarded(s, id, winners, distribution, base, n), id)
            == winner_count_in(s, id) + n,
    decreases n,
{
    if n > 0 {
        lemma_awards_counted(s, id, winners, distribution, base, n - 1);
    }
}

/// Once winners have been selected, work is neither taken nor given back.
pub proof fn law_selection_closes_submissions(
    env: EnvView,
    id: u64,
    winners: Seq<WinnerSpec>,
    op_id: Bytes32,
)
    requires
        select_denial(env, id) is None,
        select_refusal(env, id, winners, op_id) is None,
        winner_count_in(env.store, id) + winners.len() <= u32::MAX,
    ensures
        winner_count_in(winners_recorded(env, id, winners, op_id).store, id) == winner_count_in(
            env.store,
            id,
        ) + winners.len(),
        submit_denial(winners_recorded(env, id, winners, op_id), id) == Some(
            Error::WinnersAlreadySelected,
        ),
        submissions_closed(winners_recorded(env, id, winners, op_id), id) == Some(
            Error::WinnersAlreadySelected,
        ),
{
    let s = env.store;
    let n = winners.len() as int;
    let event = event_in(s, id).unwrap();
    if event.release_kind == ReleaseKind::Single {
        let recorded = base_recorded(s, id);
        assert(winner_count_in(recorded, id) == winner_count_in(s, id));
        lemma_awards_counted(
            recorded,
            id,
            winners,
            event.winner_distribution@,
            prize_base(s, id),
            n,
        );
    } else {
        lemma_rows_counted(s, id, winners, n);
    }
}

} // verus!
