//! The operations on events.
pub mod cancel;
pub mod create;
pub mod funds;
pub mod manager;
pub mod reads;
pub mod submissions;
pub mod winners;

pub use crate::event_ops::cancel::{finalize_cancel, process_cancel_batch, start_cancel};
pub use crate::event_ops::create::create_event;
pub use crate::event_ops::funds::add_funds;
pub use crate::event_ops::manager::{
    accept_manager, cancel_pending_manager, get_manager, get_pending_manager, propose_manager,
};
pub use crate::event_ops::reads::{
    get_applicant_at, get_applicant_count, get_applicants, get_applicants_page,
    get_contributor_amount, get_contributor_at, get_contributor_count, get_contributors,
    get_contributors_page, get_event, get_submission, get_winner_at, get_winner_count, get_winners,
    get_winners_page,
};
pub use crate::event_ops::submissions::{submit, withdraw_submission};
pub use crate::event_ops::winners::{claim_prize, select_winners};

use vstd::prelude::*;

verus! {

pub const MAX_TITLE_LEN: u32 = 120;

pub const MAX_WINNERS_PER_SELECT: u32 = 50;

/// How many ledgers a proposed manager has to accept.
pub const PENDING_MANAGER_TTL_LEDGERS: u32 = 17_280;

/// How long a winner is sure to be able to claim: ninety days from the selection, not
/// from the event's deadline, which has usually passed by then.
pub const PRIZE_CLAIM_WINDOW_SECS: u64 = 7_776_000;

/// How many entries of a list one read returns. The lists themselves are unbounded:
/// every entry is paid for by the participant who adds it, and no operation walks a
/// whole list.
pub const VIEW_PAGE_LIMIT: u32 = 100;

pub const MAX_CONTENT_URI_LEN: u32 = 256;

pub const MAX_REFUNDS_PER_BATCH: u32 = 25;

pub const MIN_CONTRIBUTION_STROOPS: i128 = 100_000_000;

} // verus!
