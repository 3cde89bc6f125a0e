use boundless_events::env::{Effect, Env, Event, ProfileCall, Settings};
use boundless_events::errors::Error;
use boundless_events::event_ops::submissions::remove_submission;
use boundless_events::event_ops::{
    claim_prize, create_event, get_event, get_submission, get_winners, select_winners, submit,
    withdraw_submission, MAX_CONTENT_URI_LEN,
};
use boundless_events::host::{Distribution, Text};
use boundless_events::storage::Entry;
use boundless_events::types::{
    Address, Bytes32, CreateEventParams, DataKey, EventStatus, Pillar, ReleaseKind, WinnerSpec,
};

const FEE_BPS: u32 = 250;
const MAX_FEE_BPS: u32 = 5_000;

const TOTAL_BUDGET: i128 = 10_000_0000000_i128;
const FEE_AMOUNT: i128 = (TOTAL_BUDGET * FEE_BPS as i128) / 10_000_i128;

/// What the operations have done to the world outside the contract: the token balances
/// and what the profile contract has heard.
struct Ctx {
    host: soroban_sdk::Env,
    env: Env,
    balances: Vec<(Address, Address, i128)>,
    reputation: Vec<(Address, u32)>,
    earnings: Vec<(Address, Address, i128)>,
    published: Vec<Event>,
    drawn: u128,
    owner: Address,
    applicant: Address,
    token_addr: Address,
    fee_account: Address,
}

fn setup() -> Ctx {
    let account = |n: u128| Address { is_contract: false, high: 1, low: n };
    let contract = |n: u128| Address { is_contract: true, high: 1, low: n };
    let fee_account = account(1);
    let owner = account(2);
    let applicant = account(3);
    let token_addr = contract(4);
    let settings =
        Settings { paused: false, fee_account, fee_bps: FEE_BPS, max_fee_bps: MAX_FEE_BPS };
    let mut env = Env::new(1_700_000_000, 1_000, contract(5), settings);
    env.put(DataKey::SupportedToken(token_addr), Entry::Flag(true));
    let mut ctx = Ctx {
        host: soroban_sdk::Env::default(),
        env,
        balances: Vec::new(),
        reputation: Vec::new(),
        earnings: Vec::new(),
        published: Vec::new(),
        drawn: 0,
        owner,
        applicant,
        token_addr,
        fee_account,
    };
    ctx.mint(owner, 1_000_000_0000000_i128);
    ctx
}

impl Ctx {
    fn text(&self, text: &str) -> Text {
        Text::from_str(&self.host, text)
    }

    fn distribution(&self, pairs: &[(u32, u32)]) -> Distribution {
        let mut map = soroban_sdk::Map::new(&self.host);
        for (position, percent) in pairs {
            map.set(*position, *percent);
        }
        Distribution::new(map).unwrap()
    }

    fn address(&mut self) -> Address {
        self.drawn += 1;
        Address { is_contract: false, high: 2, low: self.drawn }
    }

    fn op(&mut self) -> Bytes32 {
        self.drawn += 1;
        Bytes32 { high: 3, low: self.drawn }
    }

    fn add_to_balance(&mut self, token: Address, who: Address, amount: i128) {
        match self.balances.iter_mut().find(|(t, w, _)| *t == token && *w == who) {
            Some((_, _, balance)) => *balance += amount,
            None => self.balances.push((token, who, amount)),
        }
        assert!(self.balances.iter().all(|(_, _, balance)| *balance >= 0), "overdrawn");
    }

    fn mint(&mut self, who: Address, amount: i128) {
        self.add_to_balance(self.token_addr, who, amount);
    }

    fn balance(&self, who: Address) -> i128 {
        let mine = |(t, w, _): &&(Address, Address, i128)| *t == self.token_addr && *w == who;
        self.balances.iter().find(mine).map(|(_, _, balance)| *balance).unwrap_or(0)
    }

    fn reputation_of(&self, who: Address) -> Option<u32> {
        self.reputation.iter().find(|(w, _)| *w == who).map(|(_, reputation)| *reputation)
    }

    fn earnings_of(&self, who: Address) -> i128 {
        let mine = |(w, t, _): &&(Address, Address, i128)| *t == self.token_addr && *w == who;
        self.earnings.iter().find(mine).map(|(_, _, amount)| *amount).unwrap_or(0)
    }

    fn perform(&mut self, effect: Effect) {
        match effect {
            Effect::Transfer(t) => {
                self.add_to_balance(t.token, t.from, -t.amount);
                self.add_to_balance(t.token, t.to, t.amount);
            }
            Effect::Publish(event) => self.published.push(event),
            Effect::Profile(ProfileCall::Bootstrap { user, .. }) => {
                if self.reputation_of(user).is_none() {
                    self.reputation.push((user, 0));
                }
            }
            Effect::Profile(ProfileCall::BumpReputation { user, bump, .. }) => {
                let known = self.reputation.iter_mut().find(|(w, _)| *w == user).unwrap();
                known.1 += bump;
            }
            Effect::Profile(ProfileCall::RegisterEarnings { user, token, amount, .. }) => {
                match self.earnings.iter_mut().find(|(w, t, _)| *w == user && *t == token) {
                    Some((_, _, earned)) => *earned += amount,
                    None => self.earnings.push((user, token, amount)),
                }
            }
        }
    }

    /// One invocation: what it asks for is done if it succeeds; if it fails it has
    /// written nothing and asks for nothing.
    fn invoke<T>(
        &mut self,
        operation: impl FnOnce(&mut Env) -> Result<T, Error>,
    ) -> Result<T, Error> {
        self.env.auths.clear();
        let writes = self.env.storage.log.len();
        let result = operation(&mut self.env);
        let effects: Vec<Effect> = self.env.effects.drain(..).collect();
        if result.is_err() {
            assert_eq!(self.env.storage.log.len(), writes);
            assert!(effects.is_empty());
        }
        for effect in effects {
            self.perform(effect);
        }
        result
    }

    fn try_create_event(&mut self, params: CreateEventParams) -> Result<u64, Error> {
        let op = self.op();
        self.invoke(|env| create_event(env, params, op, Ok(())))
    }

    fn try_submit(&mut self, id: u64, who: Address, uri: &Text, op: Bytes32) -> Result<(), Error> {
        let uri = uri.clone();
        self.invoke(|env| submit(env, id, who, uri, op))
    }

    fn try_select(
        &mut self,
        id: u64,
        winners: &Vec<WinnerSpec>,
        op: Bytes32,
    ) -> Result<(), Error> {
        self.invoke(|env| select_winners(env, id, winners, op))
    }

    fn select(&mut self, id: u64, winners: &Vec<WinnerSpec>) {
        let op = self.op();
        self.try_select(id, winners, op).unwrap();
    }

    fn claim(&mut self, id: u64, position: u32) {
        let op = self.op();
        self.invoke(|env| claim_prize(env, id, position, op)).unwrap();
    }
}

impl Ctx {
    fn submission_count(&self, id: u64) -> u32 {
        self.env.storage.count(DataKey::EventSubmissionCount(id))
    }
}

fn winner(recipient: Address, position: u32, reputation_bump: u32) -> WinnerSpec {
    WinnerSpec { recipient, position, reputation_bump }
}

fn create_hackathon_with(ctx: &mut Ctx, dist: &[(u32, u32)], deadline: Option<u64>) -> u64 {
    let params = CreateEventParams {
        pillar: Pillar::Hackathon,
        owner: ctx.owner,
        token: ctx.token_addr,
        total_budget: TOTAL_BUDGET,
        release_kind: ReleaseKind::Single,
        content_uri: ctx.text("https://api.boundless.fi/hackathon"),
        title: ctx.text("Test Hackathon"),
        deadline,
        winner_distribution: ctx.distribution(dist),
        fee_bps_override: None,
        manager: None,
    };
    ctx.try_create_event(params).unwrap()
}

const THREE_WAY: [(u32, u32); 3] = [(1, 50), (2, 30), (3, 20)];

fn create_hackathon(ctx: &mut Ctx) -> u64 {
    let deadline = Some(ctx.env.timestamp + 86_400);
    create_hackathon_with(ctx, &[(1, 100)], deadline)
}

#[test]
fn create_deposits_full_budget_and_takes_fee_at_deposit() {
    let mut ctx = setup();
    let owner_before = ctx.balance(ctx.owner);

    let id = create_hackathon(&mut ctx);

    let event = get_event(&ctx.env, id).unwrap();
    assert_eq!(event.pillar, Pillar::Hackathon);
    assert_eq!(event.status, EventStatus::Active);
    assert_eq!(
        event.remaining_escrow, TOTAL_BUDGET,
        "hackathon escrows the full budget at create"
    );
    assert_eq!(owner_before - ctx.balance(ctx.owner), TOTAL_BUDGET + FEE_AMOUNT);
    assert_eq!(ctx.balance(ctx.fee_account), FEE_AMOUNT);
}

#[test]
fn create_rejects_multi_release_kind() {
    let mut ctx = setup();
    let params = CreateEventParams {
        pillar: Pillar::Hackathon,
        owner: ctx.owner,
        token: ctx.token_addr,
        total_budget: TOTAL_BUDGET,
        release_kind: ReleaseKind::Multi(3),
        content_uri: ctx.text("uri"),
        title: ctx.text("Bad Hackathon"),
        deadline: Some(ctx.env.timestamp + 86_400),
        winner_distribution: ctx.distribution(&[(1, 100)]),
        fee_bps_override: None,
        manager: None,
    };
    let res = ctx.try_create_event(params);
    assert!(res.is_err(), "hackathon must use Single release");
}

#[test]
fn submit_open_without_prior_apply_creates_anchor() {
    let mut ctx = setup();
    let id = create_hackathon(&mut ctx);
    let applicant = ctx.applicant;

    let uri = ctx.text("ipfs://Qm.../project.json");
    let op = ctx.op();
    ctx.try_submit(id, applicant, &uri, op).unwrap();

    let sub = get_submission(&ctx.env, id, applicant).unwrap();
    assert_eq!(sub.applicant, applicant);
    assert_eq!(sub.content_uri, uri);
    assert_eq!(sub.submitted_at, ctx.env.timestamp);
}

#[test]
fn resubmit_keeps_original_timestamp_and_updates_uri() {
    let mut ctx = setup();
    let id = create_hackathon(&mut ctx);
    let applicant = ctx.applicant;

    let uri_a = ctx.text("ipfs://Qm.../v1.json");
    let op_a = ctx.op();
    ctx.try_submit(id, applicant, &uri_a, op_a).unwrap();
    let first = get_submission(&ctx.env, id, applicant).unwrap();
    assert_eq!(first.submitted_at, ctx.env.timestamp);
    assert_eq!(first.updated_at, Some(ctx.env.timestamp));

    let uri_b = ctx.text("ipfs://Qm.../v2.json");
    let op_b = ctx.op();
    ctx.try_submit(id, applicant, &uri_b, op_b).unwrap();

    let second = get_submission(&ctx.env, id, applicant).unwrap();
    assert_eq!(second.content_uri, uri_b);
    assert_eq!(second.submitted_at, first.submitted_at);
    assert_eq!(second.updated_at, Some(ctx.env.timestamp));
}

#[test]
fn submit_and_withdraw_after_selection_rejected() {
    let mut ctx = setup();
    let id = create_hackathon(&mut ctx);
    let applicant = ctx.applicant;

    let uri = ctx.text("ipfs://Qm.../v1.json");
    let op = ctx.op();
    ctx.try_submit(id, applicant, &uri, op).unwrap();

    ctx.select(id, &vec![winner(applicant, 1, 0)]);

    let op = ctx.op();
    let res = ctx.try_submit(id, applicant, &uri, op);
    assert_eq!(res, Err(Error::WinnersAlreadySelected));

    let op = ctx.op();
    let res_w = ctx.invoke(|env| withdraw_submission(env, id, applicant, op));
    assert_eq!(res_w, Err(Error::WinnersAlreadySelected));
}

#[test]
fn submit_replayed_op_reverts() {
    let mut ctx = setup();
    let id = create_hackathon(&mut ctx);
    let applicant = ctx.applicant;

    let uri = ctx.text("ipfs://Qm.../v1.json");
    let op = ctx.op();
    ctx.try_submit(id, applicant, &uri, op).unwrap();

    let res = ctx.try_submit(id, applicant, &uri, op);
    assert!(res.is_err(), "replayed submit op_id must revert");
}

#[test]
fn hackathon_pillar_withdraw_submission_removes_anchor() {
    let mut ctx = setup();
    let id = create_hackathon(&mut ctx);
    let applicant = ctx.applicant;

    let uri = ctx.text("ipfs://Qm.../v1.json");
    let op_s = ctx.op();
    ctx.try_submit(id, applicant, &uri, op_s).unwrap();

    let op_w = ctx.op();
    ctx.invoke(|env| withdraw_submission(env, id, applicant, op_w)).unwrap();

    let res = get_submission(&ctx.env, id, applicant);
    assert!(res.is_err(), "withdrawn submission is no longer readable");
}

#[test]
fn remove_submission_on_nonexistent_entry_does_not_corrupt_counter() {
    let mut ctx = setup();
    let id = create_hackathon(&mut ctx);

    let submitter = ctx.address();
    let uri = ctx.text("ipfs://Qm.../v1.json");
    let op = ctx.op();
    ctx.try_submit(id, submitter, &uri, op).unwrap();

    let applicant = ctx.applicant;
    remove_submission(&mut ctx.env, id, applicant);

    let count = ctx.submission_count(id);
    assert_eq!(
        count, 1,
        "removing a nonexistent submission must not corrupt the counter"
    );
}

#[test]
fn withdraw_submission_frees_the_slot_for_future_submitters() {
    let mut ctx = setup();
    let id = create_hackathon(&mut ctx);
    let applicant = ctx.applicant;

    let uri = ctx.text("ipfs://Qm.../v1.json");
    let op = ctx.op();
    ctx.try_submit(id, applicant, &uri, op).unwrap();
    let op = ctx.op();
    ctx.invoke(|env| withdraw_submission(env, id, applicant, op)).unwrap();

    let count = ctx.submission_count(id);
    assert_eq!(
        count, 0,
        "withdrawing a submission must decrement the submission count"
    );
}

#[test]
fn submit_beyond_former_cap_succeeds() {
    let mut ctx = setup();
    let id = create_hackathon(&mut ctx);
    let applicant = ctx.applicant;

    ctx.env.put(DataKey::EventSubmissionCount(id), Entry::Count(5_000));

    let uri = ctx.text("ipfs://Qm.../v5001.json");
    let op = ctx.op();
    ctx.try_submit(id, applicant, &uri, op).unwrap();

    let count = ctx.submission_count(id);
    assert_eq!(
        count, 5_001,
        "submissions are unbounded; the counter must keep advancing past the former cap"
    );
}

#[test]
fn submit_at_counter_overflow_reverts() {
    let mut ctx = setup();
    let id = create_hackathon(&mut ctx);
    let applicant = ctx.applicant;

    ctx.env.put(DataKey::EventSubmissionCount(id), Entry::Count(u32::MAX));

    let uri = ctx.text("ipfs://Qm.../overflow.json");
    let op = ctx.op();
    let res = ctx.try_submit(id, applicant, &uri, op);
    assert_eq!(
        res,
        Err(Error::TooManyContributors),
        "a submission that would overflow the u32 counter must revert"
    );
}

#[test]
fn submit_oversized_content_uri_reverts() {
    let mut ctx = setup();
    let id = create_hackathon(&mut ctx);
    let applicant = ctx.applicant;

    let too_long = "x".repeat((MAX_CONTENT_URI_LEN + 1) as usize);
    let uri = ctx.text(&too_long);
    let op = ctx.op();
    let res = ctx.try_submit(id, applicant, &uri, op);
    assert_eq!(
        res,
        Err(Error::TitleTooLong),
        "content_uri beyond MAX_CONTENT_URI_LEN must revert"
    );
}

#[test]
fn resubmit_by_existing_applicant_does_not_increment_submission_count() {
    let mut ctx = setup();
    let id = create_hackathon(&mut ctx);
    let applicant = ctx.applicant;

    let uri_a = ctx.text("ipfs://Qm.../v1.json");
    let op = ctx.op();
    ctx.try_submit(id, applicant, &uri_a, op).unwrap();
    let count_after_first = ctx.submission_count(id);
    assert_eq!(count_after_first, 1);

    let uri_b = ctx.text("ipfs://Qm.../v2.json");
    let op = ctx.op();
    ctx.try_submit(id, applicant, &uri_b, op).unwrap();
    let count_after_second = ctx.submission_count(id);
    assert_eq!(
        count_after_second, 1,
        "re-submission by an existing applicant updates in place and must not \
         recount against the cap"
    );
}

#[test]
fn select_winners_single_recipient_sweeps_escrow() {
    let mut ctx = setup();
    let id = create_hackathon(&mut ctx);
    let applicant = ctx.applicant;
    let winner_before = ctx.balance(applicant);
    let fee_before = ctx.balance(ctx.fee_account);

    ctx.select(id, &vec![winner(applicant, 1, 50)]);

    assert_eq!(ctx.balance(applicant) - winner_before, 0);
    ctx.claim(id, 1);

    assert_eq!(ctx.balance(applicant) - winner_before, TOTAL_BUDGET);
    assert_eq!(ctx.balance(ctx.fee_account) - fee_before, 0);
    assert_eq!(ctx.reputation_of(applicant), Some(50));
    assert_eq!(ctx.earnings_of(applicant), TOTAL_BUDGET);

    let event = get_event(&ctx.env, id).unwrap();
    assert_eq!(event.status, EventStatus::Completed);
    assert_eq!(event.remaining_escrow, 0);

    let winner_list = get_winners(&ctx.env, id).unwrap();
    assert_eq!(winner_list.len(), 1);
    let w = winner_list[0];
    assert_eq!(w.recipient, applicant);
    assert_eq!(w.position, 1);
    assert_eq!(w.amount, TOTAL_BUDGET);
    assert!(w.milestone.is_none());
    assert!(w.paid_at.is_some());
}

#[test]
fn select_winners_multi_position_splits_by_distribution() {
    let mut ctx = setup();
    let deadline = Some(ctx.env.timestamp + 86_400);
    let id = create_hackathon_with(&mut ctx, &THREE_WAY, deadline);

    let first = ctx.address();
    let second = ctx.address();
    let third = ctx.address();
    let fee_before = ctx.balance(ctx.fee_account);

    ctx.select(id, &vec![winner(first, 1, 60), winner(second, 2, 40), winner(third, 3, 20)]);
    ctx.claim(id, 1);
    ctx.claim(id, 2);
    ctx.claim(id, 3);

    let amt_1 = TOTAL_BUDGET * 50 / 100;
    let amt_2 = TOTAL_BUDGET * 30 / 100;
    let amt_3 = TOTAL_BUDGET * 20 / 100;
    assert_eq!(ctx.balance(first), amt_1);
    assert_eq!(ctx.balance(second), amt_2);
    assert_eq!(ctx.balance(third), amt_3);
    assert_eq!(ctx.balance(ctx.fee_account) - fee_before, 0);

    assert_eq!(ctx.reputation_of(first), Some(60));
    assert_eq!(ctx.reputation_of(second), Some(40));
    assert_eq!(ctx.reputation_of(third), Some(20));

    let event = get_event(&ctx.env, id).unwrap();
    assert_eq!(event.status, EventStatus::Completed);
    assert_eq!(event.remaining_escrow, 0);
    assert_eq!(get_winners(&ctx.env, id).unwrap().len(), 3);
}

#[test]
fn select_winners_empty_set_reverts() {
    let mut ctx = setup();
    let id = create_hackathon(&mut ctx);

    let op = ctx.op();
    let res = ctx.try_select(id, &vec![], op);
    assert!(res.is_err(), "empty winner set must revert");
}

#[test]
fn select_winners_position_not_in_distribution_reverts() {
    let mut ctx = setup();
    let id = create_hackathon(&mut ctx);

    let winners = vec![winner(ctx.applicant, 2, 0)];
    let op = ctx.op();
    let res = ctx.try_select(id, &winners, op);
    assert!(res.is_err(), "position outside distribution must revert");
}

#[test]
fn select_winners_duplicate_position_reverts() {
    let mut ctx = setup();
    let deadline = Some(ctx.env.timestamp + 86_400);
    let id = create_hackathon_with(&mut ctx, &THREE_WAY, deadline);

    let other = ctx.address();
    let winners = vec![winner(ctx.applicant, 1, 0), winner(other, 1, 0)];
    let op = ctx.op();
    let res = ctx.try_select(id, &winners, op);
    assert!(res.is_err(), "duplicate position must revert");
}

#[test]
fn select_winners_batches_append_and_position_replay_reverts() {
    let mut ctx = setup();
    let deadline = Some(ctx.env.timestamp + 86_400);
    let id = create_hackathon_with(&mut ctx, &THREE_WAY, deadline);
    let applicant = ctx.applicant;

    ctx.select(id, &vec![winner(applicant, 1, 0)]);
    assert_eq!(get_event(&ctx.env, id).unwrap().status, EventStatus::Active);

    let usurper = ctx.address();
    let op = ctx.op();
    let res = ctx.try_select(id, &vec![winner(usurper, 1, 0)], op);
    assert!(res.is_err(), "re-awarding a taken position must revert");

    let second = ctx.address();
    let third = ctx.address();
    ctx.select(id, &vec![winner(second, 2, 0), winner(third, 3, 0)]);

    ctx.claim(id, 1);
    ctx.claim(id, 2);
    ctx.claim(id, 3);

    assert_eq!(ctx.balance(applicant), TOTAL_BUDGET * 50 / 100);
    assert_eq!(ctx.balance(second), TOTAL_BUDGET * 30 / 100);
    assert_eq!(ctx.balance(third), TOTAL_BUDGET * 20 / 100);
    assert_eq!(get_event(&ctx.env, id).unwrap().status, EventStatus::Completed);
}

#[test]
fn select_winners_replayed_op_reverts() {
    let mut ctx = setup();
    let id = create_hackathon(&mut ctx);

    let winners = vec![winner(ctx.applicant, 1, 0)];
    let op = ctx.op();
    ctx.try_select(id, &winners, op).unwrap();

    let res = ctx.try_select(id, &winners, op);
    assert!(res.is_err(), "replayed select_winners op_id must revert");
}

#[test]
fn select_winners_on_missing_event_reverts() {
    let mut ctx = setup();
    let winners = vec![winner(ctx.applicant, 1, 0)];
    let op = ctx.op();
    let res = ctx.try_select(404, &winners, op);
    assert!(res.is_err(), "unknown event id must revert");
}

#[test]
fn select_winners_on_completed_event_reverts() {
    let mut ctx = setup();
    let id = create_hackathon(&mut ctx);
    let applicant = ctx.applicant;

    ctx.select(id, &vec![winner(applicant, 1, 0)]);
    assert_eq!(get_event(&ctx.env, id).unwrap().status, EventStatus::Active);
    ctx.claim(id, 1);
    assert_eq!(get_event(&ctx.env, id).unwrap().status, EventStatus::Completed);

    let again = ctx.address();
    let op2 = ctx.op();
    let res = ctx.try_select(id, &vec![winner(again, 1, 0)], op2);
    assert!(
        res.is_err(),
        "select_winners on a Completed event must revert"
    );
}

#[test]
fn select_winners_demands_owner_auth() {
    let mut ctx = setup();
    let id = create_hackathon(&mut ctx);
    let events_admin = ctx.address();
    ctx.env.put(DataKey::Admin, Entry::Address(events_admin));

    let winners = vec![winner(ctx.applicant, 1, 0)];
    let op = ctx.op();
    ctx.try_select(id, &winners, op).unwrap();

    let owner_required = ctx.env.auths.iter().any(|who| *who == ctx.owner);
    assert!(
        owner_required,
        "select_winners must demand the event owner's auth"
    );
    assert!(
        !ctx.env.auths.iter().any(|who| *who == events_admin),
        "the events admin is not an authorizer of select_winners"
    );
}
