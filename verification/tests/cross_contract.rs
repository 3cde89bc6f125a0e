use boundless_events::env::{Effect, Env, Event, ProfileCall, Settings};
use boundless_events::errors::Error;
use boundless_events::event_ops::{
    accept_manager, add_funds, cancel_pending_manager, claim_prize, create_event, finalize_cancel,
    get_event, get_manager, get_pending_manager, get_submission, get_winners, process_cancel_batch,
    propose_manager, select_winners, start_cancel, submit, withdraw_submission,
};
use boundless_events::host::{Distribution, Text};
use boundless_events::storage::Entry;
use boundless_events::types::{
    Address, Bytes32, CreateEventParams, DataKey, EventStatus, Pillar, ReleaseKind, WinnerSpec,
};

const FEE_BPS: u32 = 250;
const MAX_FEE_BPS: u32 = 5_000;

/// What the operations have done to the world outside the contract: the token balances
/// and what the profile contract has heard.
struct Ctx {
    host: soroban_sdk::Env,
    env: Env,
    balances: Vec<(Address, Address, i128)>,
    reputation: Vec<(Address, u32)>,
    earnings: Vec<(Address, Address, i128)>,
    published: Vec<Event>,
    drawn: u128,
    owner: Address,
    applicant: Address,
    token_addr: Address,
    fee_account: Address,
}

fn setup() -> Ctx {
    let account = |n: u128| Address { is_contract: false, high: 1, low: n };
    let contract = |n: u128| Address { is_contract: true, high: 1, low: n };
    let fee_account = account(1);
    let owner = account(2);
    let applicant = account(3);
    let token_addr = contract(4);
    let settings =
        Settings { paused: false, fee_account, fee_bps: FEE_BPS, max_fee_bps: MAX_FEE_BPS };
    let mut env = Env::new(1_700_000_000, 1_000, contract(5), settings);
    env.put(DataKey::SupportedToken(token_addr), Entry::Flag(true));
    let mut ctx = Ctx {
        host: soroban_sdk::Env::default(),
        env,
        balances: Vec::new(),
        reputation: Vec::new(),
        earnings: Vec::new(),
        published: Vec::new(),
        drawn: 0,
        owner,
        applicant,
        token_addr,
        fee_account,
    };
    ctx.mint(owner, 1_000_000_0000000_i128);
    ctx
}

impl Ctx {
    fn text(&self, text: &str) -> Text {
        Text::from_str(&self.host, text)
    }

    fn distribution(&self, pairs: &[(u32, u32)]) -> Distribution {
        let mut map = soroban_sdk::Map::new(&self.host);
        for (position, percent) in pairs {
            map.set(*position, *percent);
        }
        Distribution::new(map).unwrap()
    }

    fn address(&mut self) -> Address {
        self.drawn += 1;
        Address { is_contract: false, high: 2, low: self.drawn }
    }

    fn op(&mut self) -> Bytes32 {
        self.drawn += 1;
        Bytes32 { high: 3, low: self.drawn }
    }

    fn add_to_balance(&mut self, token: Address, who: Address, amount: i128) {
        match self.balances.iter_mut().find(|(t, w, _)| *t == token && *w == who) {
            Some((_, _, balance)) => *balance += amount,
            None => self.balances.push((token, who, amount)),
        }
        assert!(self.balances.iter().all(|(_, _, balance)| *balance >= 0), "overdrawn");
    }

    fn mint(&mut self, who: Address, amount: i128) {
        self.add_to_balance(self.token_addr, who, amount);
    }

    fn balance(&self, who: Address) -> i128 {
        let mine = |(t, w, _): &&(Address, Address, i128)| *t == self.token_addr && *w == who;
        self.balances.iter().find(mine).map(|(_, _, balance)| *balance).unwrap_or(0)
    }

    fn reputation_of(&self, who: Address) -> Option<u32> {
        self.reputation.iter().find(|(w, _)| *w == who).map(|(_, reputation)| *reputation)
    }

    fn earnings_of(&self, who: Address) -> i128 {
        let mine = |(w, t, _): &&(Address, Address, i128)| *t == self.token_addr && *w == who;
        self.earnings.iter().find(mine).map(|(_, _, amount)| *amount).unwrap_or(0)
    }

    fn perform(&mut self, effect: Effect) {
        match effect {
            Effect::Transfer(t) => {
                self.add_to_balance(t.token, t.from, -t.amount);
                self.add_to_balance(t.token, t.to, t.amount);
            }
            Effect::Publish(event) => self.published.push(event),
            Effect::Profile(ProfileCall::Bootstrap { user, .. }) => {
                if self.reputation_of(user).is_none() {
                    self.reputation.push((user, 0));
                }
            }
            Effect::Profile(ProfileCall::BumpReputation { user, bump, .. }) => {
                let known = self.reputation.iter_mut().find(|(w, _)| *w == user).unwrap();
                known.1 += bump;
            }
            Effect::Profile(ProfileCall::RegisterEarnings { user, token, amount, .. }) => {
                match self.earnings.iter_mut().find(|(w, t, _)| *w == user && *t == token) {
                    Some((_, _, earned)) => *earned += amount,
                    None => self.earnings.push((user, token, amount)),
                }
            }
        }
    }

    /// One invocation: what it asks for is done if it succeeds; if it fails it has
    /// written nothing and asks for nothing.
    fn invoke<T>(
        &mut self,
        operation: impl FnOnce(&mut Env) -> Result<T, Error>,
    ) -> Result<T, Error> {
        self.env.auths.clear();
        let writes = self.env.storage.log.len();
        let result = operation(&mut self.env);
        let effects: Vec<Effect> = self.env.effects.drain(..).collect();
        if result.is_err() {
            assert_eq!(self.env.storage.log.len(), writes);
            assert!(effects.is_empty());
        }
        for effect in effects {
            self.perform(effect);
        }
        result
    }

    fn try_create_event(&mut self, params: CreateEventParams) -> Result<u64, Error> {
        let op = self.op();
        self.invoke(|env| create_event(env, params, op, Ok(())))
    }

    fn try_submit(&mut self, id: u64, who: Address, uri: &Text, op: Bytes32) -> Result<(), Error> {
        let uri = uri.clone();
        self.invoke(|env| submit(env, id, who, uri, op))
    }

    fn try_select(
        &mut self,
        id: u64,
        winners: &Vec<WinnerSpec>,
        op: Bytes32,
    ) -> Result<(), Error> {
        self.invoke(|env| select_winners(env, id, winners, op))
    }

    fn select(&mut self, id: u64, winners: &Vec<WinnerSpec>) {
        let op = self.op();
        self.try_select(id, winners, op).unwrap();
    }

    fn claim(&mut self, id: u64, position: u32) {
        let op = self.op();
        self.invoke(|env| claim_prize(env, id, position, op)).unwrap();
    }
}

impl Ctx {
    fn apply_to_bounty(&mut self, id: u64, who: Address) {
        self.env.put(DataKey::EventApplicantAt(id, 0), Entry::Address(who));
        self.env.put(DataKey::EventApplicantCount(id), Entry::Count(1));
        self.env.put(DataKey::EventApplicantSlot(id, who), Entry::Count(1));
    }

    fn drive_cancel(&mut self, id: u64) {
        let op = self.op();
        self.invoke(|env| start_cancel(env, id, op)).unwrap();
        if get_event(&self.env, id).unwrap().status == EventStatus::Cancelled {
            return;
        }
        loop {
            let op = self.op();
            if self.invoke(|env| process_cancel_batch(env, id, 25, op)).unwrap() == 0 {
                break;
            }
        }
        let op = self.op();
        self.invoke(|env| finalize_cancel(env, id, op)).unwrap();
    }
}

fn create_bounty(ctx: &mut Ctx) -> u64 {
    let params = CreateEventParams {
        pillar: Pillar::Bounty,
        owner: ctx.owner,
        token: ctx.token_addr,
        total_budget: 10_000_0000000_i128,
        release_kind: ReleaseKind::Single,
        content_uri: ctx.text("https://api.boundless.fi/events/draft/x"),
        title: ctx.text("Test Bounty"),
        deadline: Some(ctx.env.timestamp + 86_400),
        winner_distribution: ctx.distribution(&[(1, 100)]),
        fee_bps_override: None,
        manager: None,
    };
    ctx.try_create_event(params).unwrap()
}

fn winner(recipient: Address, position: u32, reputation_bump: u32) -> WinnerSpec {
    WinnerSpec { recipient, position, reputation_bump }
}

const TOTAL_BUDGET: i128 = 10_000_0000000_i128;
const FEE_AMOUNT: i128 = (TOTAL_BUDGET * FEE_BPS as i128) / 10_000_i128;

#[test]
fn select_winners_pays_recipient_and_bumps_profile() {
    let mut ctx = setup();
    let bounty_id = create_bounty(&mut ctx);
    let applicant = ctx.applicant;
    ctx.apply_to_bounty(bounty_id, applicant);

    ctx.select(bounty_id, &vec![winner(applicant, 1, 50)]);
    ctx.claim(bounty_id, 1);

    assert_eq!(ctx.balance(applicant), TOTAL_BUDGET);
    assert_eq!(ctx.balance(ctx.fee_account), FEE_AMOUNT);
    assert_eq!(ctx.reputation_of(applicant), Some(50));
    assert_eq!(ctx.earnings_of(applicant), TOTAL_BUDGET);

    let event = get_event(&ctx.env, bounty_id).unwrap();
    assert_eq!(event.status, EventStatus::Completed);
    assert_eq!(event.remaining_escrow, 0);

    let winner_list = get_winners(&ctx.env, bounty_id).unwrap();
    assert_eq!(winner_list.len(), 1);
    let recorded = winner_list[0];
    assert_eq!(recorded.recipient, applicant);
    assert_eq!(recorded.position, 1);
    assert_eq!(recorded.amount, TOTAL_BUDGET);
    assert_eq!(recorded.milestone, None);
    assert!(recorded.paid_at.is_some());
}

#[test]
fn select_winners_requires_position_in_distribution() {
    let mut ctx = setup();
    let bounty_id = create_bounty(&mut ctx);

    let winners = vec![winner(ctx.applicant, 2, 50)];
    let op_select = ctx.op();
    let res = ctx.try_select(bounty_id, &winners, op_select);
    assert!(res.is_err(), "invalid position should revert");
}

#[test]
fn select_winners_rejects_duplicate_position() {
    let mut ctx = setup();
    let params = CreateEventParams {
        pillar: Pillar::Bounty,
        owner: ctx.owner,
        token: ctx.token_addr,
        total_budget: TOTAL_BUDGET,
        release_kind: ReleaseKind::Single,
        content_uri: ctx.text("https://api.boundless.fi/x"),
        title: ctx.text("Test Bounty 2"),
        deadline: Some(ctx.env.timestamp + 86_400),
        winner_distribution: ctx.distribution(&[(1, 60), (2, 40)]),
        fee_bps_override: None,
        manager: None,
    };
    let bounty_id = ctx.try_create_event(params).unwrap();

    let other_recipient = ctx.address();
    let winners = vec![winner(ctx.applicant, 1, 50), winner(other_recipient, 1, 25)];
    let op_select = ctx.op();
    let res = ctx.try_select(bounty_id, &winners, op_select);
    assert!(res.is_err(), "duplicate position should revert");
}

#[test]
fn select_winners_handles_multi_recipient_distribution() {
    let mut ctx = setup();
    let params = CreateEventParams {
        pillar: Pillar::Bounty,
        owner: ctx.owner,
        token: ctx.token_addr,
        total_budget: TOTAL_BUDGET,
        release_kind: ReleaseKind::Single,
        content_uri: ctx.text("https://api.boundless.fi/multi"),
        title: ctx.text("Multi Winner"),
        deadline: Some(ctx.env.timestamp + 86_400),
        winner_distribution: ctx.distribution(&[(1, 60), (2, 40)]),
        fee_bps_override: None,
        manager: None,
    };
    let bounty_id = ctx.try_create_event(params).unwrap();

    let winner_a = ctx.address();
    let winner_b = ctx.address();
    ctx.select(bounty_id, &vec![winner(winner_a, 1, 50), winner(winner_b, 2, 25)]);
    ctx.claim(bounty_id, 1);
    ctx.claim(bounty_id, 2);

    let amount_a = TOTAL_BUDGET * 60 / 100;
    let amount_b = TOTAL_BUDGET * 40 / 100;
    assert_eq!(ctx.balance(winner_a), amount_a);
    assert_eq!(ctx.balance(winner_b), amount_b);
    assert_eq!(ctx.reputation_of(winner_a), Some(50));
    assert_eq!(ctx.reputation_of(winner_b), Some(25));

    let event = get_event(&ctx.env, bounty_id).unwrap();
    assert_eq!(event.status, EventStatus::Completed);
    assert_eq!(event.remaining_escrow, 0);
}

#[test]
fn select_winners_replayed_reverts() {
    let mut ctx = setup();
    let bounty_id = create_bounty(&mut ctx);

    let winners = vec![winner(ctx.applicant, 1, 50)];
    let op_select = ctx.op();
    ctx.try_select(bounty_id, &winners, op_select).unwrap();

    let res = ctx.try_select(bounty_id, &winners, op_select);
    assert!(res.is_err(), "replayed select_winners should revert");
}

#[test]
fn cancel_refunds_remaining_escrow_to_owner() {
    let mut ctx = setup();
    let bounty_id = create_bounty(&mut ctx);
    let owner_before = ctx.balance(ctx.owner);

    ctx.drive_cancel(bounty_id);

    let event = get_event(&ctx.env, bounty_id).unwrap();
    assert_eq!(event.status, EventStatus::Cancelled);
    assert_eq!(event.remaining_escrow, 0);
    assert_eq!(ctx.balance(ctx.owner) - owner_before, TOTAL_BUDGET);
}

#[test]
fn cancel_already_cancelled_reverts() {
    let mut ctx = setup();
    let bounty_id = create_bounty(&mut ctx);

    ctx.drive_cancel(bounty_id);

    let op_again = ctx.op();
    let res = ctx.invoke(|env| start_cancel(env, bounty_id, op_again));
    assert!(res.is_err(), "second cancel should revert");
}

#[test]
fn cancel_after_select_winners_refunds_only_remaining() {
    let mut ctx = setup();
    let params = CreateEventParams {
        pillar: Pillar::Bounty,
        owner: ctx.owner,
        token: ctx.token_addr,
        total_budget: TOTAL_BUDGET,
        release_kind: ReleaseKind::Single,
        content_uri: ctx.text("https://api.boundless.fi/partial"),
        title: ctx.text("Partial Pay Bounty"),
        deadline: Some(ctx.env.timestamp + 86_400),
        winner_distribution: ctx.distribution(&[(1, 60), (2, 40)]),
        fee_bps_override: None,
        manager: None,
    };
    let bounty_id = ctx.try_create_event(params).unwrap();

    let winner_a = ctx.address();
    ctx.select(bounty_id, &vec![winner(winner_a, 1, 50)]);
    ctx.claim(bounty_id, 1);

    let owner_before = ctx.balance(ctx.owner);
    ctx.drive_cancel(bounty_id);

    let event = get_event(&ctx.env, bounty_id).unwrap();
    assert_eq!(event.status, EventStatus::Cancelled);
    assert_eq!(event.remaining_escrow, 0);
    assert_eq!(ctx.balance(ctx.owner) - owner_before, TOTAL_BUDGET * 40 / 100);
}

fn create_grant(ctx: &mut Ctx, n_milestones: u32) -> u64 {
    let params = CreateEventParams {
        pillar: Pillar::Grant,
        owner: ctx.owner,
        token: ctx.token_addr,
        total_budget: TOTAL_BUDGET,
        release_kind: ReleaseKind::Multi(n_milestones),
        content_uri: ctx.text("https://api.boundless.fi/grant"),
        title: ctx.text("Test Grant"),
        deadline: Some(ctx.env.timestamp + 86_400),
        winner_distribution: ctx.distribution(&[(1, 100)]),
        fee_bps_override: None,
        manager: None,
    };
    ctx.try_create_event(params).unwrap()
}

fn create_hackathon(ctx: &mut Ctx) -> u64 {
    let params = CreateEventParams {
        pillar: Pillar::Hackathon,
        owner: ctx.owner,
        token: ctx.token_addr,
        total_budget: TOTAL_BUDGET,
        release_kind: ReleaseKind::Single,
        content_uri: ctx.text("https://api.boundless.fi/hackathon"),
        title: ctx.text("Test Hackathon"),
        deadline: Some(ctx.env.timestamp + 86_400),
        winner_distribution: ctx.distribution(&[(1, 100)]),
        fee_bps_override: None,
        manager: None,
    };
    ctx.try_create_event(params).unwrap()
}

#[test]
fn hackathon_submit_creates_anchor_without_prior_apply() {
    let mut ctx = setup();
    let id = create_hackathon(&mut ctx);
    let applicant = ctx.applicant;

    let uri = ctx.text("ipfs://Qm.../project.json");
    let op = ctx.op();
    ctx.try_submit(id, applicant, &uri, op).unwrap();

    let sub = get_submission(&ctx.env, id, applicant).unwrap();
    assert_eq!(sub.applicant, applicant);
    assert_eq!(sub.content_uri, uri);
    assert_eq!(sub.submitted_at, ctx.env.timestamp);
}

#[test]
fn bounty_submit_requires_prior_application() {
    let mut ctx = setup();
    let id = create_bounty(&mut ctx);
    let applicant = ctx.applicant;

    let uri = ctx.text("ipfs://Qm.../bounty.json");
    let op = ctx.op();
    let res = ctx.try_submit(id, applicant, &uri, op);
    assert!(res.is_err(), "submit before apply on bounty should revert");
}

#[test]
fn bounty_submit_succeeds_after_apply() {
    let mut ctx = setup();
    let id = create_bounty(&mut ctx);
    let applicant = ctx.applicant;
    ctx.apply_to_bounty(id, applicant);

    let uri = ctx.text("ipfs://Qm.../bounty.json");
    let op_submit = ctx.op();
    ctx.try_submit(id, applicant, &uri, op_submit).unwrap();

    let sub = get_submission(&ctx.env, id, applicant).unwrap();
    assert_eq!(sub.content_uri, uri);
}

#[test]
fn resubmit_preserves_original_submitted_at_and_updates_uri() {
    let mut ctx = setup();
    let id = create_hackathon(&mut ctx);
    let applicant = ctx.applicant;

    let uri_a = ctx.text("ipfs://Qm.../v1.json");
    let op_a = ctx.op();
    ctx.try_submit(id, applicant, &uri_a, op_a).unwrap();
    let first = get_submission(&ctx.env, id, applicant).unwrap();
    let first_time = first.submitted_at;

    let uri_b = ctx.text("ipfs://Qm.../v2.json");
    let op_b = ctx.op();
    ctx.try_submit(id, applicant, &uri_b, op_b).unwrap();

    let second = get_submission(&ctx.env, id, applicant).unwrap();
    assert_eq!(second.content_uri, uri_b);
    assert_eq!(
        second.submitted_at, first_time,
        "submitted_at must be preserved across re-submit"
    );
}

#[test]
fn submit_replayed_reverts() {
    let mut ctx = setup();
    let id = create_hackathon(&mut ctx);
    let applicant = ctx.applicant;

    let uri = ctx.text("ipfs://Qm.../v1.json");
    let op = ctx.op();
    ctx.try_submit(id, applicant, &uri, op).unwrap();

    let res = ctx.try_submit(id, applicant, &uri, op);
    assert!(res.is_err(), "replayed submit should revert");
}

#[test]
fn cross_contract_withdraw_submission_removes_anchor() {
    let mut ctx = setup();
    let id = create_hackathon(&mut ctx);
    let applicant = ctx.applicant;

    let uri = ctx.text("ipfs://Qm.../v1.json");
    let op_submit = ctx.op();
    ctx.try_submit(id, applicant, &uri, op_submit).unwrap();

    let op_wd = ctx.op();
    ctx.invoke(|env| withdraw_submission(env, id, applicant, op_wd)).unwrap();

    let res = get_submission(&ctx.env, id, applicant);
    assert!(res.is_err(), "withdrawn submission should not be readable");
}

#[test]
fn withdraw_submission_without_submission_reverts() {
    let mut ctx = setup();
    let id = create_hackathon(&mut ctx);
    let applicant = ctx.applicant;

    let op_wd = ctx.op();
    let res = ctx.invoke(|env| withdraw_submission(env, id, applicant, op_wd));
    assert!(
        res.is_err(),
        "withdraw without prior submission should revert"
    );
}

#[test]
fn create_event_charges_override_rate_when_provided() {
    let mut ctx = setup();
    let override_bps: u32 = 150;
    let total_budget: i128 = 100_000_0000000_i128;
    let expected_fee = total_budget * (override_bps as i128) / 10_000;
    let owner_before = ctx.balance(ctx.owner);
    let fee_before = ctx.balance(ctx.fee_account);

    let params = CreateEventParams {
        pillar: Pillar::Hackathon,
        owner: ctx.owner,
        token: ctx.token_addr,
        total_budget,
        release_kind: ReleaseKind::Single,
        content_uri: ctx.text("https://api.boundless.fi/hackathon"),
        title: ctx.text("Hackathon at 1.5%"),
        deadline: Some(ctx.env.timestamp + 86_400),
        winner_distribution: ctx.distribution(&[(1, 100)]),
        fee_bps_override: Some(override_bps),
        manager: None,
    };
    let id = ctx.try_create_event(params).unwrap();

    assert_eq!(owner_before - ctx.balance(ctx.owner), total_budget + expected_fee);
    assert_eq!(ctx.balance(ctx.fee_account) - fee_before, expected_fee);

    let event = get_event(&ctx.env, id).unwrap();
    assert_eq!(event.fee_bps_override, Some(override_bps));
    assert_eq!(event.remaining_escrow, total_budget);
}

#[test]
fn add_funds_uses_event_override_not_global() {
    let mut ctx = setup();
    let override_bps: u32 = 50;
    let total_budget: i128 = 10_000_0000000_i128;

    let params = CreateEventParams {
        pillar: Pillar::Hackathon,
        owner: ctx.owner,
        token: ctx.token_addr,
        total_budget,
        release_kind: ReleaseKind::Single,
        content_uri: ctx.text("https://api.boundless.fi/hackathon"),
        title: ctx.text("Promo Hackathon"),
        deadline: Some(ctx.env.timestamp + 86_400),
        winner_distribution: ctx.distribution(&[(1, 100)]),
        fee_bps_override: Some(override_bps),
        manager: None,
    };
    let id = ctx.try_create_event(params).unwrap();

    ctx.env.settings.fee_bps = 500;

    let partner = ctx.address();
    ctx.mint(partner, 2_000_0000000_i128);
    let partner_before = ctx.balance(partner);
    let fee_before = ctx.balance(ctx.fee_account);

    let amount = 1_000_0000000_i128;
    let expected_fee = amount * (override_bps as i128) / 10_000;
    let op_add = ctx.op();
    ctx.invoke(|env| add_funds(env, id, partner, amount, op_add)).unwrap();

    assert_eq!(partner_before - ctx.balance(partner), amount + expected_fee);
    assert_eq!(ctx.balance(ctx.fee_account) - fee_before, expected_fee);
}

#[test]
fn create_event_with_waiver_charges_no_fee() {
    let mut ctx = setup();
    let total_budget: i128 = 5_000_0000000_i128;
    let owner_before = ctx.balance(ctx.owner);
    let fee_before = ctx.balance(ctx.fee_account);

    let params = CreateEventParams {
        pillar: Pillar::Hackathon,
        owner: ctx.owner,
        token: ctx.token_addr,
        total_budget,
        release_kind: ReleaseKind::Single,
        content_uri: ctx.text("https://api.boundless.fi/hackathon"),
        title: ctx.text("Comped Hackathon"),
        deadline: Some(ctx.env.timestamp + 86_400),
        winner_distribution: ctx.distribution(&[(1, 100)]),
        fee_bps_override: Some(0),
        manager: None,
    };
    ctx.try_create_event(params).unwrap();

    assert_eq!(owner_before - ctx.balance(ctx.owner), total_budget, "waiver: no fee");
    assert_eq!(ctx.balance(ctx.fee_account), fee_before, "waiver: fee account unchanged");
}

#[test]
fn create_event_rejects_override_above_max_fee_bps() {
    let mut ctx = setup();

    let params = CreateEventParams {
        pillar: Pillar::Hackathon,
        owner: ctx.owner,
        token: ctx.token_addr,
        total_budget: 1_000_0000000_i128,
        release_kind: ReleaseKind::Single,
        content_uri: ctx.text("https://api.boundless.fi/hackathon"),
        title: ctx.text("Bad rate"),
        deadline: Some(ctx.env.timestamp + 86_400),
        winner_distribution: ctx.distribution(&[(1, 100)]),
        fee_bps_override: Some(6000),
        manager: None,
    };
    let res = ctx.try_create_event(params);
    assert!(res.is_err(), "override > MAX_FEE_BPS must revert");
}

#[test]
fn create_event_omitted_override_falls_back_to_global_default() {
    let mut ctx = setup();
    let total_budget: i128 = 20_000_0000000_i128;
    let expected_fee = total_budget * (FEE_BPS as i128) / 10_000;
    let fee_before = ctx.balance(ctx.fee_account);

    let params = CreateEventParams {
        pillar: Pillar::Hackathon,
        owner: ctx.owner,
        token: ctx.token_addr,
        total_budget,
        release_kind: ReleaseKind::Single,
        content_uri: ctx.text("https://api.boundless.fi/hackathon"),
        title: ctx.text("Default rate hackathon"),
        deadline: Some(ctx.env.timestamp + 86_400),
        winner_distribution: ctx.distribution(&[(1, 100)]),
        fee_bps_override: None,
        manager: None,
    };
    let id = ctx.try_create_event(params).unwrap();

    assert_eq!(ctx.balance(ctx.fee_account) - fee_before, expected_fee);
    let event = get_event(&ctx.env, id).unwrap();
    assert_eq!(event.fee_bps_override, None);
}

#[test]
fn select_winners_rejects_second_call_winners_already_selected() {
    let mut ctx = setup();
    let r1 = ctx.address();
    let grant_id = create_grant(&mut ctx, 2);
    ctx.select(grant_id, &vec![winner(r1, 1, 0)]);

    let r2 = ctx.address();
    let op = ctx.op();
    let res = ctx.try_select(grant_id, &vec![winner(r2, 1, 0)], op);
    assert!(res.is_err(), "second select_winners must revert");

    let recorded = get_winners(&ctx.env, grant_id).unwrap();
    assert_eq!(recorded.len(), 1);
    assert_eq!(recorded[0].recipient, r1);
}

#[test]
fn select_winners_pays_against_remaining_escrow_including_top_ups() {
    let mut ctx = setup();
    let bounty_id = create_bounty(&mut ctx);
    let applicant = ctx.applicant;

    let partner = ctx.address();
    let top_up: i128 = 5_000_0000000_i128;
    let top_up_fee = top_up * FEE_BPS as i128 / 10_000_i128;
    ctx.mint(partner, top_up + top_up_fee);

    let op_add = ctx.op();
    ctx.invoke(|env| add_funds(env, bounty_id, partner, top_up, op_add)).unwrap();

    let event_pre = get_event(&ctx.env, bounty_id).unwrap();
    assert_eq!(event_pre.remaining_escrow, TOTAL_BUDGET + top_up);

    ctx.select(bounty_id, &vec![winner(applicant, 1, 50)]);
    ctx.claim(bounty_id, 1);

    assert_eq!(ctx.balance(applicant), TOTAL_BUDGET + top_up);

    let event_post = get_event(&ctx.env, bounty_id).unwrap();
    assert_eq!(event_post.remaining_escrow, 0);
    assert_eq!(event_post.status, EventStatus::Completed);
}

fn create_bounty_with_manager(ctx: &mut Ctx, manager: Address) -> u64 {
    let params = CreateEventParams {
        pillar: Pillar::Bounty,
        owner: ctx.owner,
        token: ctx.token_addr,
        total_budget: 10_000_0000000_i128,
        release_kind: ReleaseKind::Single,
        content_uri: ctx.text("https://api.boundless.fi/events/draft/m"),
        title: ctx.text("Managed Bounty"),
        deadline: Some(ctx.env.timestamp + 86_400),
        winner_distribution: ctx.distribution(&[(1, 100)]),
        fee_bps_override: None,
        manager: Some(manager),
    };
    ctx.try_create_event(params).unwrap()
}

#[test]
fn manager_defaults_to_owner_with_no_pending_proposal() {
    let mut ctx = setup();
    let default_id = create_bounty(&mut ctx);
    assert_eq!(get_manager(&ctx.env, default_id), Ok(ctx.owner));
    assert!(get_pending_manager(&ctx.env, default_id).unwrap().is_none());
}

#[test]
fn manager_named_at_creation_is_only_proposed_not_granted() {
    let mut ctx = setup();
    let manager = ctx.address();
    let id = create_bounty_with_manager(&mut ctx, manager);

    assert_eq!(get_manager(&ctx.env, id), Ok(ctx.owner));
    let pending = get_pending_manager(&ctx.env, id).unwrap().unwrap();
    assert_eq!(pending.target, manager);
}

#[test]
fn propose_then_accept_transfers_control() {
    let mut ctx = setup();
    let manager = ctx.address();
    let id = create_bounty_with_manager(&mut ctx, manager);

    ctx.invoke(|env| accept_manager(env, id)).unwrap();

    assert_eq!(get_manager(&ctx.env, id), Ok(manager));
    assert!(get_pending_manager(&ctx.env, id).unwrap().is_none());
}

#[test]
fn unaccepted_proposal_leaves_owner_in_authority() {
    let mut ctx = setup();
    let attacker = ctx.address();
    let id = create_bounty_with_manager(&mut ctx, attacker);
    let applicant = ctx.applicant;

    ctx.apply_to_bounty(id, applicant);
    ctx.select(id, &vec![winner(applicant, 1, 0)]);

    assert_eq!(ctx.env.auths[0], ctx.owner);
    assert_ne!(ctx.env.auths[0], attacker);
}

#[test]
fn accepted_manager_holds_select_winners_authority() {
    let mut ctx = setup();
    let manager = ctx.address();
    let id = create_bounty_with_manager(&mut ctx, manager);
    let applicant = ctx.applicant;
    ctx.invoke(|env| accept_manager(env, id)).unwrap();

    ctx.apply_to_bounty(id, applicant);
    ctx.select(id, &vec![winner(applicant, 1, 0)]);
    assert_eq!(ctx.env.auths[0], manager);

    ctx.claim(id, 1);
    assert_eq!(get_event(&ctx.env, id).unwrap().status, EventStatus::Completed);
}

#[test]
fn manager_can_be_rotated_via_propose_accept() {
    let mut ctx = setup();
    let manager = ctx.address();
    let id = create_bounty_with_manager(&mut ctx, manager);
    ctx.invoke(|env| accept_manager(env, id)).unwrap();
    assert_eq!(get_manager(&ctx.env, id), Ok(manager));

    let manager2 = ctx.address();
    ctx.invoke(|env| propose_manager(env, id, manager2)).unwrap();
    assert_eq!(get_manager(&ctx.env, id), Ok(manager));
    ctx.invoke(|env| accept_manager(env, id)).unwrap();
    assert_eq!(get_manager(&ctx.env, id), Ok(manager2));
}

#[test]
fn propose_manager_emits_cancellation_when_replacing_pending_proposal() {
    let mut ctx = setup();
    let manager1 = ctx.address();
    let id = create_bounty_with_manager(&mut ctx, manager1);
    assert!(get_pending_manager(&ctx.env, id).unwrap().is_some());

    ctx.published.clear();
    let manager2 = ctx.address();
    ctx.invoke(|env| propose_manager(env, id, manager2)).unwrap();
    let pending = get_pending_manager(&ctx.env, id).unwrap().unwrap();
    assert_eq!(pending.target, manager2);
    assert_eq!(ctx.published[0], Event::PendingManagerCancelled { event_id: id });

    ctx.invoke(|env| accept_manager(env, id)).unwrap();
    assert_eq!(get_manager(&ctx.env, id), Ok(manager2));
}

#[test]
fn cancel_pending_manager_vetoes_a_proposal() {
    let mut ctx = setup();
    let attacker = ctx.address();
    let id = create_bounty_with_manager(&mut ctx, attacker);
    assert!(get_pending_manager(&ctx.env, id).unwrap().is_some());

    ctx.invoke(|env| cancel_pending_manager(env, id)).unwrap();
    assert!(get_pending_manager(&ctx.env, id).unwrap().is_none());
    assert_eq!(get_manager(&ctx.env, id), Ok(ctx.owner));
}

#[test]
fn accept_with_no_proposal_reverts() {
    let mut ctx = setup();
    let id = create_bounty(&mut ctx);
    let res = ctx.invoke(|env| accept_manager(env, id));
    assert_eq!(res, Err(Error::PendingRotationMismatch));
}

#[test]
fn expired_proposal_cannot_be_accepted() {
    let mut ctx = setup();
    let manager = ctx.address();
    let id = create_bounty_with_manager(&mut ctx, manager);

    ctx.env.sequence += 20_000;

    let res = ctx.invoke(|env| accept_manager(env, id));
    assert_eq!(res, Err(Error::PendingRotationExpired));
    assert_eq!(get_manager(&ctx.env, id), Ok(ctx.owner));
    ctx.invoke(|env| cancel_pending_manager(env, id)).unwrap();
    assert!(get_pending_manager(&ctx.env, id).unwrap().is_none());
}
