use boundless_events::amounts::{saturating_add, saturating_mul, saturating_sub, share_of};
use boundless_events::env::{Effect, Env, Event, ProfileCall, Reason, Settings, Transfer};
use boundless_events::errors::Error;
use boundless_events::escrow::{deposit_no_fee, deposit_with_fee_at, effective_fee_bps, release};
use boundless_events::event_ops::cancel::running_cancellation;
use boundless_events::event_ops::create::{check_creation, provisional_record};
use boundless_events::event_ops::submissions::append_submission;
use boundless_events::event_ops::winners::{check_selection, event_to_decide};
use boundless_events::event_ops::{
    accept_manager, add_funds, cancel_pending_manager, claim_prize, create_event, finalize_cancel,
    get_applicant_at, get_applicant_count, get_applicants, get_applicants_page,
    get_contributor_amount, get_contributor_at, get_contributor_count, get_contributors,
    get_contributors_page, get_event, get_manager, get_pending_manager, get_submission,
    get_winner_at, get_winner_count, get_winners, get_winners_page, process_cancel_batch,
    propose_manager, select_winners, start_cancel, submit, withdraw_submission,
    MAX_CONTENT_URI_LEN, MAX_TITLE_LEN, MIN_CONTRIBUTION_STROOPS, PENDING_MANAGER_TTL_LEDGERS,
    PRIZE_CLAIM_WINDOW_SECS,
};
use boundless_events::host::{Distribution, Positions, Text};
use boundless_events::idempotency::{
    derive_child, mark_seen, next_event_id, require_unseen, upcoming_event_id, BOOTSTRAP, BUMP_REP,
    REGISTER_EARNINGS,
};
use boundless_events::storage::{Entry, Storage};
use boundless_events::types::{
    Address, Bytes32, CancellationBranch, CancellationState, CreateEventParams, DataKey,
    EventStatus, PendingManager, Pillar, PrizeAward, ReleaseKind, Winner, WinnerSpec,
};
use soroban_sdk::{IntoVal, Val};

const FEE_BPS: u32 = 250;
const MAX_FEE_BPS: u32 = 5_000;
const UNIT: i128 = 1_0000000;

/// What the operations have done to the world outside the contract: the token balances
/// and what the profile contract has heard.
struct Ctx {
    host: soroban_sdk::Env,
    env: Env,
    balances: Vec<(Address, Address, i128)>,
    reputation: Vec<(Address, u32)>,
    earnings: Vec<(Address, Address, i128)>,
    published: Vec<Event>,
    drawn: u128,
    owner: Address,
    applicant: Address,
    token_addr: Address,
    fee_account: Address,
}

fn setup() -> Ctx {
    let account = |n: u128| Address { is_contract: false, high: 1, low: n };
    let contract = |n: u128| Address { is_contract: true, high: 1, low: n };
    let fee_account = account(1);
    let owner = account(2);
    let applicant = account(3);
    let token_addr = contract(4);
    let settings =
        Settings { paused: false, fee_account, fee_bps: FEE_BPS, max_fee_bps: MAX_FEE_BPS };
    let mut env = Env::new(1_700_000_000, 1_000, contract(5), settings);
    env.put(DataKey::SupportedToken(token_addr), Entry::Flag(true));
    let mut ctx = Ctx {
        host: soroban_sdk::Env::default(),
        env,
        balances: Vec::new(),
        reputation: Vec::new(),
        earnings: Vec::new(),
        published: Vec::new(),
        drawn: 0,
        owner,
        applicant,
        token_addr,
        fee_account,
    };
    ctx.mint(owner, 1_000_000_0000000_i128);
    ctx
}

impl Ctx {
    fn text(&self, text: &str) -> Text {
        Text::from_str(&self.host, text)
    }

    fn distribution(&self, pairs: &[(u32, u32)]) -> Distribution {
        let mut map = soroban_sdk::Map::new(&self.host);
        for (position, percent) in pairs {
            map.set(*position, *percent);
        }
        Distribution::new(map).unwrap()
    }

    fn address(&mut self) -> Address {
        self.drawn += 1;
        Address { is_contract: false, high: 2, low: self.drawn }
    }

    fn op(&mut self) -> Bytes32 {
        self.drawn += 1;
        Bytes32 { high: 3, low: self.drawn }
    }

    fn add_to_balance(&mut self, token: Address, who: Address, amount: i128) {
        match self.balances.iter_mut().find(|(t, w, _)| *t == token && *w == who) {
            Some((_, _, balance)) => *balance += amount,
            None => self.balances.push((token, who, amount)),
        }
        assert!(self.balances.iter().all(|(_, _, balance)| *balance >= 0), "overdrawn");
    }

    fn mint(&mut self, who: Address, amount: i128) {
        self.add_to_balance(self.token_addr, who, amount);
    }

    fn balance(&self, who: Address) -> i128 {
        let mine = |(t, w, _): &&(Address, Address, i128)| *t == self.token_addr && *w == who;
        self.balances.iter().find(mine).map(|(_, _, balance)| *balance).unwrap_or(0)
    }

    fn reputation_of(&self, who: Address) -> Option<u32> {
        self.reputation.iter().find(|(w, _)| *w == who).map(|(_, reputation)| *reputation)
    }

    fn earnings_of(&self, who: Address) -> i128 {
        let mine = |(w, t, _): &&(Address, Address, i128)| *t == self.token_addr && *w == who;
        self.earnings.iter().find(mine).map(|(_, _, amount)| *amount).unwrap_or(0)
    }

    fn perform(&mut self, effect: Effect) {
        match effect {
            Effect::Transfer(t) => {
                self.add_to_balance(t.token, t.from, -t.amount);
                self.add_to_balance(t.token, t.to, t.amount);
            }
            Effect::Publish(event) => self.published.push(event),
            Effect::Profile(ProfileCall::Bootstrap { user, .. }) => {
                if self.reputation_of(user).is_none() {
                    self.reputation.push((user, 0));
                }
            }
            Effect::Profile(ProfileCall::BumpReputation { user, bump, .. }) => {
                let known = self.reputation.iter_mut().find(|(w, _)| *w == user).unwrap();
                known.1 += bump;
            }
            Effect::Profile(ProfileCall::RegisterEarnings { user, token, amount, .. }) => {
                match self.earnings.iter_mut().find(|(w, t, _)| *w == user && *t == token) {
                    Some((_, _, earned)) => *earned += amount,
                    None => self.earnings.push((user, token, amount)),
                }
            }
        }
    }

    /// One invocation: what it asks for is done if it succeeds; if it fails it has
    /// written nothing and asks for nothing.
    fn invoke<T>(
        &mut self,
        operation: impl FnOnce(&mut Env) -> Result<T, Error>,
    ) -> Result<T, Error> {
        self.env.auths.clear();
        let writes = self.env.storage.log.len();
        let result = operation(&mut self.env);
        let effects: Vec<Effect> = self.env.effects.drain(..).collect();
        if result.is_err() {
            assert_eq!(self.env.storage.log.len(), writes);
            assert!(effects.is_empty());
        }
        for effect in effects {
            self.perform(effect);
        }
        result
    }

    fn try_create_event(&mut self, params: CreateEventParams) -> Result<u64, Error> {
        let op = self.op();
        self.invoke(|env| create_event(env, params, op, Ok(())))
    }

    fn try_submit(&mut self, id: u64, who: Address, uri: &Text, op: Bytes32) -> Result<(), Error> {
        let uri = uri.clone();
        self.invoke(|env| submit(env, id, who, uri, op))
    }

    fn try_select(
        &mut self,
        id: u64,
        winners: &Vec<WinnerSpec>,
        op: Bytes32,
    ) -> Result<(), Error> {
        self.invoke(|env| select_winners(env, id, winners, op))
    }

    fn select(&mut self, id: u64, winners: &Vec<WinnerSpec>) {
        let op = self.op();
        self.try_select(id, winners, op).unwrap();
    }

    fn claim(&mut self, id: u64, position: u32) {
        let op = self.op();
        self.invoke(|env| claim_prize(env, id, position, op)).unwrap();
    }
}

fn winner(recipient: Address, position: u32, reputation_bump: u32) -> WinnerSpec {
    WinnerSpec { recipient, position, reputation_bump }
}

impl Ctx {
    fn params(&self, pillar: Pillar, budget: i128, pairs: &[(u32, u32)]) -> CreateEventParams {
        CreateEventParams {
            pillar,
            owner: self.owner,
            token: self.token_addr,
            total_budget: budget,
            release_kind: ReleaseKind::Single,
            content_uri: self.text("ipfs://brief"),
            title: self.text("Title"),
            deadline: None,
            winner_distribution: self.distribution(pairs),
            fee_bps_override: Some(0),
            manager: None,
        }
    }

    fn hackathon(&mut self, budget: i128, pairs: &[(u32, u32)]) -> u64 {
        let params = self.params(Pillar::Hackathon, budget, pairs);
        self.try_create_event(params).unwrap()
    }

    fn fund(&mut self, id: u64, from: Address, amount: i128) -> Result<(), Error> {
        let op = self.op();
        self.invoke(|env| add_funds(env, id, from, amount, op))
    }

    /// A contributor with enough to pay in `amount`, who does so.
    fn contributor(&mut self, id: u64, amount: i128) -> Address {
        let who = self.address();
        self.mint(who, amount);
        self.fund(id, who, amount).unwrap();
        who
    }

    fn start_cancel(&mut self, id: u64) -> Result<(), Error> {
        let op = self.op();
        self.invoke(|env| start_cancel(env, id, op))
    }

    fn batch(&mut self, id: u64, max_refunds: u32) -> Result<u32, Error> {
        let op = self.op();
        self.invoke(|env| process_cancel_batch(env, id, max_refunds, op))
    }

    fn finalize(&mut self, id: u64) -> Result<(), Error> {
        let op = self.op();
        self.invoke(|env| finalize_cancel(env, id, op))
    }

    fn try_claim(&mut self, id: u64, position: u32) -> Result<(), Error> {
        let op = self.op();
        self.invoke(|env| claim_prize(env, id, position, op))
    }

    fn held(&self) -> i128 {
        self.balance(self.env.contract)
    }
}

// Values in the host.

#[test]
fn distribution_reads_the_host_map() {
    let ctx = setup();
    let map = soroban_sdk::Map::from_array(&ctx.host, [(2u32, 40u32), (7, 1), (1, 59)]);
    let distribution = Distribution::new(map).unwrap();
    assert_eq!(distribution.pairs(), vec![(1, 59), (2, 40), (7, 1)]);
    assert_eq!(distribution.get(2), Some(40));
    assert_eq!(distribution.get(3), None);
    assert!(!distribution.is_empty());
    assert_eq!(distribution.clone(), distribution);
    assert_eq!(distribution.clone().pairs(), distribution.pairs());
}

#[test]
fn empty_distribution_has_no_pairs() {
    let ctx = setup();
    let distribution = ctx.distribution(&[]);
    assert!(distribution.is_empty());
    assert_eq!(distribution.pairs(), vec![]);
    assert_eq!(distribution.get(0), None);
}

#[test]
fn map_of_something_else_is_no_distribution() {
    let ctx = setup();
    let wide = soroban_sdk::Map::<u32, i128>::from_array(&ctx.host, [(1u32, 1i128 << 100)]);
    let untyped: Val = wide.into_val(&ctx.host);
    let mistyped: soroban_sdk::Map<u32, u32> = untyped.into_val(&ctx.host);
    assert!(Distribution::new(mistyped).is_none());
}

#[test]
fn positions_are_kept_in_a_host_list() {
    let ctx = setup();
    let positions = Positions::new(&ctx.distribution(&[(1, 100)]));
    assert!(!positions.contains(4));
    let positions = positions.with(4).with(2);
    assert!(positions.contains(4));
    assert!(positions.contains(2));
    assert!(!positions.contains(3));
}

#[test]
fn records_are_copied_whole() {
    let mut ctx = setup();
    let id = ctx.hackathon(100 * UNIT, &[(1, 70), (2, 30)]);
    let event = get_event(&ctx.env, id).unwrap();
    assert_eq!(event.clone(), event);
    assert_eq!(event.title, ctx.text("Title"));
    assert_eq!(event.content_uri, ctx.text("ipfs://brief"));
    assert_eq!(event.winner_distribution.pairs(), vec![(1, 70), (2, 30)]);
}

// Amounts.

#[test]
fn amounts_saturate() {
    assert_eq!(saturating_add(i128::MAX, 1), i128::MAX);
    assert_eq!(saturating_add(i128::MIN, -1), i128::MIN);
    assert_eq!(saturating_add(2, 3), 5);
    assert_eq!(saturating_sub(i128::MIN, 1), i128::MIN);
    assert_eq!(saturating_sub(i128::MAX, -1), i128::MAX);
    assert_eq!(saturating_sub(2, 3), -1);
    assert_eq!(saturating_mul(i128::MAX, 2), i128::MAX);
    assert_eq!(saturating_mul(i128::MAX, -2), i128::MIN);
    assert_eq!(saturating_mul(-3, -4), 12);
}

#[test]
fn shares_are_rounded_down() {
    assert_eq!(share_of(10, 1, 3), 3);
    assert_eq!(share_of(999, 250, 10_000), 24);
    assert_eq!(share_of(0, 5, 10), 0);
    assert_eq!(share_of(-10, 5, 10), 0);
    assert_eq!(share_of(10, -5, 10), 0);
    assert_eq!(share_of(i128::MAX, i128::MAX, 100), i128::MAX / 100);
}

// Ledger entries and operation identifiers.

#[test]
fn later_writes_win() {
    let mut storage = Storage::new();
    let key = DataKey::EventWinnerCount(1);
    assert_eq!(storage.get(key), None);
    storage.set(key, Entry::Count(3));
    storage.set(DataKey::EventWinnerCount(2), Entry::Count(9));
    storage.set(key, Entry::Count(4));
    assert_eq!(storage.count(key), 4);
    storage.remove(key);
    assert_eq!(storage.get(key), None);
    assert_eq!(storage.count(key), 0);
    assert_eq!(storage.count(DataKey::EventWinnerCount(2)), 9);
    assert_eq!(storage.number(DataKey::EventWinnerCount(2)), None);
}

#[test]
fn operations_are_recorded_per_caller() {
    let mut ctx = setup();
    let op = ctx.op();
    let (owner, applicant) = (ctx.owner, ctx.applicant);
    assert_eq!(require_unseen(&ctx.env, owner, op), Ok(()));
    mark_seen(&mut ctx.env, owner, op);
    assert_eq!(require_unseen(&ctx.env, owner, op), Err(Error::DuplicateOperation));
    assert_eq!(require_unseen(&ctx.env, applicant, op), Ok(()));
}

#[test]
fn parts_of_an_operation_have_identifiers_of_their_own() {
    let ctx = setup();
    let host = ctx.text("any");
    let op_id = Bytes32 {
        high: 0x000102030405060708090a0b0c0d0e0f,
        low: 0xf0e0d0c0b0a090807060504030201000,
    };
    assert_eq!(
        derive_child(&host, op_id, BUMP_REP),
        Bytes32 {
            high: 0x1a54c9531f7b649cf579eb5e4f365d03,
            low: 0x04190e4dc6afbeb3257c90c15000893e,
        }
    );
    assert_ne!(derive_child(&host, op_id, BOOTSTRAP), derive_child(&host, op_id, BUMP_REP));
    let other = Bytes32 { high: op_id.low, low: op_id.high };
    assert_ne!(derive_child(&host, op_id, BUMP_REP), derive_child(&host, other, BUMP_REP));
}

#[test]
fn writes_stand_behind_what_was_loaded() {
    let mut ctx = setup();
    let id = ctx.hackathon(100 * UNIT, &[(1, 100)]);
    let target = ctx.address();
    ctx.invoke(|env| propose_manager(env, id, target)).unwrap();
    let pending = PendingManager { target, expires_at_ledger: ctx.env.sequence };
    let key = DataKey::PendingManager(id);
    ctx.env.put(key, Entry::PendingManager(pending));
    let loaded = ctx.env.storage.log.len();
    ctx.invoke(|env| cancel_pending_manager(env, id)).unwrap();
    assert_eq!(ctx.env.storage.log[loaded - 1], (key, Some(Entry::PendingManager(pending))));
    assert_eq!(ctx.env.storage.log[loaded..], [(key, None)]);
}

#[test]
fn events_are_numbered_from_one() {
    let mut ctx = setup();
    assert_eq!(ctx.hackathon(UNIT, &[(1, 100)]), 1);
    assert_eq!(ctx.hackathon(UNIT, &[(1, 100)]), 2);
    assert_eq!(upcoming_event_id(&ctx.env), 3);
    assert_eq!(next_event_id(&mut ctx.env), Ok(3));
    assert_eq!(upcoming_event_id(&ctx.env), 4);
    ctx.env.put(DataKey::NextEventId, Entry::Number(u64::MAX));
    assert_eq!(next_event_id(&mut ctx.env), Err(Error::EventIdExhausted));
    let params = ctx.params(Pillar::Hackathon, UNIT, &[(1, 100)]);
    assert_eq!(ctx.try_create_event(params), Err(Error::EventIdExhausted));
}

// Creating events.

#[test]
fn creation_is_refused_for_each_reason() {
    let mut ctx = setup();
    let budget = 100 * UNIT;

    let params = ctx.params(Pillar::Hackathon, 0, &[(1, 100)]);
    assert_eq!(ctx.try_create_event(params), Err(Error::InvalidBudget));
    let params = ctx.params(Pillar::Hackathon, -budget, &[(1, 100)]);
    assert_eq!(ctx.try_create_event(params), Err(Error::InvalidBudget));
    let params = ctx.params(Pillar::Hackathon, budget, &[]);
    assert_eq!(ctx.try_create_event(params), Err(Error::InvalidDistribution));
    let params = ctx.params(Pillar::Hackathon, budget, &[(1, 60), (2, 39)]);
    assert_eq!(ctx.try_create_event(params), Err(Error::DistributionMismatch));
    let params = ctx.params(Pillar::Hackathon, budget, &[(1, u32::MAX), (2, 101)]);
    assert_eq!(ctx.try_create_event(params), Err(Error::DistributionMismatch));

    let mut params = ctx.params(Pillar::Hackathon, budget, &[(1, 100)]);
    params.fee_bps_override = Some(MAX_FEE_BPS + 1);
    assert_eq!(ctx.try_create_event(params), Err(Error::InvalidFeeBps));
    let mut params = ctx.params(Pillar::Hackathon, budget, &[(1, 100)]);
    params.fee_bps_override = Some(MAX_FEE_BPS);
    assert_eq!(ctx.try_create_event(params), Ok(1));

    let mut params = ctx.params(Pillar::Hackathon, budget, &[(1, 100)]);
    params.release_kind = ReleaseKind::Multi(3);
    assert_eq!(ctx.try_create_event(params), Err(Error::InvalidReleaseKind));

    let mut params = ctx.params(Pillar::Hackathon, budget, &[(1, 100)]);
    params.token = ctx.fee_account;
    assert_eq!(ctx.try_create_event(params), Err(Error::UnsupportedToken));
}

#[test]
fn title_may_be_as_long_as_the_limit() {
    let mut ctx = setup();
    let mut params = ctx.params(Pillar::Hackathon, UNIT, &[(1, 100)]);
    params.title = ctx.text(&"t".repeat(MAX_TITLE_LEN as usize + 1));
    assert_eq!(ctx.try_create_event(params), Err(Error::TitleTooLong));
    let mut params = ctx.params(Pillar::Hackathon, UNIT, &[(1, 100)]);
    params.title = ctx.text(&"t".repeat(MAX_TITLE_LEN as usize));
    assert_eq!(ctx.try_create_event(params), Ok(1));
}

#[test]
fn pillar_rules_have_their_say() {
    let mut ctx = setup();
    let params = ctx.params(Pillar::Bounty, UNIT, &[(1, 100)]);
    let op = ctx.op();
    let verdict = Err(Error::InvalidDistribution);
    let refused = ctx.invoke(|env| create_event(env, params, op, verdict));
    assert_eq!(refused, Err(Error::InvalidDistribution));
    assert_eq!(ctx.env.auths, vec![ctx.owner]);
}

#[test]
fn creation_with_a_used_identifier_is_refused() {
    let mut ctx = setup();
    let op = ctx.op();
    let params = ctx.params(Pillar::Hackathon, UNIT, &[(1, 100)]);
    assert_eq!(ctx.invoke(|env| create_event(env, params, op, Ok(()))), Ok(1));
    let params = ctx.params(Pillar::Hackathon, UNIT, &[(1, 100)]);
    let again = ctx.invoke(|env| create_event(env, params, op, Ok(())));
    assert_eq!(again, Err(Error::DuplicateOperation));
}

#[test]
fn creation_publishes_the_event_and_then_the_proposal() {
    let mut ctx = setup();
    let manager = ctx.address();
    let mut params = ctx.params(Pillar::Grant, 40 * UNIT, &[(1, 100)]);
    params.manager = Some(manager);
    let id = ctx.try_create_event(params).unwrap();
    let expires_at_ledger = ctx.env.sequence + PENDING_MANAGER_TTL_LEDGERS;
    assert_eq!(
        ctx.published,
        vec![
            Event::EventCreated {
                id,
                pillar: Pillar::Grant,
                owner: ctx.owner,
                token: ctx.token_addr,
                total_budget: 40 * UNIT,
                content_uri: ctx.text("ipfs://brief"),
                title: ctx.text("Title"),
            },
            Event::ManagerProposed { event_id: id, target: manager, expires_at_ledger },
        ]
    );
    assert_eq!(
        get_pending_manager(&ctx.env, id),
        Ok(Some(PendingManager { target: manager, expires_at_ledger }))
    );
}

#[test]
fn provisional_record_is_what_is_filed() {
    let mut ctx = setup();
    let params = ctx.params(Pillar::Bounty, 30 * UNIT, &[(1, 100)]);
    let mut record = provisional_record(&ctx.env, &params);
    assert_eq!(record.id, 0);
    let id = ctx.try_create_event(params).unwrap();
    record.id = id;
    assert_eq!(get_event(&ctx.env, id), Ok(record));
}

#[test]
fn campaign_starts_empty_with_its_owner_as_winner() {
    let mut ctx = setup();
    let before = ctx.balance(ctx.owner);
    let params = ctx.params(Pillar::Crowdfunding, 500 * UNIT, &[(1, 100)]);
    let id = ctx.try_create_event(params).unwrap();
    assert_eq!(ctx.balance(ctx.owner), before);
    assert_eq!(get_event(&ctx.env, id).unwrap().remaining_escrow, 0);
    assert_eq!(
        get_winner_at(&ctx.env, id, 0),
        Ok(Some(Winner {
            recipient: ctx.owner,
            position: 1,
            amount: 0,
            milestone: None,
            paid_at: None,
        }))
    );
    let winners = vec![winner(ctx.applicant, 1, 0)];
    let op = ctx.op();
    assert_eq!(ctx.try_select(id, &winners, op), Err(Error::InvalidPillar));
    let (applicant, uri, op) = (ctx.applicant, ctx.text("u"), ctx.op());
    assert_eq!(ctx.try_submit(id, applicant, &uri, op), Err(Error::WinnersAlreadySelected));
    ctx.env.erase(DataKey::EventWinnerCount(id));
    assert_eq!(ctx.try_submit(id, applicant, &uri, op), Err(Error::InvalidPillar));
}

// Escrow.

#[test]
fn fee_comes_on_top_of_a_deposit() {
    let mut ctx = setup();
    let (token, owner, contract) = (ctx.token_addr, ctx.owner, ctx.env.contract);
    assert_eq!(effective_fee_bps(&ctx.env, None), FEE_BPS);
    assert_eq!(effective_fee_bps(&ctx.env, Some(7)), 7);
    assert_eq!(deposit_with_fee_at(&mut ctx.env, token, owner, 999, 250), 999);
    assert_eq!(deposit_no_fee(&mut ctx.env, token, owner, 5), 5);
    release(&mut ctx.env, token, owner, 4);
    let fee_account = ctx.fee_account;
    assert_eq!(
        ctx.env.effects,
        vec![
            Effect::Transfer(Transfer { token, from: owner, to: contract, amount: 999 }),
            Effect::Transfer(Transfer { token, from: owner, to: fee_account, amount: 24 }),
            Effect::Transfer(Transfer { token, from: owner, to: contract, amount: 5 }),
            Effect::Transfer(Transfer { token, from: contract, to: owner, amount: 4 }),
        ]
    );
}

// Contributions.

#[test]
fn contributions_are_refused_for_each_reason() {
    let mut ctx = setup();
    let id = ctx.hackathon(100 * UNIT, &[(1, 100)]);
    let who = ctx.address();
    ctx.mint(who, 1_000 * UNIT);
    assert_eq!(ctx.fund(id, who, 0), Err(Error::InvalidContributionAmount));
    assert_eq!(ctx.fund(id, who, -1), Err(Error::InvalidContributionAmount));
    let short = MIN_CONTRIBUTION_STROOPS - 1;
    assert_eq!(ctx.fund(id, who, short), Err(Error::BelowMinimumContribution));
    assert_eq!(ctx.fund(404, who, 10 * UNIT), Err(Error::EventNotFound));
    assert_eq!(ctx.fund(id, who, MIN_CONTRIBUTION_STROOPS), Ok(()));

    ctx.env.erase(DataKey::NonOwnerContributionTotal(id));
    assert_eq!(ctx.fund(id, who, 10 * UNIT), Err(Error::CancellationTotalMissing));
    assert_eq!(ctx.start_cancel(id), Err(Error::CancellationTotalMissing));
    ctx.env.put(DataKey::NonOwnerContributionTotal(id), Entry::Amount(10 * UNIT));
    ctx.env.put(DataKey::ContributorCount(id), Entry::Count(u32::MAX));
    let late = ctx.address();
    ctx.mint(late, 10 * UNIT);
    assert_eq!(ctx.fund(id, late, 10 * UNIT), Err(Error::TooManyContributors));
    assert_eq!(ctx.fund(id, who, 10 * UNIT), Ok(()));
}

#[test]
fn contribution_with_a_used_identifier_is_refused() {
    let mut ctx = setup();
    let id = ctx.hackathon(100 * UNIT, &[(1, 100)]);
    let who = ctx.address();
    ctx.mint(who, 100 * UNIT);
    let op = ctx.op();
    assert_eq!(ctx.invoke(|env| add_funds(env, id, who, 10 * UNIT, op)), Ok(()));
    assert_eq!(
        ctx.invoke(|env| add_funds(env, id, who, 10 * UNIT, op)),
        Err(Error::DuplicateOperation)
    );
    assert_eq!(get_contributor_amount(&ctx.env, id, who), Ok(10 * UNIT));
}

#[test]
fn contributors_are_listed_once_and_their_amounts_add_up() {
    let mut ctx = setup();
    let id = ctx.hackathon(100 * UNIT, &[(1, 100)]);
    let a = ctx.contributor(id, 20 * UNIT);
    let b = ctx.contributor(id, 15 * UNIT);
    ctx.mint(a, 30 * UNIT);
    ctx.published.clear();
    ctx.fund(id, a, 30 * UNIT).unwrap();
    assert_eq!(
        ctx.published,
        vec![Event::FundsAdded {
            event_id: id,
            contributor: a,
            amount: 30 * UNIT,
            new_remaining: 165 * UNIT,
        }]
    );
    let owner = ctx.owner;
    ctx.fund(id, owner, 11 * UNIT).unwrap();

    assert_eq!(get_contributors(&ctx.env, id), Ok(vec![a, b]));
    assert_eq!(get_contributor_count(&ctx.env, id), Ok(2));
    assert_eq!(get_contributor_at(&ctx.env, id, 1), Ok(Some(b)));
    assert_eq!(get_contributor_at(&ctx.env, id, 2), Ok(None));
    assert_eq!(get_contributor_amount(&ctx.env, id, a), Ok(50 * UNIT));
    assert_eq!(get_contributor_amount(&ctx.env, id, owner), Ok(0));
    assert_eq!(ctx.env.storage.count(DataKey::ContributorSlot(id, owner)), 0);
    assert_eq!(ctx.env.storage.count(DataKey::ContributorSlot(id, b)), 2);
    let total = ctx.env.storage.amount(DataKey::NonOwnerContributionTotal(id));
    assert_eq!(total, Some(65 * UNIT));
    let event = get_event(&ctx.env, id).unwrap();
    assert_eq!(event.remaining_escrow, 176 * UNIT);
    assert_eq!(ctx.held(), 176 * UNIT);
}

#[test]
fn missing_total_is_zero_where_nobody_has_paid_in() {
    let mut ctx = setup();
    let id = ctx.hackathon(100 * UNIT, &[(1, 100)]);
    ctx.env.erase(DataKey::NonOwnerContributionTotal(id));
    ctx.contributor(id, 10 * UNIT);
    let total = ctx.env.storage.amount(DataKey::NonOwnerContributionTotal(id));
    assert_eq!(total, Some(10 * UNIT));
}

// Cancellation.

#[test]
fn contributors_get_everything_back_and_the_owner_the_rest() {
    let mut ctx = setup();
    let owner_at_first = ctx.balance(ctx.owner);
    let id = ctx.hackathon(100 * UNIT, &[(1, 100)]);
    let contributors: Vec<Address> =
        (0..30).map(|i| ctx.contributor(id, (10 + i) * UNIT)).collect();
    ctx.start_cancel(id).unwrap();
    assert_eq!(get_event(&ctx.env, id).unwrap().status, EventStatus::Cancelling);
    assert_eq!(ctx.env.auths, vec![ctx.owner]);

    assert_eq!(ctx.batch(id, 0), Ok(30));
    assert_eq!(ctx.finalize(id), Err(Error::CancellationNotFinished));
    assert_eq!(ctx.batch(id, 3), Ok(27));
    assert_eq!(ctx.batch(id, 1_000), Ok(2));
    assert_eq!(ctx.batch(id, 25), Ok(0));
    assert_eq!(ctx.batch(id, 25), Ok(0));
    assert_eq!(ctx.env.auths, vec![]);
    ctx.published.clear();
    ctx.finalize(id).unwrap();
    assert_eq!(
        ctx.published,
        vec![
            Event::OwnerResidualRefunded { event_id: id, owner: ctx.owner, amount: 100 * UNIT },
            Event::EventCancelled { id },
        ]
    );

    for (i, who) in contributors.iter().enumerate() {
        assert_eq!(ctx.balance(*who), (10 + i as i128) * UNIT);
        assert_eq!(get_contributor_amount(&ctx.env, id, *who), Ok(0));
    }
    assert_eq!(ctx.balance(ctx.owner), owner_at_first);
    assert_eq!(ctx.held(), 0);
    let event = get_event(&ctx.env, id).unwrap();
    assert_eq!((event.status, event.remaining_escrow), (EventStatus::Cancelled, 0));
    assert_eq!(ctx.env.storage.cancellation(id), None);
    assert_eq!(ctx.batch(id, 25), Err(Error::CancellationNotStarted));
    assert_eq!(ctx.finalize(id), Err(Error::CancellationNotStarted));
}

#[test]
fn short_escrow_is_shared_in_proportion() {
    let mut ctx = setup();
    let id = ctx.hackathon(100 * UNIT, &[(1, 70), (2, 30)]);
    let a = ctx.contributor(id, 60 * UNIT);
    let b = ctx.contributor(id, 40 * UNIT + 1);
    let applicant = ctx.applicant;
    ctx.select(id, &vec![winner(applicant, 1, 0)]);
    ctx.claim(id, 1);
    let prize = (200 * UNIT + 1) * 70 / 100;
    assert_eq!(ctx.balance(applicant), prize);
    let remaining = 200 * UNIT + 1 - prize;
    assert_eq!(ctx.held(), remaining);

    ctx.start_cancel(id).unwrap();
    let total = 100 * UNIT + 1;
    assert_eq!(
        ctx.env.storage.cancellation(id),
        Some(CancellationState {
            non_owner_total: total,
            remaining_at_start: remaining,
            count_at_start: 2,
            next_idx: 0,
            branch: CancellationBranch::ProRataPartners,
        })
    );
    let owner_before = ctx.balance(ctx.owner);
    assert_eq!(ctx.batch(id, 25), Ok(0));
    ctx.finalize(id).unwrap();
    assert_eq!(ctx.balance(a), 60 * UNIT * remaining / total);
    assert_eq!(ctx.balance(b), (40 * UNIT + 1) * remaining / total);
    assert_eq!(ctx.balance(ctx.owner), owner_before);
    let paid = ctx.balance(a) + ctx.balance(b);
    assert!(remaining - 2 < paid && paid <= remaining);
}

#[test]
fn owner_alone_is_refunded_at_once() {
    let mut ctx = setup();
    let owner_at_first = ctx.balance(ctx.owner);
    let id = ctx.hackathon(100 * UNIT, &[(1, 100)]);
    ctx.start_cancel(id).unwrap();
    assert_eq!(ctx.balance(ctx.owner), owner_at_first);
    assert_eq!(get_event(&ctx.env, id).unwrap().status, EventStatus::Cancelled);
    assert_eq!(ctx.env.storage.cancellation(id), None);
}

#[test]
fn empty_campaign_is_cancelled_without_a_transfer() {
    let mut ctx = setup();
    let params = ctx.params(Pillar::Crowdfunding, 500 * UNIT, &[(1, 100)]);
    let id = ctx.try_create_event(params).unwrap();
    ctx.published.clear();
    ctx.start_cancel(id).unwrap();
    assert_eq!(ctx.published, vec![Event::EventCancelled { id }]);
}

#[test]
fn cancellation_is_refused_for_each_reason() {
    let mut ctx = setup();
    assert_eq!(ctx.start_cancel(404), Err(Error::EventNotFound));
    let id = ctx.hackathon(100 * UNIT, &[(1, 100)]);
    ctx.contributor(id, 10 * UNIT);
    assert_eq!(ctx.batch(id, 5), Err(Error::CancellationNotStarted));
    assert_eq!(ctx.batch(404, 5), Err(Error::EventNotFound));
    ctx.start_cancel(id).unwrap();
    assert_eq!(ctx.start_cancel(id), Err(Error::EventNotActive));

    let other = ctx.hackathon(100 * UNIT, &[(1, 100)]);
    let state = ctx.env.storage.cancellation(id).unwrap();
    ctx.env.put(DataKey::CancellationState(other), Entry::Cancellation(state));
    assert_eq!(ctx.start_cancel(other), Err(Error::CancellationAlreadyStarted));

    let op = ctx.op();
    assert_eq!(ctx.invoke(|env| process_cancel_batch(env, id, 0, op)), Ok(1));
    assert_eq!(
        ctx.invoke(|env| process_cancel_batch(env, id, 1, op)),
        Err(Error::DuplicateOperation)
    );
    assert_eq!(
        ctx.invoke(|env| finalize_cancel(env, id, op)),
        Err(Error::DuplicateOperation)
    );
}

#[test]
fn steps_anyone_may_take_do_not_use_up_other_identifiers() {
    let mut ctx = setup();
    let id = ctx.hackathon(100 * UNIT, &[(1, 100)]);
    ctx.contributor(id, 10 * UNIT);
    let other = ctx.hackathon(100 * UNIT, &[(1, 100)]);
    ctx.start_cancel(id).unwrap();
    let op = ctx.op();
    assert_eq!(ctx.invoke(|env| process_cancel_batch(env, id, 1, op)), Ok(0));
    assert_eq!(ctx.invoke(|env| start_cancel(env, other, op)), Ok(()));
}

#[test]
fn refund_skips_places_that_hold_nothing() {
    let mut ctx = setup();
    let id = ctx.hackathon(100 * UNIT, &[(1, 100)]);
    let a = ctx.contributor(id, 10 * UNIT);
    let b = ctx.contributor(id, 20 * UNIT);
    let c = ctx.contributor(id, 30 * UNIT);
    ctx.start_cancel(id).unwrap();
    ctx.env.erase(DataKey::ContributorAt(id, 0));
    ctx.env.put(DataKey::ContributorAmount(id, b), Entry::Amount(-5));
    assert_eq!(ctx.batch(id, 25), Ok(0));
    assert_eq!((ctx.balance(a), ctx.balance(b), ctx.balance(c)), (0, 0, 30 * UNIT));
    assert_eq!(get_contributor_amount(&ctx.env, id, b), Ok(-5));
}

#[test]
fn cancelling_one_event_leaves_the_others() {
    let mut ctx = setup();
    let first = ctx.hackathon(100 * UNIT, &[(1, 100)]);
    let second = ctx.hackathon(50 * UNIT, &[(1, 100)]);
    let who = ctx.contributor(second, 10 * UNIT);
    let untouched = get_event(&ctx.env, second).unwrap();
    ctx.start_cancel(first).unwrap();
    assert_eq!(get_event(&ctx.env, second), Ok(untouched));
    assert_eq!(get_contributor_amount(&ctx.env, second, who), Ok(10 * UNIT));
    assert_eq!(ctx.held(), 60 * UNIT);
}

// Submissions.

#[test]
fn submissions_are_refused_for_each_reason() {
    let mut ctx = setup();
    let who = ctx.applicant;
    let uri = ctx.text("ipfs://work");
    let op = ctx.op();
    assert_eq!(ctx.try_submit(404, who, &uri, op), Err(Error::EventNotFound));
    let params = ctx.params(Pillar::Grant, 100 * UNIT, &[(1, 100)]);
    let grant = ctx.try_create_event(params).unwrap();
    assert_eq!(ctx.try_submit(grant, who, &uri, op), Err(Error::ApplicantNotApplied));
    assert_eq!(ctx.env.auths, vec![who]);
    assert_eq!(
        ctx.invoke(|env| withdraw_submission(env, grant, who, op)),
        Err(Error::SubmissionNotFound)
    );
    ctx.start_cancel(grant).unwrap();
    assert_eq!(ctx.try_submit(grant, who, &uri, op), Err(Error::EventNotActive));
    assert_eq!(get_submission(&ctx.env, grant, who), Err(Error::SubmissionNotFound));
}

#[test]
fn content_may_be_as_long_as_the_limit() {
    let mut ctx = setup();
    let id = ctx.hackathon(100 * UNIT, &[(1, 100)]);
    let who = ctx.applicant;
    let uri = ctx.text(&"x".repeat(MAX_CONTENT_URI_LEN as usize));
    let op = ctx.op();
    assert_eq!(ctx.try_submit(id, who, &uri, op), Ok(()));
    assert_eq!(
        ctx.published.last(),
        Some(&Event::Submitted { event_id: id, applicant: who, content_uri: uri })
    );
}

#[test]
fn handing_in_again_keeps_the_first_time() {
    let mut ctx = setup();
    let id = ctx.hackathon(100 * UNIT, &[(1, 100)]);
    let who = ctx.applicant;
    let (first, second) = (ctx.text("v1"), ctx.text("v2"));
    let at_first = ctx.env.timestamp;
    let op = ctx.op();
    ctx.try_submit(id, who, &first, op).unwrap();
    ctx.env.timestamp += 600;
    let op = ctx.op();
    ctx.try_submit(id, who, &second, op).unwrap();
    let on_file = get_submission(&ctx.env, id, who).unwrap();
    assert_eq!(on_file.content_uri, second);
    assert_eq!(on_file.submitted_at, at_first);
    assert_eq!(on_file.updated_at, Some(at_first + 600));
    assert_eq!(on_file.clone(), on_file);
}

#[test]
fn submissions_on_file_are_not_counted_twice() {
    let mut ctx = setup();
    let id = ctx.hackathon(100 * UNIT, &[(1, 100)]);
    let (who, uri, op) = (ctx.applicant, ctx.text("v1"), ctx.op());
    ctx.try_submit(id, who, &uri, op).unwrap();
    ctx.env.put(DataKey::EventSubmissionCount(id), Entry::Count(u32::MAX));
    assert_eq!(append_submission(&mut ctx.env, id, who), Ok(()));
    let other = ctx.address();
    assert_eq!(append_submission(&mut ctx.env, id, other), Err(Error::TooManyContributors));
    let op = ctx.op();
    assert_eq!(ctx.try_submit(id, who, &uri, op), Ok(()));
}

// Winners and prizes.

#[test]
fn selections_are_refused_for_each_reason() {
    let mut ctx = setup();
    let a = ctx.address();
    let b = ctx.address();
    let op = ctx.op();
    assert_eq!(ctx.try_select(404, &vec![winner(a, 1, 0)], op), Err(Error::EventNotFound));
    let id = ctx.hackathon(100 * UNIT, &[(1, 60), (2, 40), (3, 0)]);
    assert_eq!(ctx.try_select(id, &vec![], op), Err(Error::NoSubmissions));
    assert_eq!(
        ctx.try_select(id, &vec![winner(a, 9, 0)], op),
        Err(Error::InvalidWinnerPosition)
    );
    assert_eq!(
        ctx.try_select(id, &vec![winner(a, 1, 0), winner(b, 1, 0)], op),
        Err(Error::DuplicateWinnerPosition)
    );
    assert_eq!(
        ctx.try_select(id, &vec![winner(a, 3, 0)], op),
        Err(Error::InvalidDistribution)
    );
    let many = vec![winner(a, 1, 0); 51];
    assert_eq!(ctx.try_select(id, &many, op), Err(Error::InvalidWinnerPosition));
    assert_eq!(ctx.try_select(id, &vec![winner(a, 1, 0)], op), Ok(()));
    assert_eq!(
        ctx.try_select(id, &vec![winner(b, 2, 0)], op),
        Err(Error::DuplicateOperation)
    );
    let op = ctx.op();
    assert_eq!(
        ctx.try_select(id, &vec![winner(b, 1, 0)], op),
        Err(Error::DuplicateWinnerPosition)
    );
    let mut drained = get_event(&ctx.env, id).unwrap();
    drained.remaining_escrow = 40 * UNIT - 1;
    ctx.env.put(DataKey::Event(id), Entry::Event(drained));
    assert_eq!(
        ctx.try_select(id, &vec![winner(b, 2, 0)], op),
        Err(Error::InsufficientEscrow)
    );
    assert_eq!(ctx.try_claim(id, 1), Err(Error::InsufficientEscrow));
}

#[test]
fn fifty_winners_fit_in_one_selection() {
    let mut ctx = setup();
    let pairs: Vec<(u32, u32)> = (1..=50).map(|position| (position, 2)).collect();
    let id = ctx.hackathon(100 * UNIT, &pairs);
    let winners: Vec<WinnerSpec> =
        (1..=50).map(|position| winner(ctx.applicant, position, position)).collect();
    ctx.select(id, &winners);
    assert_eq!(ctx.env.storage.count(DataKey::EventUnclaimedPrizes(id)), 50);
    for position in (1..=50).rev() {
        ctx.claim(id, position);
    }
    assert_eq!(ctx.balance(ctx.applicant), 100 * UNIT);
    assert_eq!(ctx.reputation_of(ctx.applicant), Some(50 * 51 / 2));
    assert_eq!(get_event(&ctx.env, id).unwrap().status, EventStatus::Completed);
}

#[test]
fn event_with_winners_but_no_base_is_settled() {
    let mut ctx = setup();
    let id = ctx.hackathon(100 * UNIT, &[(1, 100)]);
    ctx.env.put(DataKey::EventWinnerCount(id), Entry::Count(1));
    let winners = vec![winner(ctx.applicant, 1, 0)];
    let op = ctx.op();
    assert_eq!(ctx.try_select(id, &winners, op), Err(Error::WinnersAlreadySelected));
}

#[test]
fn milestone_event_takes_winners_after_paid_milestones_alone() {
    let mut ctx = setup();
    let mut params = ctx.params(Pillar::Grant, 100 * UNIT, &[(1, 100)]);
    params.release_kind = ReleaseKind::Multi(4);
    let id = ctx.try_create_event(params).unwrap();
    let recipient = ctx.address();
    ctx.env.put(
        DataKey::EventWinnerAt(id, 0),
        Entry::Winner(Winner {
            recipient,
            position: 1,
            amount: 25 * UNIT,
            milestone: Some(0),
            paid_at: Some(1),
        }),
    );
    ctx.env.put(DataKey::EventWinnerCount(id), Entry::Count(1));
    ctx.select(id, &vec![winner(recipient, 1, 0)]);
    assert_eq!(get_winner_count(&ctx.env, id), Ok(2));
    assert_eq!(get_winner_at(&ctx.env, id, 1).unwrap().unwrap().amount, 0);
    assert_eq!(ctx.env.storage.amount(DataKey::EventPrizeBaseEscrow(id)), None);
    assert_eq!(ctx.try_claim(id, 1), Err(Error::InvalidReleaseKind));
}

#[test]
fn rows_and_awards_agree_through_selections_and_claims() {
    let mut ctx = setup();
    let budget = 100 * UNIT + 7;
    let id = ctx.hackathon(budget, &[(1, 50), (2, 30), (3, 20)]);
    let (a, b, c) = (ctx.address(), ctx.address(), ctx.address());
    let agree = |ctx: &Ctx| {
        let rows = get_winners(&ctx.env, id).unwrap();
        for (idx, row) in rows.iter().enumerate() {
            let award = ctx.env.storage.award(id, row.position).unwrap();
            assert_eq!((award.anchor_idx as usize, award.recipient), (idx, row.recipient));
            assert!(rows[..idx].iter().all(|earlier| earlier.position != row.position));
        }
        assert!(rows.iter().map(|row| row.amount).sum::<i128>() <= budget);
        let unpaid: Vec<&Winner> = rows.iter().filter(|row| row.paid_at.is_none()).collect();
        let unclaimed = ctx.env.storage.count(DataKey::EventUnclaimedPrizes(id));
        assert_eq!(unpaid.len(), unclaimed as usize);
        let owed: i128 = unpaid.iter().map(|row| row.amount).sum();
        assert!(owed <= get_event(&ctx.env, id).unwrap().remaining_escrow);
    };
    agree(&ctx);
    ctx.select(id, &vec![winner(b, 2, 0)]);
    agree(&ctx);
    ctx.claim(id, 2);
    agree(&ctx);
    ctx.contributor(id, 60 * UNIT);
    ctx.select(id, &vec![winner(c, 3, 0), winner(a, 1, 0)]);
    agree(&ctx);
    ctx.claim(id, 1);
    agree(&ctx);
    ctx.claim(id, 3);
    agree(&ctx);
}

#[test]
fn checks_say_what_the_operations_will() {
    let mut ctx = setup();
    let op = ctx.op();
    let params = ctx.params(Pillar::Hackathon, 100 * UNIT, &[(1, 100)]);
    assert_eq!(check_creation(&ctx.env, &params, op, Ok(())), Ok(()));
    let verdict = Err(Error::InvalidPillar);
    assert_eq!(check_creation(&ctx.env, &params, op, verdict), Err(Error::InvalidPillar));
    let id = ctx.hackathon(100 * UNIT, &[(1, 100)]);
    assert_eq!(event_to_decide(&ctx.env, 404), Err(Error::EventNotFound));
    let event = event_to_decide(&ctx.env, id).unwrap();
    assert_eq!(event, get_event(&ctx.env, id).unwrap());
    let winners = vec![winner(ctx.applicant, 1, 0)];
    assert_eq!(check_selection(&ctx.env, id, &event, &winners, op), Ok(()));
    assert_eq!(
        check_selection(&ctx.env, id, &event, &vec![], op),
        Err(Error::NoSubmissions)
    );
    assert_eq!(
        running_cancellation(&ctx.env, id, op),
        Err(Error::CancellationNotStarted)
    );
    ctx.contributor(id, 10 * UNIT);
    ctx.start_cancel(id).unwrap();
    assert_eq!(event_to_decide(&ctx.env, id), Err(Error::EventNotActive));
    let (event, state) = running_cancellation(&ctx.env, id, op).unwrap();
    assert_eq!(event.status, EventStatus::Cancelling);
    assert_eq!((state.count_at_start, state.next_idx), (1, 0));
}

#[test]
fn later_selections_share_the_first_base() {
    let mut ctx = setup();
    let id = ctx.hackathon(100 * UNIT, &[(1, 50), (2, 30), (3, 20)]);
    let (a, b, c) = (ctx.address(), ctx.address(), ctx.address());
    ctx.select(id, &vec![winner(a, 1, 0)]);
    ctx.claim(id, 1);
    ctx.contributor(id, 60 * UNIT);
    ctx.select(id, &vec![winner(b, 2, 0), winner(c, 3, 0)]);
    assert_eq!(ctx.env.storage.amount(DataKey::EventPrizeBaseEscrow(id)), Some(100 * UNIT));
    ctx.claim(id, 3);
    ctx.claim(id, 2);
    assert_eq!((ctx.balance(a), ctx.balance(b), ctx.balance(c)), (50 * UNIT, 30 * UNIT, 20 * UNIT));
    let event = get_event(&ctx.env, id).unwrap();
    assert_eq!((event.status, event.remaining_escrow), (EventStatus::Active, 60 * UNIT));
}

#[test]
fn odd_prizes_are_rounded_down() {
    let mut ctx = setup();
    let budget = 100 * UNIT + 99;
    let id = ctx.hackathon(budget, &[(1, 33), (2, 33), (3, 34)]);
    let (a, b, c) = (ctx.address(), ctx.address(), ctx.address());
    ctx.select(id, &vec![winner(a, 1, 0), winner(b, 2, 0), winner(c, 3, 0)]);
    for position in 1..=3 {
        ctx.claim(id, position);
    }
    assert_eq!(ctx.balance(a), budget * 33 / 100);
    assert_eq!(ctx.balance(c), budget * 34 / 100);
    let event = get_event(&ctx.env, id).unwrap();
    assert_eq!(event.remaining_escrow, 2);
    assert_eq!(event.status, EventStatus::Active);
}

#[test]
fn prize_is_claimed_once_and_asks_for_the_winner() {
    let mut ctx = setup();
    let id = ctx.hackathon(100 * UNIT, &[(1, 60), (2, 40)]);
    let a = ctx.address();
    ctx.select(id, &vec![winner(a, 1, 7)]);
    assert_eq!(ctx.try_claim(id, 2), Err(Error::InvalidWinnerPosition));
    let op = ctx.op();
    assert_eq!(ctx.invoke(|env| claim_prize(env, id, 1, op)), Ok(()));
    assert_eq!(ctx.env.auths, vec![a]);
    assert_eq!(
        ctx.invoke(|env| claim_prize(env, id, 1, op)),
        Err(Error::DuplicateOperation)
    );
    assert_eq!(ctx.try_claim(id, 1), Err(Error::PrizeAlreadyClaimed));
    assert_eq!(ctx.balance(a), 60 * UNIT);
    assert_eq!(ctx.env.storage.count(DataKey::EventUnclaimedPrizes(id)), 0);
    assert_eq!(get_winner_at(&ctx.env, id, 0).unwrap().unwrap().paid_at, Some(ctx.env.timestamp));
}

#[test]
fn claim_pays_before_the_profile_hears_of_it() {
    let mut ctx = setup();
    let id = ctx.hackathon(100 * UNIT, &[(1, 100)]);
    let a = ctx.address();
    ctx.select(id, &vec![winner(a, 1, 7)]);
    let op_id = ctx.op();
    claim_prize(&mut ctx.env, id, 1, op_id).unwrap();
    let (token, contract) = (ctx.token_addr, ctx.env.contract);
    let amount = 100 * UNIT;
    let calls: Vec<&Effect> = ctx.env.effects.iter().collect();
    assert_eq!(calls.len(), 5);
    assert_eq!(
        *calls[0],
        Effect::Transfer(Transfer { token, from: contract, to: a, amount })
    );
    assert_eq!(
        *calls[1],
        Effect::Publish(Event::WinnerPaid {
            event_id: id,
            recipient: a,
            position: 1,
            amount,
            milestone: None,
        })
    );
    let part = |tag: u8| derive_child(&ctx.text("any"), op_id, tag);
    assert_eq!(
        *calls[2],
        Effect::Profile(ProfileCall::Bootstrap { user: a, op_id: part(BOOTSTRAP) })
    );
    assert_eq!(
        *calls[3],
        Effect::Profile(ProfileCall::BumpReputation {
            user: a,
            bump: 7,
            reason: Reason::Win,
            op_id: part(BUMP_REP),
        })
    );
    assert_eq!(
        *calls[4],
        Effect::Profile(ProfileCall::RegisterEarnings {
            user: a,
            token,
            amount,
            op_id: part(REGISTER_EARNINGS),
        })
    );
}

#[test]
fn claims_are_refused_where_award_and_row_disagree() {
    let mut ctx = setup();
    let id = ctx.hackathon(100 * UNIT, &[(1, 60), (2, 40)]);
    let (a, b) = (ctx.address(), ctx.address());
    ctx.select(id, &vec![winner(a, 1, 0), winner(b, 2, 0)]);
    let award = PrizeAward { recipient: a, anchor_idx: 9, reputation_bump: 0 };
    ctx.env.put(DataKey::EventPrizeAward(id, 1), Entry::Award(award));
    assert_eq!(ctx.try_claim(id, 1), Err(Error::InvalidWinnerPosition));
    let award = PrizeAward { recipient: a, anchor_idx: 1, reputation_bump: 0 };
    ctx.env.put(DataKey::EventPrizeAward(id, 1), Entry::Award(award));
    assert_eq!(ctx.try_claim(id, 1), Err(Error::InvalidWinnerPosition));
    let mut row = get_winner_at(&ctx.env, id, 1).unwrap().unwrap();
    row.amount = 0;
    ctx.env.put(DataKey::EventWinnerAt(id, 1), Entry::Winner(row));
    assert_eq!(ctx.try_claim(id, 2), Err(Error::InvalidDistribution));
}

#[test]
fn unclaimed_prizes_hold_off_cancellation_until_the_window_closes() {
    let mut ctx = setup();
    let id = ctx.hackathon(100 * UNIT, &[(1, 60), (2, 40)]);
    let (a, b) = (ctx.address(), ctx.address());
    ctx.select(id, &vec![winner(a, 1, 0)]);
    let first_expiry = ctx.env.timestamp + PRIZE_CLAIM_WINDOW_SECS;
    let expiry_of = |ctx: &Ctx| ctx.env.storage.number(DataKey::EventPrizeClaimExpiry(id));
    assert_eq!(expiry_of(&ctx), Some(first_expiry));
    assert_eq!(ctx.start_cancel(id), Err(Error::WinnersAlreadySelected));
    ctx.env.timestamp += 1_000;
    ctx.select(id, &vec![winner(b, 2, 0)]);
    assert_eq!(expiry_of(&ctx), Some(first_expiry + 1_000));
    ctx.env.timestamp = first_expiry + 1_000;
    assert_eq!(ctx.start_cancel(id), Err(Error::WinnersAlreadySelected));
    ctx.claim(id, 2);
    ctx.env.timestamp += 1;
    let owner_before = ctx.balance(ctx.owner);
    assert_eq!(ctx.start_cancel(id), Ok(()));
    assert_eq!(ctx.balance(ctx.owner) - owner_before, 60 * UNIT);
    assert_eq!(ctx.try_claim(id, 1), Err(Error::EventNotActive));
}

#[test]
fn claimed_prizes_do_not_hold_off_cancellation() {
    let mut ctx = setup();
    let id = ctx.hackathon(100 * UNIT, &[(1, 60), (2, 40)]);
    let a = ctx.address();
    ctx.select(id, &vec![winner(a, 1, 0)]);
    ctx.claim(id, 1);
    assert_eq!(ctx.start_cancel(id), Ok(()));
}

#[test]
fn window_near_the_end_of_time_saturates() {
    let mut ctx = setup();
    let id = ctx.hackathon(100 * UNIT, &[(1, 100)]);
    ctx.env.timestamp = u64::MAX - 5;
    let a = ctx.address();
    ctx.select(id, &vec![winner(a, 1, 0)]);
    let expiry = ctx.env.storage.number(DataKey::EventPrizeClaimExpiry(id));
    assert_eq!(expiry, Some(u64::MAX));
}

// Managers.

#[test]
fn rotation_publishes_what_happens() {
    let mut ctx = setup();
    let id = ctx.hackathon(100 * UNIT, &[(1, 100)]);
    let (a, b) = (ctx.address(), ctx.address());
    ctx.published.clear();
    ctx.invoke(|env| propose_manager(env, id, a)).unwrap();
    assert_eq!(ctx.env.auths, vec![ctx.owner]);
    ctx.invoke(|env| accept_manager(env, id)).unwrap();
    assert_eq!(ctx.env.auths, vec![a]);
    ctx.env.sequence = u32::MAX - 1;
    ctx.invoke(|env| propose_manager(env, id, b)).unwrap();
    assert_eq!(ctx.env.auths, vec![a]);
    ctx.invoke(|env| cancel_pending_manager(env, id)).unwrap();
    assert_eq!(ctx.env.auths, vec![a]);
    let in_time = 1_000 + PENDING_MANAGER_TTL_LEDGERS;
    assert_eq!(
        ctx.published,
        vec![
            Event::ManagerProposed { event_id: id, target: a, expires_at_ledger: in_time },
            Event::ManagerChanged { event_id: id, new_manager: a },
            Event::ManagerProposed { event_id: id, target: b, expires_at_ledger: u32::MAX },
            Event::PendingManagerCancelled { event_id: id },
        ]
    );
    assert_eq!(
        ctx.invoke(|env| cancel_pending_manager(env, id)),
        Err(Error::PendingRotationMismatch)
    );
}

#[test]
fn proposal_can_be_accepted_in_its_last_ledger() {
    let mut ctx = setup();
    let id = ctx.hackathon(100 * UNIT, &[(1, 100)]);
    let a = ctx.address();
    ctx.invoke(|env| propose_manager(env, id, a)).unwrap();
    ctx.env.sequence += PENDING_MANAGER_TTL_LEDGERS;
    assert_eq!(ctx.invoke(|env| accept_manager(env, id)), Ok(()));
    assert_eq!(get_manager(&ctx.env, id), Ok(a));
}

// Reads, and the pause.

#[test]
fn lists_are_read_in_pages() {
    let mut ctx = setup();
    let id = ctx.hackathon(100 * UNIT, &[(1, 100)]);
    let contributors: Vec<Address> =
        (0..130).map(|_| ctx.contributor(id, MIN_CONTRIBUTION_STROOPS)).collect();
    let env = &ctx.env;
    assert_eq!(get_contributors(env, id).unwrap(), contributors[..100]);
    assert_eq!(get_contributors_page(env, id, 0, 500).unwrap(), contributors[..100]);
    assert_eq!(get_contributors_page(env, id, 90, 20).unwrap(), contributors[90..110]);
    assert_eq!(get_contributors_page(env, id, 100, 100).unwrap(), contributors[100..]);
    assert_eq!(get_contributors_page(env, id, 130, 100).unwrap(), vec![]);
    assert_eq!(get_contributors_page(env, id, u32::MAX, u32::MAX).unwrap(), vec![]);
    assert_eq!(get_contributors_page(env, id, 5, 0).unwrap(), vec![]);
}

#[test]
fn applicants_and_winners_are_read_alike() {
    let mut ctx = setup();
    let id = ctx.hackathon(100 * UNIT, &[(1, 60), (2, 40)]);
    let (a, b) = (ctx.address(), ctx.address());
    ctx.env.put(DataKey::EventApplicantAt(id, 0), Entry::Address(a));
    ctx.env.put(DataKey::EventApplicantAt(id, 1), Entry::Address(b));
    ctx.env.put(DataKey::EventApplicantCount(id), Entry::Count(2));
    assert_eq!(get_applicants(&ctx.env, id), Ok(vec![a, b]));
    assert_eq!(get_applicants_page(&ctx.env, id, 1, 1), Ok(vec![b]));
    assert_eq!(get_applicant_count(&ctx.env, id), Ok(2));
    assert_eq!(get_applicant_at(&ctx.env, id, 0), Ok(Some(a)));
    assert_eq!(get_applicant_at(&ctx.env, id, 2), Ok(None));
    ctx.select(id, &vec![winner(a, 1, 0), winner(b, 2, 0)]);
    let page = get_winners_page(&ctx.env, id, 1, 9).unwrap();
    assert_eq!(page.len(), 1);
    assert_eq!((page[0].recipient, page[0].amount), (b, 40 * UNIT));
    assert_eq!(get_winners(&ctx.env, id).unwrap()[1], page[0]);
    assert_eq!(get_winner_count(&ctx.env, id), Ok(2));
    assert_eq!(get_winner_at(&ctx.env, id, 2), Ok(None));
}

#[test]
fn reads_of_an_unknown_event_fail() {
    let ctx = setup();
    let (env, who) = (&ctx.env, ctx.applicant);
    assert_eq!(get_event(env, 9), Err(Error::EventNotFound));
    assert_eq!(get_manager(env, 9), Err(Error::EventNotFound));
    assert_eq!(get_pending_manager(env, 9), Err(Error::EventNotFound));
    assert_eq!(get_applicants(env, 9), Err(Error::EventNotFound));
    assert_eq!(get_applicants_page(env, 9, 0, 1), Err(Error::EventNotFound));
    assert_eq!(get_applicant_count(env, 9), Err(Error::EventNotFound));
    assert_eq!(get_applicant_at(env, 9, 0), Err(Error::EventNotFound));
    assert_eq!(get_winners(env, 9), Err(Error::EventNotFound));
    assert_eq!(get_winners_page(env, 9, 0, 1), Err(Error::EventNotFound));
    assert_eq!(get_winner_count(env, 9), Err(Error::EventNotFound));
    assert_eq!(get_winner_at(env, 9, 0), Err(Error::EventNotFound));
    assert_eq!(get_contributors(env, 9), Err(Error::EventNotFound));
    assert_eq!(get_contributors_page(env, 9, 0, 1), Err(Error::EventNotFound));
    assert_eq!(get_contributor_count(env, 9), Err(Error::EventNotFound));
    assert_eq!(get_contributor_at(env, 9, 0), Err(Error::EventNotFound));
    assert_eq!(get_contributor_amount(env, 9, who), Err(Error::EventNotFound));
    assert_eq!(get_submission(env, 9, who), Err(Error::SubmissionNotFound));
}

#[test]
fn pause_stops_every_operation() {
    let mut ctx = setup();
    let id = ctx.hackathon(100 * UNIT, &[(1, 100)]);
    let (who, uri) = (ctx.applicant, ctx.text("u"));
    ctx.env.settings.paused = true;
    let op = ctx.op();
    let params = ctx.params(Pillar::Hackathon, UNIT, &[(1, 100)]);
    assert_eq!(ctx.try_create_event(params), Err(Error::Paused));
    assert_eq!(ctx.invoke(|env| propose_manager(env, id, who)), Err(Error::Paused));
    assert_eq!(ctx.invoke(|env| accept_manager(env, id)), Err(Error::Paused));
    assert_eq!(ctx.invoke(|env| cancel_pending_manager(env, id)), Err(Error::Paused));
    assert_eq!(ctx.fund(id, who, 10 * UNIT), Err(Error::Paused));
    assert_eq!(ctx.start_cancel(id), Err(Error::Paused));
    assert_eq!(ctx.batch(id, 1), Err(Error::Paused));
    assert_eq!(ctx.finalize(id), Err(Error::Paused));
    assert_eq!(ctx.try_submit(id, who, &uri, op), Err(Error::Paused));
    assert_eq!(
        ctx.invoke(|env| withdraw_submission(env, id, who, op)),
        Err(Error::Paused)
    );
    assert_eq!(ctx.try_select(id, &vec![winner(who, 1, 0)], op), Err(Error::Paused));
    assert_eq!(ctx.try_claim(id, 1), Err(Error::Paused));
    assert_eq!(ctx.env.auths, vec![]);
    assert!(get_event(&ctx.env, id).is_ok());
}
