//! What one invocation of the contract sees and does.
use crate::host::Text;
use crate::storage::{continues, Entry, Storage, Store};
use crate::types::{Address, Bytes32, DataKey, Pillar};
use vstd::prelude::*;

verus! {

/// The contract's configuration.
#[derive(Clone, Copy, Debug, PartialEq, Eq, Structural)]
pub struct Settings {
    /// While set, every operation that changes anything is refused.
    pub paused: bool,
    /// Who receives the platform fee.
    pub fee_account: Address,
    /// The platform fee in basis points, for events that do not override it.
    pub fee_bps: u32,
    /// The highest fee that an event may override it with.
    pub max_fee_bps: u32,
}

/// What the contract publishes to the ledger's event log.
#[derive(Debug, PartialEq)]
pub enum Event {
    EventCreated {
        id: u64,
        pillar: Pillar,
        owner: Address,
        token: Address,
        total_budget: i128,
        content_uri: Text,
        title: Text,
    },
    ManagerProposed { event_id: u64, target: Address, expires_at_ledger: u32 },
    ManagerChanged { event_id: u64, new_manager: Address },
    PendingManagerCancelled { event_id: u64 },
    FundsAdded { event_id: u64, contributor: Address, amount: i128, new_remaining: i128 },
    ContributorRefunded { event_id: u64, contributor: Address, amount: i128 },
    OwnerResidualRefunded { event_id: u64, owner: Address, amount: i128 },
    EventCancelled { id: u64 },
    Submitted { event_id: u64, applicant: Address, content_uri: Text },
    SubmissionWithdrawn { event_id: u64, applicant: Address },
    WinnersSelected { event_id: u64, count: u32 },
    WinnerPaid {
        event_id: u64,
        recipient: Address,
        position: u32,
        amount: i128,
        milestone: Option<u32>,
    },
}

/// A movement of tokens.
#[derive(Clone, Copy, Debug, PartialEq, Eq, Structural)]
pub struct Transfer {
    pub token: Address,
    pub from: Address,
    pub to: Address,
    pub amount: i128,
}

/// Why a profile's reputation changes.
#[derive(Clone, Copy, Debug, PartialEq, Eq, Structural)]
pub enum Reason {
    Win,
}

/// A call to the profile contract. Each carries an identifier of its own, derived from that
/// of the operation that it is part of. A call that fails there changes nothing here.
#[derive(Clone, Copy, Debug, PartialEq, Eq, Structural)]
pub enum ProfileCall {
    Bootstrap { user: Address, op_id: Bytes32 },
    BumpReputation { user: Address, bump: u32, reason: Reason, op_id: Bytes32 },
    RegisterEarnings { user: Address, token: Address, amount: i128, op_id: Bytes32 },
}

/// What an invocation asks of the world outside its own ledger entries.
#[derive(Debug, PartialEq)]
pub enum Effect {
    Transfer(Transfer),
    Publish(Event),
    Profile(ProfileCall),
}

/// The environment of an invocation: the ledger's clock, the contract's address and
/// configuration, its ledger entries, whose authorization has been demanded so far and
/// what has been asked of the outside so far, in order.
pub struct Env {
    pub timestamp: u64,
    pub sequence: u32,
    pub contract: Address,
    pub settings: Settings,
    pub storage: Storage,
    pub auths: Vec<Address>,
    pub effects: Vec<Effect>,
}

#[verifier::ext_equal]
pub struct EnvView {
    pub timestamp: u64,
    pub sequence: u32,
    pub contract: Address,
    pub settings: Settings,
    pub store: Store,
    pub auths: Seq<Address>,
    pub effects: Seq<Effect>,
}

impl View for Env {
    type V = EnvView;

    open spec fn view(&self) -> EnvView {
        EnvView {
            timestamp: self.timestamp,
            sequence: self.sequence,
            contract: self.contract,
            settings: self.settings,
            store: self.storage@,
            auths: self.auths@,
            effects: self.effects@,
        }
    }
}

impl EnvView {
    /// The environment once `who` has been asked for authorization.
    pub open spec fn authorized_by(self, who: Address) -> EnvView {
        EnvView { auths: self.auths.push(who), ..self }
    }

    /// The environment with other ledger entries.
    pub open spec fn with_store(self, store: Store) -> EnvView {
        EnvView { store, ..self }
    }

    /// The environment once an entry has been written.
    pub open spec fn put(self, key: DataKey, entry: Entry) -> EnvView {
        EnvView { store: self.store.insert(key, entry), ..self }
    }

    /// The environment once an entry has been deleted.
    pub open spec fn erase(self, key: DataKey) -> EnvView {
        EnvView { store: self.store.remove(key), ..self }
    }

    /// The environment once `effect` has been asked for.
    pub open spec fn with(self, effect: Effect) -> EnvView {
        EnvView { effects: self.effects.push(effect), ..self }
    }
}

/// Whether an operation has written behind all writes that were in the log before and, if
/// it was refused, has written nothing. Who has brought entries in before the operation
/// finds what it wrote, in order, behind them.
pub open spec fn writes_behind(before: Env, after: Env, accepted: bool) -> bool {
    &&& continues(after.storage.log@, before.storage.log@)
    &&& !accepted ==> after.storage.log@ == before.storage.log@
}

impl Env {
    /// An environment with no ledger entries.
    pub fn new(timestamp: u64, sequence: u32, contract: Address, settings: Settings) -> (r: Env)
        ensures
            r.storage.log@.len() == 0,
            r@ == (EnvView {
                timestamp,
                sequence,
                contract,
                settings,
                store: Map::empty(),
                auths: Seq::empty(),
                effects: Seq::empty(),
            }),
    {
        Env {
            timestamp,
            sequence,
            contract,
            settings,
            storage: Storage::new(),
            auths: Vec::new(),
            effects: Vec::new(),
        }
    }

    /// Demands that `who` has authorized the invocation.
    pub(crate) fn require_auth(&mut self, who: Address)
        ensures
            final(self).storage == old(self).storage,
            final(self)@ == old(self)@.authorized_by(who),
    {
        self.auths.push(who);
    }

    pub fn put(&mut self, key: DataKey, entry: Entry)
        ensures
            final(self).storage.log@ == old(self).storage.log@.push((key, Some(entry))),
            final(self)@ == old(self)@.put(key, entry),
    {
        self.storage.set(key, entry);
    }

    pub fn erase(&mut self, key: DataKey)
        ensures
            final(self).storage.log@ == old(self).storage.log@.push((key, None)),
            final(self)@ == old(self)@.erase(key),
    {
        self.storage.remove(key);
    }

    pub(crate) fn publish(&mut self, event: Event)
        ensures
            final(self).storage == old(self).storage,
            final(self)@ == old(self)@.with(Effect::Publish(event)),
    {
        self.effects.push(Effect::Publish(event));
    }

    pub(crate) fn call_profile(&mut self, call: ProfileCall)
        ensures
            final(self).storage == old(self).storage,
            final(self)@ == old(self)@.with(Effect::Profile(call)),
    {
        self.effects.push(Effect::Profile(call));
    }

    pub(crate) fn transfer(&mut self, transfer: Transfer)
        ensures
            final(self).storage == old(self).storage,
            final(self)@ == old(self)@.with(Effect::Transfer(transfer)),
    {
        self.effects.push(Effect::Transfer(transfer));
    }
}

} // verus!
