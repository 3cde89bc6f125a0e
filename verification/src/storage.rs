//! The contract's ledger entries.
use crate::types::{
    Address, CancellationState, DataKey, EventRecord, PendingManager, PrizeAward, Submission,
    Winner,
};
use vstd::prelude::*;

verus! {

/// What a ledger entry holds.
#[derive(Debug, PartialEq)]
pub enum Entry {
    Flag(bool),
    Count(u32),
    Number(u64),
    Amount(i128),
    Address(Address),
    Event(EventRecord),
    Submission(Submission),
    Winner(Winner),
    Award(PrizeAward),
    Cancellation(CancellationState),
    PendingManager(PendingManager),
}

/// The ledger entries by key.
pub type Store = Map<DataKey, Entry>;

/// The entries that a log of writes leaves behind, the later write winning; a write
/// of nothing deletes the entry.
pub open spec fn replayed(log: Seq<(DataKey, Option<Entry>)>) -> Store
    decreases log.len(),
{
    if log.len() == 0 {
        Map::empty()
    } else {
        let before = replayed(log.drop_last());
        match log.last().1 {
            Some(entry) => before.insert(log.last().0, entry),
            None => before.remove(log.last().0),
        }
    }
}

/// Whether a log begins with all of an earlier one.
pub open spec fn continues(
    later: Seq<(DataKey, Option<Entry>)>,
    earlier: Seq<(DataKey, Option<Entry>)>,
) -> bool {
    &&& earlier.len() <= later.len()
    &&& forall|i: int| 0 <= i < earlier.len() ==> #[trigger] later[i] == earlier[i]
}

/// The ledger entries as an invocation reads and writes them: the entries that it was
/// given, followed by its own writes, in order.
pub struct Storage {
    pub log: Vec<(DataKey, Option<Entry>)>,
}

impl View for Storage {
    type V = Store;

    open spec fn view(&self) -> Store {
        replayed(self.log@)
    }
}

/// The entry under a key.
pub open spec fn entry_in(s: Store, key: DataKey) -> Option<Entry> {
    if s.contains_key(key) {
        Some(s[key])
    } else {
        None
    }
}

pub open spec fn flag_in(s: Store, key: DataKey) -> bool {
    entry_in(s, key) == Some(Entry::Flag(true))
}

/// A count starts at zero.
pub open spec fn count_in(s: Store, key: DataKey) -> u32 {
    match entry_in(s, key) {
        Some(Entry::Count(n)) => n,
        _ => 0,
    }
}

pub open spec fn number_in(s: Store, key: DataKey) -> Option<u64> {
    match entry_in(s, key) {
        Some(Entry::Number(n)) => Some(n),
        _ => None,
    }
}

pub open spec fn amount_in(s: Store, key: DataKey) -> Option<i128> {
    match entry_in(s, key) {
        Some(Entry::Amount(a)) => Some(a),
        _ => None,
    }
}

pub open spec fn address_in(s: Store, key: DataKey) -> Option<Address> {
    match entry_in(s, key) {
        Some(Entry::Address(a)) => Some(a),
        _ => None,
    }
}

pub open spec fn event_in(s: Store, id: u64) -> Option<EventRecord> {
    match entry_in(s, DataKey::Event(id)) {
        Some(Entry::Event(e)) => Some(e),
        _ => None,
    }
}

pub open spec fn pending_manager_in(s: Store, id: u64) -> Option<PendingManager> {
    match entry_in(s, DataKey::PendingManager(id)) {
        Some(Entry::PendingManager(p)) => Some(p),
        _ => None,
    }
}

pub open spec fn submission_in(s: Store, id: u64, applicant: Address) -> Option<Submission> {
    match entry_in(s, DataKey::EventSubmission(id, applicant)) {
        Some(Entry::Submission(x)) => Some(x),
        _ => None,
    }
}

pub open spec fn winner_in(s: Store, id: u64, idx: u32) -> Option<Winner> {
    match entry_in(s, DataKey::EventWinnerAt(id, idx)) {
        Some(Entry::Winner(w)) => Some(w),
        _ => None,
    }
}

pub open spec fn award_in(s: Store, id: u64, position: u32) -> Option<PrizeAward> {
    match entry_in(s, DataKey::EventPrizeAward(id, position)) {
        Some(Entry::Award(a)) => Some(a),
        _ => None,
    }
}

pub open spec fn cancellation_in(s: Store, id: u64) -> Option<CancellationState> {
    match entry_in(s, DataKey::CancellationState(id)) {
        Some(Entry::Cancellation(c)) => Some(c),
        _ => None,
    }
}

pub open spec fn applicant_in(s: Store, id: u64, idx: u32) -> Option<Address> {
    address_in(s, DataKey::EventApplicantAt(id, idx))
}

pub open spec fn contributor_in(s: Store, id: u64, idx: u32) -> Option<Address> {
    address_in(s, DataKey::ContributorAt(id, idx))
}

pub open spec fn applicant_count_in(s: Store, id: u64) -> u32 {
    count_in(s, DataKey::EventApplicantCount(id))
}

pub open spec fn contributor_count_in(s: Store, id: u64) -> u32 {
    count_in(s, DataKey::ContributorCount(id))
}

pub open spec fn winner_count_in(s: Store, id: u64) -> u32 {
    count_in(s, DataKey::EventWinnerCount(id))
}

pub open spec fn submission_count_in(s: Store, id: u64) -> u32 {
    count_in(s, DataKey::EventSubmissionCount(id))
}

pub open spec fn unclaimed_in(s: Store, id: u64) -> u32 {
    count_in(s, DataKey::EventUnclaimedPrizes(id))
}

/// What a contributor has paid in; nothing at first.
pub open spec fn contribution_in(s: Store, id: u64, contributor: Address) -> i128 {
    match amount_in(s, DataKey::ContributorAmount(id, contributor)) {
        Some(a) => a,
        None => 0,
    }
}

pub open spec fn non_owner_total_in(s: Store, id: u64) -> Option<i128> {
    amount_in(s, DataKey::NonOwnerContributionTotal(id))
}

pub open spec fn base_escrow_in(s: Store, id: u64) -> Option<i128> {
    amount_in(s, DataKey::EventPrizeBaseEscrow(id))
}

pub open spec fn claim_expiry_in(s: Store, id: u64) -> Option<u64> {
    number_in(s, DataKey::EventPrizeClaimExpiry(id))
}

impl Storage {
    pub fn new() -> (r: Storage)
        ensures
            r.log@.len() == 0,
            r@ == Map::<DataKey, Entry>::empty(),
    {
        Storage { log: Vec::new() }
    }

    /// The entry under a key.
    pub fn get(&self, key: DataKey) -> (r: Option<&Entry>)
        ensures
            match r {
                Some(entry) => entry_in(self@, key) == Some(*entry),
                None => entry_in(self@, key) is None,
            },
    {
        let mut i: usize = self.log.len();
        assert(self.log@.take(i as int) =~= self.log@);
        while i > 0
            invariant
                i <= self.log.len(),
                entry_in(self@, key) == entry_in(replayed(self.log@.take(i as int)), key),
            decreases i,
        {
            i = i - 1;
            assert(self.log@.take(i + 1).drop_last() =~= self.log@.take(i as int));
            if self.log[i].0 == key {
                return self.log[i].1.as_ref();
            }
        }
        None
    }

    pub fn set(&mut self, key: DataKey, entry: Entry)
        ensures
            final(self).log@ == old(self).log@.push((key, Some(entry))),
            final(self)@ == old(self)@.insert(key, entry),
    {
        self.log.push((key, Some(entry)));
        assert(self.log@.drop_last() =~= old(self).log@);
    }

    pub fn remove(&mut self, key: DataKey)
        ensures
            final(self).log@ == old(self).log@.push((key, None)),
            final(self)@ == old(self)@.remove(key),
    {
        self.log.push((key, None));
        assert(self.log@.drop_last() =~= old(self).log@);
    }

    pub fn flag(&self, key: DataKey) -> (r: bool)
        ensures
            r == flag_in(self@, key),
    {
        match self.get(key) {
            Some(Entry::Flag(set)) => *set,
            _ => false,
        }
    }

    pub fn count(&self, key: DataKey) -> (r: u32)
        ensures
            r == count_in(self@, key),
    {
        match self.get(key) {
            Some(Entry::Count(n)) => *n,
            _ => 0,
        }
    }

    pub fn number(&self, key: DataKey) -> (r: Option<u64>)
        ensures
            r == number_in(self@, key),
    {
        match self.get(key) {
            Some(Entry::Number(n)) => Some(*n),
            _ => None,
        }
    }

    pub fn amount(&self, key: DataKey) -> (r: Option<i128>)
        ensures
            r == amount_in(self@, key),
    {
        match self.get(key) {
            Some(Entry::Amount(a)) => Some(*a),
            _ => None,
        }
    }

    pub fn address(&self, key: DataKey) -> (r: Option<Address>)
        ensures
            r == address_in(self@, key),
    {
        match self.get(key) {
            Some(Entry::Address(a)) => Some(*a),
            _ => None,
        }
    }

    pub fn event(&self, id: u64) -> (r: Option<EventRecord>)
        ensures
            r == event_in(self@, id),
    {
        match self.get(DataKey::Event(id)) {
            Some(Entry::Event(e)) => Some(e.clone()),
            _ => None,
        }
    }

    pub fn pending_manager(&self, id: u64) -> (r: Option<PendingManager>)
        ensures
            r == pending_manager_in(self@, id),
    {
        match self.get(DataKey::PendingManager(id)) {
            Some(Entry::PendingManager(p)) => Some(*p),
            _ => None,
        }
    }

    pub fn submission(&self, id: u64, applicant: Address) -> (r: Option<Submission>)
        ensures
            r == submission_in(self@, id, applicant),
    {
        match self.get(DataKey::EventSubmission(id, applicant)) {
            Some(Entry::Submission(s)) => Some(s.clone()),
            _ => None,
        }
    }

    pub fn winner(&self, id: u64, idx: u32) -> (r: Option<Winner>)
        ensures
            r == winner_in(self@, id, idx),
    {
        match self.get(DataKey::EventWinnerAt(id, idx)) {
            Some(Entry::Winner(w)) => Some(*w),
            _ => None,
        }
    }

    pub fn award(&self, id: u64, position: u32) -> (r: Option<PrizeAward>)
        ensures
            r == award_in(self@, id, position),
    {
        match self.get(DataKey::EventPrizeAward(id, position)) {
            Some(Entry::Award(a)) => Some(*a),
            _ => None,
        }
    }

    pub fn cancellation(&self, id: u64) -> (r: Option<CancellationState>)
        ensures
            r == cancellation_in(self@, id),
    {
        match self.get(DataKey::CancellationState(id)) {
            Some(Entry::Cancellation(c)) => Some(*c),
            _ => None,
        }
    }

    pub fn contribution(&self, id: u64, contributor: Address) -> (r: i128)
        ensures
            r == contribution_in(self@, id, contributor),
    {
        match self.amount(DataKey::ContributorAmount(id, contributor)) {
            Some(a) => a,
            None => 0,
        }
    }
}

} // verus!
