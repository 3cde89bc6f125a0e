//! What an operation has written is what has to be written to the ledger.
use crate::storage::{continues, entry_in, replayed, Entry, Store};
use crate::types::DataKey;
use vstd::prelude::*;

verus! {

/// The entries of a ledger once writes have been carried out on it, in order.
pub open spec fn written_to(ledger: Store, writes: Seq<(DataKey, Option<Entry>)>) -> Store
    decreases writes.len(),
{
    if writes.len() == 0 {
        ledger
    } else {
        let before = written_to(ledger, writes.drop_last());
        match writes.last().1 {
            Some(entry) => before.insert(writes.last().0, entry),
            None => before.remove(writes.last().0),
        }
    }
}

/// Whether one of the writes is to `key`.
pub open spec fn writes_to(writes: Seq<(DataKey, Option<Entry>)>, key: DataKey) -> bool {
    exists|i: int| 0 <= i < writes.len() && #[trigger] writes[i].0 == key
}

/// What stands in a log behind an earlier one.
pub open spec fn behind(
    later: Seq<(DataKey, Option<Entry>)>,
    earlier: Seq<(DataKey, Option<Entry>)>,
) -> Seq<(DataKey, Option<Entry>)> {
    later.subrange(earlier.len() as int, later.len() as int)
}

/// Carrying out on any ledger what stands in a log behind an earlier one gives every key
/// that it writes to the entry that the whole log gives it, and leaves every other key as
/// it was. What the whole log gives those is what the earlier one gives.
pub proof fn law_new_writes_suffice(
    ledger: Store,
    earlier: Seq<(DataKey, Option<Entry>)>,
    later: Seq<(DataKey, Option<Entry>)>,
    key: DataKey,
)
    requires
        continues(later, earlier),
    ensures
        writes_to(behind(later, earlier), key) ==> entry_in(
            written_to(ledger, behind(later, earlier)),
            key,
        ) == entry_in(replayed(later), key),
        !writes_to(behind(later, earlier), key) ==> entry_in(
            written_to(ledger, behind(later, earlier)),
            key,
        ) == entry_in(ledger, key) && entry_in(replayed(later), key) == entry_in(
            replayed(earlier),
            key,
        ),
    decreases later.len(),
{
    let new = behind(later, earlier);
    if later.len() == earlier.len() {
        assert(later =~= earlier);
    } else {
        let shorter = later.drop_last();
        assert forall|i: int| 0 <= i < earlier.len() implies #[trigger] shorter[i]
            == earlier[i] by {
            assert(later[i] == earlier[i]);
        }
        law_new_writes_suffice(ledger, earlier, shorter, key);
        let before = behind(shorter, earlier);
        assert(new.drop_last() =~= before);
        assert(new.last() == later.last());
        if writes_to(before, key) {
            let i = choose|i: int| 0 <= i < before.len() && #[trigger] before[i].0 == key;
            assert(new[i].0 == key);
        }
        if later.last().0 == key {
            assert(new[new.len() - 1].0 == key);
        } else if writes_to(new, key) {
            let i = choose|i: int| 0 <= i < new.len() && #[trigger] new[i].0 == key;
            assert(before[i].0 == key);
        }
    }
}

} // verus!
