//! Event numbers are handed out once.
use crate::env::EnvView;
use crate::errors::Error;
use crate::event_ops::create::{create_refusal, event_created, record_for};
use crate::idempotency::next_id_in;
use crate::laws::frame::stays_within;
use crate::storage::{entry_in, event_in, Store};
use crate::types::{event_of, Address, Bytes32, CreateEventParams, DataKey};
use vstd::prelude::*;

verus! {

/// Whether nothing is on file under the numbers that have not been handed out.
pub open spec fn numbers_are_fresh(s: Store) -> bool {
    forall|key: DataKey| #[trigger]
        event_of(key) matches Some(id) && id >= next_id_in(s) ==> entry_in(s, key) is None
}

/// A new event gets a number that no event has, and is read back under it; the numbers
/// left are still fresh, and higher.
pub proof fn law_new_event_gets_fresh_number(
    env: EnvView,
    params: CreateEventParams,
    op_id: Bytes32,
    pillar_verdict: Result<(), Error>,
)
    requires
        numbers_are_fresh(env.store),
        create_refusal(env, params, op_id, pillar_verdict) is None,
    ensures
        ({
            let id = next_id_in(env.store);
            let after = event_created(env, params, op_id).store;
            &&& forall|key: DataKey| #[trigger]
                event_of(key) == Some(id) ==> entry_in(env.store, key) is None
            &&& event_in(after, id) == Some(record_for(params, id, env.timestamp))
            &&& next_id_in(after) == id + 1
            &&& numbers_are_fresh(after)
        }),
{
    let id = next_id_in(env.store);
    let after = event_created(env, params, op_id).store;
    assert forall|key: DataKey| #[trigger] event_of(key) matches Some(n) && n >= next_id_in(
        after,
    ) implies entry_in(after, key) is None by {
        assert(entry_in(env.store, key) is None);
        assert(entry_in(after, key) == entry_in(env.store, key));
    }
}

/// What is done within an event that exists leaves the numbers fresh.
pub proof fn law_numbers_stay_fresh(
    before: Store,
    after: Store,
    id: u64,
    caller: Address,
    op_id: Bytes32,
)
    requires
        stays_within(before, after, id, caller, op_id),
        numbers_are_fresh(before),
        event_in(before, id) is Some,
    ensures
        next_id_in(after) == next_id_in(before),
        numbers_are_fresh(after),
{
    assert(event_of(DataKey::Event(id)) == Some(id));
    assert(id < next_id_in(before));
    assert(entry_in(after, DataKey::NextEventId) == entry_in(before, DataKey::NextEventId));
    assert forall|key: DataKey| #[trigger] event_of(key) matches Some(n) && n >= next_id_in(
        after,
    ) implies entry_in(after, key) is None by {
        assert(entry_in(after, key) == entry_in(before, key));
    }
}

} // verus!
