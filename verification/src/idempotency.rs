//! Operations are carried out once, and events are numbered once.
use crate::env::{writes_behind, Env, EnvView};
use crate::errors::Error;
use crate::host::{sha256, sha256_of, Text};
use crate::storage::{flag_in, number_in, Entry, Store};
use crate::types::{Address, Bytes32, DataKey};
use vstd::prelude::*;

verus! {

/// The number of the first event. Zero numbers no event.
pub const FIRST_EVENT_ID: u64 = 1;

/// The parts of an operation that other contracts carry out.
pub const BOOTSTRAP: u8 = 1;

pub const BUMP_REP: u8 = 2;

pub const REGISTER_EARNINGS: u8 = 3;

/// The last `n` bytes of a number, the highest first.
pub open spec fn big_endian(number: int, n: int) -> Seq<u8>
    decreases n,
{
    if n <= 0 {
        Seq::empty()
    } else {
        big_endian(number / 256, n - 1).push((number % 256) as u8)
    }
}

/// What the identifier of a part of an operation is the hash of: the 32 bytes of the
/// operation's identifier and the number of the part.
pub open spec fn child_input(op_id: Bytes32, tag: u8) -> Seq<u8> {
    (big_endian(op_id.high as int, 16) + big_endian(op_id.low as int, 16)).push(tag)
}

/// The identifier of a part of an operation.
pub open spec fn child_of(op_id: Bytes32, tag: u8) -> Bytes32 {
    let hash = sha256_of(child_input(op_id, tag));
    Bytes32 { high: hash.0, low: hash.1 }
}

/// Whether `caller` has already had the operation `op_id` carried out.
pub open spec fn seen_in(s: Store, caller: Address, op_id: Bytes32) -> bool {
    flag_in(s, DataKey::OpSeen(caller, op_id))
}

/// The number that the next event gets.
pub open spec fn next_id_in(s: Store) -> u64 {
    match number_in(s, DataKey::NextEventId) {
        Some(id) => id,
        None => FIRST_EVENT_ID,
    }
}

/// The environment once `caller`'s operation `op_id` is recorded as done.
pub open spec fn marked_seen(env: EnvView, caller: Address, op_id: Bytes32) -> EnvView {
    env.put(DataKey::OpSeen(caller, op_id), Entry::Flag(true))
}

fn push_big_endian(bytes: &mut Vec<u8>, number: u128, n: usize)
    ensures
        final(bytes)@ == old(bytes)@ + big_endian(number as int, n as int),
    decreases n,
{
    if n > 0 {
        push_big_endian(bytes, number / 256, n - 1);
        bytes.push((number % 256) as u8);
        assert(bytes@ =~= old(bytes)@ + big_endian(number as int, n as int));
    } else {
        assert(bytes@ =~= old(bytes)@ + big_endian(number as int, n as int));
    }
}

/// Derives the identifier under which another contract gets a part of an operation, so that
/// the part is carried out once if the operation is. `host` is any text of the host.
pub fn derive_child(host: &Text, op_id: Bytes32, tag: u8) -> (r: Bytes32)
    ensures
        r == child_of(op_id, tag),
{
    let mut input: Vec<u8> = Vec::new();
    push_big_endian(&mut input, op_id.high, 16);
    push_big_endian(&mut input, op_id.low, 16);
    input.push(tag);
    proof {
        lemma_big_endian_len(op_id.high as int, 16);
        lemma_big_endian_len(op_id.low as int, 16);
        assert(input@ =~= child_input(op_id, tag));
    }
    let hash: (u128, u128) = sha256(host, &input);
    Bytes32 { high: hash.0, low: hash.1 }
}

pub proof fn lemma_big_endian_len(number: int, n: int)
    requires
        0 <= n,
    ensures
        big_endian(number, n).len() == n,
    decreases n,
{
    if n > 0 {
        lemma_big_endian_len(number / 256, n - 1);
    }
}

pub fn require_unseen(env: &Env, caller: Address, op_id: Bytes32) -> (r: Result<(), Error>)
    ensures
        r == if seen_in(env@.store, caller, op_id) {
            Err::<(), Error>(Error::DuplicateOperation)
        } else {
            Ok(())
        },
{
    if env.storage.flag(DataKey::OpSeen(caller, op_id)) {
        Err(Error::DuplicateOperation)
    } else {
        Ok(())
    }
}

pub fn mark_seen(env: &mut Env, caller: Address, op_id: Bytes32)
    ensures
        final(env)@ == marked_seen(old(env)@, caller, op_id),
        writes_behind(*old(env), *final(env), true),
{
    env.put(DataKey::OpSeen(caller, op_id), Entry::Flag(true));
}

/// The number that the next event gets.
pub fn upcoming_event_id(env: &Env) -> (r: u64)
    ensures
        r == next_id_in(env@.store),
{
    match env.storage.number(DataKey::NextEventId) {
        Some(id) => id,
        None => FIRST_EVENT_ID,
    }
}

/// Hands out the next event number; the last number of the range is never handed out.
pub fn next_event_id(env: &mut Env) -> (r: Result<u64, Error>)
    ensures
        next_id_in(old(env)@.store) == u64::MAX ==> r == Err::<u64, Error>(Error::EventIdExhausted)
            && final(env)@ == old(env)@,
        next_id_in(old(env)@.store) < u64::MAX ==> r == Ok::<u64, Error>(
            next_id_in(old(env)@.store),
        ) && final(env)@ == old(env)@.put(
            DataKey::NextEventId,
            Entry::Number((next_id_in(old(env)@.store) + 1) as u64),
        ),
        writes_behind(*old(env), *final(env), r is Ok),
{
    let id: u64 = upcoming_event_id(env);
    if id == u64::MAX {
        return Err(Error::EventIdExhausted);
    }
    env.put(DataKey::NextEventId, Entry::Number(id + 1));
    Ok(id)
}

} // verus!
