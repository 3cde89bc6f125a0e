//! What moves tokens, what marks operations and what writes entries does just that.
use crate::env::{writes_behind, Effect, Env, EnvView, Settings, Transfer};
use crate::errors::Error;
use crate::escrow::{deposit_no_fee, deposit_with_fee_at, release};
use crate::idempotency::{mark_seen, require_unseen};
use crate::laws::shares::lemma_share_floor;
use crate::storage::{entry_in, flag_in, Entry};
use crate::types::{Address, Bytes32, DataKey};
use vstd::prelude::*;

verus! {

/// A deposit without a fee is one payment to the contract, of the whole amount, which is
/// what it is worth to the escrow.
pub proof fn law_plain_deposit_is_one_payment(
    env: &mut Env,
    token: Address,
    from: Address,
    amount: i128,
    r: i128,
)
    requires
        call_ensures(deposit_no_fee, (env, token, from, amount), r),
    ensures
        r == amount,
        final(env)@ == (EnvView {
            effects: old(env)@.effects.push(
                Effect::Transfer(Transfer { token, from, to: old(env)@.contract, amount }),
            ),
            ..old(env)@
        }),
{
}

/// A deposit with a fee is the same payment, and a second one to the fee account, of as
/// many ten-thousandths of the amount as the rate says, rounded down, if that is anything;
/// the escrow gets the whole amount.
pub proof fn law_fee_comes_on_top(
    env: &mut Env,
    token: Address,
    from: Address,
    amount: i128,
    bps: u32,
    r: i128,
)
    requires
        call_ensures(deposit_with_fee_at, (env, token, from, amount, bps), r),
    ensures
        r == amount,
        ({
            let before = old(env)@.effects;
            let after = final(env)@.effects;
            let n = before.len() as int;
            let paid = Effect::Transfer(Transfer { token, from, to: old(env)@.contract, amount });
            &&& final(env)@ == (EnvView { effects: after, ..old(env)@ })
            &&& amount * bps < 10_000 ==> after == before.push(paid)
            &&& amount * bps >= 10_000 ==> (after[n + 1] matches Effect::Transfer(fee) && {
                &&& after == before.push(paid).push(after[n + 1])
                &&& fee.token == token
                &&& fee.from == from
                &&& fee.to == old(env)@.settings.fee_account
                &&& amount * bps <= i128::MAX ==> 10_000 * fee.amount <= amount * bps < 10_000
                    * fee.amount + 10_000
                &&& amount * bps > i128::MAX ==> 10_000 * fee.amount <= i128::MAX < 10_000
                    * fee.amount + 10_000
            })
        }),
{
    lemma_share_floor(amount as int, bps as int, 10_000);
    assert(bps == 0 ==> amount * bps == 0) by (nonlinear_arith);
    assert(amount <= 0 ==> amount * bps <= 0) by (nonlinear_arith)
        requires
            bps >= 0,
    ;
}

/// A payment out of the escrow is one payment by the contract, of the whole amount.
pub proof fn law_release_is_one_payment(env: &mut Env, token: Address, to: Address, amount: i128)
    requires
        call_ensures(release, (env, token, to, amount), ()),
    ensures
        final(env)@ == (EnvView {
            effects: old(env)@.effects.push(
                Effect::Transfer(Transfer { token, from: old(env)@.contract, to, amount }),
            ),
            ..old(env)@
        }),
{
}

/// An operation that is marked is refused to the caller it is marked for from then on, and
/// to nobody else, and no other operation is refused for it.
pub proof fn law_marked_operation_is_refused(
    env: &mut Env,
    caller: Address,
    op_id: Bytes32,
    other: Address,
    other_op: Bytes32,
    before: Result<(), Error>,
    after: Result<(), Error>,
)
    requires
        call_ensures(mark_seen, (env, caller, op_id), ()),
        call_ensures(require_unseen, (&*old(env), other, other_op), before),
        call_ensures(require_unseen, (&*final(env), other, other_op), after),
    ensures
        before is Err <==> flag_in(old(env)@.store, DataKey::OpSeen(other, other_op)),
        before is Err ==> before == Err::<(), Error>(Error::DuplicateOperation),
        (other, other_op) == (caller, op_id) ==> after == Err::<(), Error>(
            Error::DuplicateOperation,
        ),
        (other, other_op) != (caller, op_id) ==> after == before,
        final(env)@ == (EnvView {
            store: old(env)@.store.insert(DataKey::OpSeen(caller, op_id), Entry::Flag(true)),
            ..old(env)@
        }),
{
}

/// Writing an entry, deleting one, asking someone and asking for something change what
/// they are about, and nothing else.
pub proof fn law_each_change_is_one_change(
    env: EnvView,
    key: DataKey,
    entry: Entry,
    who: Address,
    effect: Effect,
)
    ensures
        env.put(key, entry) == (EnvView { store: env.store.insert(key, entry), ..env }),
        env.erase(key) == (EnvView { store: env.store.remove(key), ..env }),
        env.authorized_by(who) == (EnvView { auths: env.auths.push(who), ..env }),
        env.with(effect) == (EnvView { effects: env.effects.push(effect), ..env }),
        env.with_store(env.store) == env,
        env.with_store(Map::empty()) == (EnvView { store: Map::empty(), ..env }),
{
}

/// What was in the log before an operation is at its beginning after it, and a refused
/// operation adds nothing.
pub proof fn law_log_is_added_to(before: Env, after: Env, accepted: bool)
    ensures
        writes_behind(before, after, accepted) <==> {
            let earlier = before.storage.log@;
            let later = after.storage.log@;
            &&& earlier.is_prefix_of(later)
            &&& !accepted ==> later == earlier
        },
{
    let earlier = before.storage.log@;
    let later = after.storage.log@;
    if writes_behind(before, after, accepted) {
        assert(earlier =~= later.subrange(0, earlier.len() as int));
    }
    if earlier.is_prefix_of(later) {
        assert forall|i: int| 0 <= i < earlier.len() implies #[trigger] later[i] == earlier[i] by {
            assert(earlier[i] == later.subrange(0, earlier.len() as int)[i]);
        }
    }
}

/// An invocation starts with what it is given, without entries, and with nobody and
/// nothing asked.
pub proof fn law_invocation_starts_empty(
    timestamp: u64,
    sequence: u32,
    contract: Address,
    settings: Settings,
    r: Env,
)
    requires
        call_ensures(Env::new, (timestamp, sequence, contract, settings), r),
    ensures
        r@.timestamp == timestamp && r@.sequence == sequence,
        r@.contract == contract && r@.settings == settings,
        r@.store == Map::<DataKey, Entry>::empty(),
        r@.auths.len() == 0 && r@.effects.len() == 0,
        r.storage.log@.len() == 0,
{
}

/// An entry that is written is the last in the log and what is read under its key, and
/// other keys read as before.
pub proof fn law_entry_that_is_written_is_read(
    env: &mut Env,
    key: DataKey,
    entry: Entry,
    other: DataKey,
)
    requires
        call_ensures(Env::put, (env, key, entry), ()),
    ensures
        final(env).storage.log@ == old(env).storage.log@.push((key, Some(entry))),
        entry_in(final(env)@.store, key) == Some(entry),
        other != key ==> entry_in(final(env)@.store, other) == entry_in(old(env)@.store, other),
        final(env)@ == (EnvView { store: final(env)@.store, ..old(env)@ }),
{
}

/// An entry that is deleted is not read any more, and other keys read as before.
pub proof fn law_entry_that_is_deleted_is_gone(env: &mut Env, key: DataKey, other: DataKey)
    requires
        call_ensures(Env::erase, (env, key), ()),
    ensures
        final(env).storage.log@ == old(env).storage.log@.push((key, None::<Entry>)),
        entry_in(final(env)@.store, key) is None,
        other != key ==> entry_in(final(env)@.store, other) == entry_in(old(env)@.store, other),
        final(env)@ == (EnvView { store: final(env)@.store, ..old(env)@ }),
{
}

} // verus!
