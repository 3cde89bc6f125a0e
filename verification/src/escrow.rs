//! Moving tokens into and out of the contract's escrow.
use crate::amounts::{share, share_of};
use crate::env::{Effect, Env, EnvView, Settings, Transfer};
use crate::types::Address;
use vstd::prelude::*;

verus! {

/// The whole, in basis points.
pub const FULL_BPS: i128 = 10_000;

/// The fee rate of an event: its own, or else the platform's.
pub open spec fn fee_rate(settings: Settings, fee_bps_override: Option<u32>) -> u32 {
    match fee_bps_override {
        Some(bps) => bps,
        None => settings.fee_bps,
    }
}

/// The fee on a deposit, on top of the deposit itself.
pub open spec fn fee_on(amount: i128, bps: u32) -> i128 {
    share(amount as int, bps as int, FULL_BPS as int)
}

/// The environment once `amount` has gone from `from` to the contract.
pub open spec fn taken_in(env: EnvView, token: Address, from: Address, amount: i128) -> EnvView {
    env.with(Effect::Transfer(Transfer { token, from, to: env.contract, amount }))
}

/// The environment once `amount` has gone from `from` to the contract, and the fee on
/// it, if any, from `from` to the fee account.
pub open spec fn deposited(
    env: EnvView,
    token: Address,
    from: Address,
    amount: i128,
    bps: u32,
) -> EnvView {
    let fee = fee_on(amount, bps);
    if fee > 0 {
        taken_in(env, token, from, amount).with(
            Effect::Transfer(Transfer { token, from, to: env.settings.fee_account, amount: fee }),
        )
    } else {
        taken_in(env, token, from, amount)
    }
}

/// The environment once `amount` has gone from the contract to `to`.
pub open spec fn released(env: EnvView, token: Address, to: Address, amount: i128) -> EnvView {
    env.with(Effect::Transfer(Transfer { token, from: env.contract, to, amount }))
}

pub fn effective_fee_bps(env: &Env, fee_bps_override: Option<u32>) -> (r: u32)
    ensures
        r == fee_rate(env@.settings, fee_bps_override),
{
    match fee_bps_override {
        Some(bps) => bps,
        None => env.settings.fee_bps,
    }
}

/// Takes a deposit without a fee. Returns what is credited to the escrow.
pub fn deposit_no_fee(env: &mut Env, token: Address, from: Address, amount: i128) -> (r: i128)
    ensures
        r == amount,
        final(env)@ == taken_in(old(env)@, token, from, amount),
        final(env).storage == old(env).storage,
{
    let to: Address = env.contract;
    env.transfer(Transfer { token, from, to, amount });
    amount
}

/// Takes a deposit, and the fee on it on top. Returns what is credited to the escrow.
pub fn deposit_with_fee_at(
    env: &mut Env,
    token: Address,
    from: Address,
    amount: i128,
    bps: u32,
) -> (r: i128)
    ensures
        r == amount,
        final(env)@ == deposited(old(env)@, token, from, amount, bps),
        final(env).storage == old(env).storage,
{
    let credited: i128 = deposit_no_fee(env, token, from, amount);
    let fee: i128 = share_of(amount, bps as i128, FULL_BPS);
    if fee > 0 {
        let to: Address = env.settings.fee_account;
        env.transfer(Transfer { token, from, to, amount: fee });
    }
    credited
}

/// Pays out of the escrow.
pub fn release(env: &mut Env, token: Address, to: Address, amount: i128)
    ensures
        final(env)@ == released(old(env)@, token, to, amount),
        final(env).storage == old(env).storage,
{
    let from: Address = env.contract;
    env.transfer(Transfer { token, from, to, amount });
}

} // verus!
