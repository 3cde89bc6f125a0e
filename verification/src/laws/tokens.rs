//! The escrow on file is backed by tokens.
use crate::amounts::saturated;
use crate::env::{Effect, EnvView, Event, ProfileCall, Reason, Transfer};
use crate::errors::Error;
use crate::escrow::{deposited, fee_on, fee_rate, taken_in};
use crate::event_ops::cancel::{
    cancel_started, opening_state, start_cancel_denial, start_cancel_refusal,
};
use crate::event_ops::create::{create_refusal, event_created, record_for};
use crate::event_ops::funds::{add_funds_denial, add_funds_refusal, funds_added};
use crate::event_ops::manager::proposal;
use crate::event_ops::winners::{
    anchor_in, claim_denial, claim_refusal, prize_claimed, winners_recorded,
};
use crate::idempotency::{child_of, next_id_in, BOOTSTRAP, BUMP_REP, REGISTER_EARNINGS};
use crate::storage::{award_in, event_in};
use crate::types::{
    Address, Bytes32, CancellationBranch, CreateEventParams, EventStatus, Pillar, WinnerSpec,
};
use vstd::prelude::*;

verus! {

/// What the effects move out of the hands of `holder`, in a token.
pub open spec fn paid_out(effects: Seq<Effect>, holder: Address, token: Address) -> int
    decreases effects.len(),
{
    if effects.len() == 0 {
        0
    } else {
        paid_out(effects.drop_last(), holder, token) + match effects.last() {
            Effect::Transfer(t) => if t.from == holder && t.token == token {
                t.amount as int
            } else {
                0
            },
            _ => 0,
        }
    }
}

/// What the effects move into the hands of `holder`, in a token.
pub open spec fn paid_in(effects: Seq<Effect>, holder: Address, token: Address) -> int
    decreases effects.len(),
{
    if effects.len() == 0 {
        0
    } else {
        paid_in(effects.drop_last(), holder, token) + match effects.last() {
            Effect::Transfer(t) => if t.to == holder && t.token == token {
                t.amount as int
            } else {
                0
            },
            _ => 0,
        }
    }
}

/// What the effects of an environment have added to the holdings of `holder`.
pub open spec fn gained(env: EnvView, holder: Address, token: Address) -> int {
    paid_in(env.effects, holder, token) - paid_out(env.effects, holder, token)
}

/// One more effect adds what it moves.
pub proof fn lemma_flow_of_one_more(env: EnvView, effect: Effect, holder: Address, token: Address)
    ensures
        paid_out(env.with(effect).effects, holder, token) == paid_out(env.effects, holder, token)
            + match effect {
            Effect::Transfer(t) => if t.from == holder && t.token == token {
                t.amount as int
            } else {
                0
            },
            _ => 0,
        },
        paid_in(env.with(effect).effects, holder, token) == paid_in(env.effects, holder, token)
            + match effect {
            Effect::Transfer(t) => if t.to == holder && t.token == token {
                t.amount as int
            } else {
                0
            },
            _ => 0,
        },
{
    assert(env.with(effect).effects.drop_last() =~= env.effects);
}

/// A deposit adds its amount, and not the fee, to what the contract holds, and takes both
/// from the payer; the fee account gets the fee.
proof fn lemma_flow_of_deposit(
    env: EnvView,
    token: Address,
    from: Address,
    amount: i128,
    bps: u32,
)
    requires
        amount > 0,
        from != env.contract,
        env.settings.fee_account != env.contract,
    ensures
        gained(deposited(env, token, from, amount, bps), env.contract, token) == gained(
            env,
            env.contract,
            token,
        ) + amount,
        env.settings.fee_account != from ==> gained(
            deposited(env, token, from, amount, bps),
            from,
            token,
        ) == gained(env, from, token) - amount - fee_on(amount, bps),
        env.settings.fee_account != from ==> gained(
            deposited(env, token, from, amount, bps),
            env.settings.fee_account,
            token,
        ) == gained(env, env.settings.fee_account, token) + fee_on(amount, bps),
        gained(taken_in(env, token, from, amount), env.contract, token) == gained(
            env,
            env.contract,
            token,
        ) + amount,
        gained(taken_in(env, token, from, amount), from, token) == gained(env, from, token)
            - amount,
        env.settings.fee_account != from ==> gained(
            taken_in(env, token, from, amount),
            env.settings.fee_account,
            token,
        ) == gained(env, env.settings.fee_account, token),
{
    let first = Effect::Transfer(Transfer { token, from, to: env.contract, amount });
    let account = env.settings.fee_account;
    let fee = fee_on(amount, bps);
    let second = Effect::Transfer(Transfer { token, from, to: account, amount: fee });
    lemma_flow_of_one_more(env, first, env.contract, token);
    lemma_flow_of_one_more(env, first, from, token);
    lemma_flow_of_one_more(env, first, account, token);
    lemma_flow_of_one_more(env.with(first), second, env.contract, token);
    lemma_flow_of_one_more(env.with(first), second, from, token);
    lemma_flow_of_one_more(env.with(first), second, account, token);
    assert(fee >= 0) by {
        lemma_fee_is_no_refund(amount, bps);
    }
}

/// A fee is never negative.
proof fn lemma_fee_is_no_refund(amount: i128, bps: u32)
    ensures
        0 <= fee_on(amount, bps),
{
    if amount > 0 && bps > 0 {
        assert(amount * bps > 0) by (nonlinear_arith)
            requires
                amount > 0,
                bps > 0,
        ;
    }
}

/// Creating an event adds to the contract's holdings exactly the escrow that it puts on
/// file, and takes from the owner that and the fee, which the fee account gets.
pub proof fn law_creation_is_backed(
    env: EnvView,
    params: CreateEventParams,
    op_id: Bytes32,
    pillar_verdict: Result<(), Error>,
)
    requires
        create_refusal(env, params, op_id, pillar_verdict) is None,
        params.owner != env.contract,
        env.settings.fee_account != env.contract,
    ensures
        ({
            let after = event_created(env, params, op_id);
            let record = event_in(after.store, next_id_in(env.store)).unwrap();
            let fee = if params.pillar == Pillar::Crowdfunding {
                0
            } else {
                fee_on(params.total_budget, fee_rate(env.settings, params.fee_bps_override))
            };
            &&& record == record_for(params, next_id_in(env.store), env.timestamp)
            &&& gained(after, env.contract, params.token) == gained(
                env,
                env.contract,
                params.token,
            ) + record.remaining_escrow
            &&& env.settings.fee_account != params.owner ==> gained(
                after,
                params.owner,
                params.token,
            ) == gained(env, params.owner, params.token) - record.remaining_escrow - fee
            &&& env.settings.fee_account != params.owner ==> gained(
                after,
                env.settings.fee_account,
                params.token,
            ) == gained(env, env.settings.fee_account, params.token) + fee
        }),
{
    let id = next_id_in(env.store);
    let asked = env.authorized_by(params.owner);
    let bps = fee_rate(env.settings, params.fee_bps_override);
    lemma_flow_of_deposit(asked, params.token, params.owner, params.total_budget, bps);
    let paid = if params.pillar == Pillar::Crowdfunding {
        asked
    } else {
        deposited(asked, params.token, params.owner, params.total_budget, bps)
    };
    let announced = Effect::Publish(
        Event::EventCreated {
            id,
            pillar: params.pillar,
            owner: params.owner,
            token: params.token,
            total_budget: params.total_budget,
            content_uri: params.content_uri,
            title: params.title,
        },
    );
    let holders = seq![env.contract, params.owner, env.settings.fee_account];
    assert forall|i: int| 0 <= i < 3 implies gained(
        event_created(env, params, op_id),
        #[trigger] holders[i],
        params.token,
    ) == gained(paid, holders[i], params.token) by {
        lemma_flow_of_one_more(paid, announced, holders[i], params.token);
        if let Some(manager) = params.manager {
            let told = paid.with(announced);
            let pending = proposal(manager, env.sequence);
            lemma_flow_of_one_more(
                told,
                Effect::Publish(
                    Event::ManagerProposed {
                        event_id: id,
                        target: manager,
                        expires_at_ledger: pending.expires_at_ledger,
                    },
                ),
                holders[i],
                params.token,
            );
        }
    }
    assert(holders[0] == env.contract && holders[1] == params.owner && holders[2]
        == env.settings.fee_account);
}

/// A contribution adds to the contract's holdings exactly what it adds to the escrow on
/// file, and takes from the sender that and the fee, which the fee account gets.
pub proof fn law_contribution_is_backed(
    env: EnvView,
    id: u64,
    from: Address,
    amount: i128,
    op_id: Bytes32,
)
    requires
        add_funds_denial(env, id, amount) is None,
        add_funds_refusal(env, id, from, op_id) is None,
        event_in(env.store, id).unwrap().remaining_escrow + amount <= i128::MAX,
        from != env.contract,
        env.settings.fee_account != env.contract,
    ensures
        ({
            let event = event_in(env.store, id).unwrap();
            let after = funds_added(env, id, from, amount, op_id);
            let fee = if event.pillar == Pillar::Crowdfunding {
                0
            } else {
                fee_on(amount, fee_rate(env.settings, event.fee_bps_override))
            };
            &&& event_in(after.store, id).unwrap().remaining_escrow == event.remaining_escrow
                + amount
            &&& gained(after, env.contract, event.token) == gained(env, env.contract, event.token)
                + amount
            &&& env.settings.fee_account != from ==> gained(after, from, event.token) == gained(
                env,
                from,
                event.token,
            ) - amount - fee
            &&& env.settings.fee_account != from ==> gained(
                after,
                env.settings.fee_account,
                event.token,
            ) == gained(env, env.settings.fee_account, event.token) + fee
        }),
{
    let event = event_in(env.store, id).unwrap();
    let asked = env.authorized_by(from);
    let bps = fee_rate(env.settings, event.fee_bps_override);
    lemma_flow_of_deposit(asked, event.token, from, amount, bps);
    let paid = if event.pillar == Pillar::Crowdfunding {
        taken_in(asked, event.token, from, amount)
    } else {
        deposited(asked, event.token, from, amount, bps)
    };
    let told = Effect::Publish(
        Event::FundsAdded {
            event_id: id,
            contributor: from,
            amount,
            new_remaining: saturated(event.remaining_escrow + amount),
        },
    );
    lemma_flow_of_one_more(paid, told, env.contract, event.token);
    lemma_flow_of_one_more(paid, told, from, event.token);
    lemma_flow_of_one_more(paid, told, env.settings.fee_account, event.token);
}

/// Claiming a prize takes from the contract's holdings exactly what it takes from the
/// escrow on file, and the winner gets all of it.
pub proof fn law_claim_is_backed(env: EnvView, id: u64, position: u32, op_id: Bytes32)
    requires
        claim_denial(env, id, position) is None,
        claim_refusal(env, id, position, op_id) is None,
        award_in(env.store, id, position).unwrap().recipient != env.contract,
    ensures
        ({
            let event = event_in(env.store, id).unwrap();
            let winner = award_in(env.store, id, position).unwrap().recipient;
            let amount = anchor_in(env.store, id, position).unwrap().amount;
            let after = prize_claimed(env, id, position, op_id);
            let left = event_in(after.store, id).unwrap();
            &&& left.remaining_escrow == event.remaining_escrow - amount
            &&& left.status == EventStatus::Completed <==> left.remaining_escrow == 0
            &&& gained(after, env.contract, event.token) == gained(env, env.contract, event.token)
                - amount
            &&& gained(after, winner, event.token) == gained(env, winner, event.token) + amount
        }),
{
    let event = event_in(env.store, id).unwrap();
    let award = award_in(env.store, id, position).unwrap();
    let user = award.recipient;
    let amount = anchor_in(env.store, id, position).unwrap().amount;
    let token = event.token;
    let transfer = Effect::Transfer(Transfer { token, from: env.contract, to: user, amount });
    let paid = Effect::Publish(
        Event::WinnerPaid { event_id: id, recipient: user, position, amount, milestone: None },
    );
    let known = Effect::Profile(
        ProfileCall::Bootstrap { user, op_id: child_of(op_id, BOOTSTRAP) },
    );
    let bump = Effect::Profile(
        ProfileCall::BumpReputation {
            user,
            bump: award.reputation_bump,
            reason: Reason::Win,
            op_id: child_of(op_id, BUMP_REP),
        },
    );
    let earned = Effect::Profile(
        ProfileCall::RegisterEarnings {
            user,
            token,
            amount,
            op_id: child_of(op_id, REGISTER_EARNINGS),
        },
    );
    let holders = seq![env.contract, user];
    let after = prize_claimed(env, id, position, op_id);
    assert(after.effects =~= env.with(transfer).with(paid).with(known).with(bump).with(
        earned,
    ).effects);
    assert forall|i: int| 0 <= i < 2 implies gained(after, #[trigger] holders[i], token) == gained(
        env.with(transfer),
        holders[i],
        token,
    ) by {
        let h = holders[i];
        lemma_flow_of_one_more(env.with(transfer), paid, h, token);
        lemma_flow_of_one_more(env.with(transfer).with(paid), known, h, token);
        lemma_flow_of_one_more(env.with(transfer).with(paid).with(known), bump, h, token);
        lemma_flow_of_one_more(
            env.with(transfer).with(paid).with(known).with(bump),
            earned,
            h,
            token,
        );
    }
    assert(holders[0] == env.contract && holders[1] == user);
    lemma_flow_of_one_more(env, transfer, env.contract, token);
    lemma_flow_of_one_more(env, transfer, user, token);
}

/// Selecting winners moves no tokens and takes nothing from the escrow.
pub proof fn law_selection_moves_nothing(
    env: EnvView,
    id: u64,
    winners: Seq<WinnerSpec>,
    op_id: Bytes32,
    holder: Address,
    token: Address,
)
    requires
        event_in(env.store, id) is Some,
    ensures
        gained(winners_recorded(env, id, winners, op_id), holder, token) == gained(
            env,
            holder,
            token,
        ),
        event_in(winners_recorded(env, id, winners, op_id).store, id) == event_in(env.store, id),
{
    lemma_flow_of_one_more(
        env,
        Effect::Publish(Event::WinnersSelected { event_id: id, count: winners.len() as u32 }),
        holder,
        token,
    );
}

/// Where nobody but the owner has paid in, cancelling gives the owner the whole escrow
/// back at once.
pub proof fn law_owner_gets_everything_back(env: EnvView, id: u64, op_id: Bytes32)
    requires
        start_cancel_denial(env, id) is None,
        start_cancel_refusal(env, id, op_id) is None,
        opening_state(env.store, id).branch == CancellationBranch::OwnerOnly,
        event_in(env.store, id).unwrap().remaining_escrow >= 0,
        event_in(env.store, id).unwrap().owner != env.contract,
    ensures
        ({
            let event = event_in(env.store, id).unwrap();
            let after = cancel_started(env, id, op_id);
            let left = event_in(after.store, id).unwrap();
            &&& left.status == EventStatus::Cancelled
            &&& left.remaining_escrow == 0
            &&& gained(after, event.owner, event.token) == gained(env, event.owner, event.token)
                + event.remaining_escrow
            &&& gained(after, env.contract, event.token) == gained(env, env.contract, event.token)
                - event.remaining_escrow
        }),
{
    let event = event_in(env.store, id).unwrap();
    let token = event.token;
    let amount = event.remaining_escrow;
    let transfer = Effect::Transfer(
        Transfer { token, from: env.contract, to: event.owner, amount },
    );
    let told = Effect::Publish(
        Event::OwnerResidualRefunded { event_id: id, owner: event.owner, amount },
    );
    let over = Effect::Publish(Event::EventCancelled { id });
    let holders = seq![env.contract, event.owner];
    let after = cancel_started(env, id, op_id);
    assert forall|i: int| 0 <= i < 2 implies gained(after, #[trigger] holders[i], token) == gained(
        env,
        holders[i],
        token,
    ) + (if i == 0 {
        -amount
    } else {
        amount as int
    }) by {
        let h = holders[i];
        lemma_flow_of_one_more(env, transfer, h, token);
        lemma_flow_of_one_more(env.with(transfer), told, h, token);
        lemma_flow_of_one_more(env.with(transfer).with(told), over, h, token);
        lemma_flow_of_one_more(env, over, h, token);
        if amount > 0 {
            assert(after.effects =~= env.with(transfer).with(told).with(over).effects);
        } else {
            assert(after.effects =~= env.with(over).effects);
        }
    }
    assert(holders[0] == env.contract && holders[1] == event.owner);
}

} // verus!
