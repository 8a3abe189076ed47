//! What holds of the staking module as a whole.
pub mod bonding;
pub mod eras;
pub mod genesis;
pub mod promises;
pub mod rewards;
pub mod roles;
pub mod stashes;
pub mod unbonding;

use crate::calls::{pending_power, Call};
use crate::genesis::GenesisConfig;
use crate::ledger::{
    due, kton_due, kton_in, lemma_consolidated_valid, lemma_released_bounded,
    lemma_sum_due_nonneg, lemma_unbonded_valid, lemma_with_ring_valid, ring_due, ring_in, sum_due,
    Amount, Chunk, LedgerView, MAX_UNLOCKING_CHUNKS,
};
use crate::perbill::min;
use crate::state::{
    all_found, blank_name, counted, extra, known, GenesisStaker, Outcome, State, GENESIS_MONTHS,
    GENESIS_THRESHOLD,
};
use crate::types::{
    AccountId, Action, Balance, EraIndex, Found, Moment, Params, RewardDestination, StakerStatus,
    StakingBalance,
};
use vstd::prelude::*;

verus! {

/// The power on its way out is that of the chunks that are due and that of those that stay.
proof fn lemma_pending_splits(chunks: Seq<Chunk>, era: EraIndex)
    ensures
        pending_power(chunks) == sum_due(chunks, era, |c: Chunk| c.dt_power as int)
            + pending_power(chunks.filter(|c: Chunk| !due(c, era))),
        0 <= pending_power(chunks.filter(|c: Chunk| !due(c, era))),
        chunks.filter(|c: Chunk| !due(c, era)).len() <= chunks.len(),
    decreases chunks.len(),
{
    reveal(Seq::filter);
    if chunks.len() > 0 {
        lemma_pending_splits(chunks.drop_last(), era);
        let before = chunks.drop_last().filter(|c: Chunk| !due(c, era));
        assert(before.push(chunks.last()).drop_last() =~= before);
    }
}

/// A ledger to which RING is added stays sound while its total can be expressed.
proof fn lemma_with_ring_sound(ledger: LedgerView, value: Balance, months: u32, now: Moment)
    requires
        ledger.sound(),
        ledger.total_ring() + value <= Balance::MAX,
    ensures
        ledger.with_ring(value, months, now).sound(),
{
    lemma_with_ring_valid(ledger, value, months, now);
}

/// A ledger from which funds are unbonded stays sound while there is room for the chunk.
proof fn lemma_unbonded_sound(
    ledger: LedgerView,
    value: Amount,
    is_regular: bool,
    now: Moment,
    era: EraIndex,
)
    requires
        ledger.sound(),
        ledger.unlocking.len() < MAX_UNLOCKING_CHUNKS,
    ensures
        ledger.unbonded(value, is_regular, now, era).sound(),
{
    let after = ledger.unbonded(value, is_regular, now, era);
    lemma_unbonded_valid(ledger, value, is_regular, now, era);
    if let StakingBalance::Ring(r) = value {
        lemma_released_bounded(ledger.regular_items, r, now);
    }
    assert(after.unlocking.drop_last() =~= ledger.unlocking);
}

/// A ledger that is consolidated stays sound.
proof fn lemma_consolidated_sound(ledger: LedgerView, era: EraIndex)
    requires
        ledger.sound(),
    ensures
        ledger.consolidated(era).sound(),
{
    lemma_consolidated_valid(ledger, era);
    lemma_pending_splits(ledger.unlocking, era);
    lemma_sum_due_nonneg(ledger.unlocking, era, |c: Chunk| kton_in(c));
    lemma_sum_due_nonneg(ledger.unlocking, era, |c: Chunk| c.dt_power as int);
}

/// The accounts that were found are as many as were looked up.
proof fn lemma_all_found_len(targets: Seq<Found>)
    ensures
        all_found(targets) matches Ok(accounts) ==> accounts.len() == targets.len(),
    decreases targets.len(),
{
    if targets.len() > 0 {
        lemma_all_found_len(targets.drop_last());
    }
}

/// A stake that is added to a sound ledger leaves a sound ledger, which holds no more of the
/// currency than the balance.
proof fn lemma_staked_sound(
    ledger: LedgerView,
    value: Amount,
    months: u32,
    now: Moment,
    stash_balance: Balance,
)
    requires
        ledger.sound(),
        match value {
            StakingBalance::Ring(r) => ledger.total_ring() + r <= stash_balance,
            StakingBalance::Kton(k) => ledger.normal_kton + k <= stash_balance,
        },
    ensures
        match value {
            StakingBalance::Ring(r) => ledger.with_ring(r, months, now).sound(),
            StakingBalance::Kton(k) => ledger.with_kton(k).sound(),
        },
{
    if let StakingBalance::Ring(r) = value {
        lemma_with_ring_sound(ledger, r, months, now);
    }
}

/// Every call keeps the invariant: stashes and controllers stay in pairs, nobody both validates
/// and nominates, what they ask for stays within bounds, and every ledger adds up.
pub proof fn every_call_keeps_the_invariant(state: State, call: Call)
    requires
        state.sound(),
    ensures
        state.after(call).0.sound(),
{
    let after = state.after(call).0;
    match call {
        Call::Bond { stash, controller, value, payee, months, stash_balance, now } => {
            let empty = LedgerView::empty(stash);
            match value {
                StakingBalance::Ring(r) => {
                    let r = min(r as int, stash_balance as int) as Balance;
                    lemma_staked_sound(empty, StakingBalance::Ring(r), months, now, stash_balance);
                },
                StakingBalance::Kton(k) => {
                    let k = min(k as int, stash_balance as int) as Balance;
                    lemma_staked_sound(empty, StakingBalance::Kton(k), months, now, stash_balance);
                },
            }
        },
        Call::BondExtra { stash, value, months, stash_balance, now } => {
            if state.bonded.contains_key(stash) {
                let ledger = state.ledger[state.bonded[stash]];
                if let Some(extra) = extra(ledger, value, stash_balance) {
                    lemma_staked_sound(ledger, extra, months, now, stash_balance);
                }
            }
        },
        Call::Unbond { controller, value, is_regular, now } => {
            if state.ledger.contains_key(controller) {
                let ledger = state.ledger[controller];
                if ledger.unlocking.len() < MAX_UNLOCKING_CHUNKS {
                    let era = (state.current_era + state.params.bonding_duration) as EraIndex;
                    lemma_unbonded_sound(ledger, value, is_regular, now, era);
                }
            }
        },
        Call::WithdrawUnbonded { controller } => {
            if state.ledger.contains_key(controller) {
                lemma_consolidated_sound(state.ledger[controller], state.current_era);
            }
        },
        Call::Nominate { controller, targets } => {
            lemma_all_found_len(counted(targets));
        },
        _ => {},
    }
    assert(after.paired());
    assert(after.roles_apart());
    assert(after.roles_bounded());
    assert(after.ledgers_sound());
}

/// A call that is refused changes nothing.
pub proof fn refused_calls_change_nothing(state: State, call: Call)
    ensures
        state.after(call).1 is Err ==> state.after(call).0 == state,
{
}

/// The first state keeps the invariant, whoever is at stake in it.
pub proof fn first_state_is_sound(
    config: GenesisConfig,
    params: Params,
    stakers: Seq<GenesisStaker>,
    free: Seq<Balance>,
    now: Moment,
)
    ensures
        config.blank_state(params).genesis_stakers(stakers, free, now).0.sound(),
    decreases stakers.len(),
{
    if stakers.len() > 0 {
        first_state_is_sound(config, params, stakers.drop_last(), free, now);
        let state = config.blank_state(params).genesis_stakers(stakers.drop_last(), free, now).0;
        let (stash, controller, balance, status) = stakers.last();
        let bond = Call::Bond {
            stash,
            controller: Ok(controller),
            value: StakingBalance::Ring(balance),
            payee: RewardDestination::Stash,
            months: GENESIS_MONTHS,
            stash_balance: free[stakers.len() - 1],
            now,
        };
        every_call_keeps_the_invariant(state, bond);
        let bonded = state.after(bond).0;
        match status {
            StakerStatus::Idle => {},
            StakerStatus::Validator => {
                every_call_keeps_the_invariant(
                    bonded,
                    Call::Validate {
                        controller,
                        name: blank_name(),
                        ratio: 0,
                        unstake_threshold: GENESIS_THRESHOLD,
                    },
                );
            },
            StakerStatus::Nominator(votes) => {
                every_call_keeps_the_invariant(
                    bonded,
                    Call::Nominate { controller, targets: known(votes@) },
                );
            },
        }
    }
}

/// What becomes of a ledger and its lock depends on the currency of the amount at hand alone, never
/// on the amount.
pub proof fn a_lock_depends_on_the_currency_alone(
    state: State,
    controller: AccountId,
    ledger: LedgerView,
    one: Amount,
    other: Amount,
)
    requires
        one is Ring <==> other is Ring,
    ensures
        state.update_ledger(controller, ledger, one) == state.update_ledger(
            controller,
            ledger,
            other,
        ),
        state.update_ledger(controller, ledger, one).0.ledger[controller] == ledger,
{
}

/// The sum of some amounts.
pub open spec fn total(amounts: Seq<int>) -> int
    decreases amounts.len(),
{
    if amounts.len() == 0 {
        0
    } else {
        total(amounts.drop_last()) + amounts.last()
    }
}

/// The RING that is at stake for an account.
pub open spec fn ring_held(state: State, account: AccountId) -> int {
    if state.bonded.contains_key(account) && state.ledger.contains_key(state.bonded[account]) {
        state.ledger[state.bonded[account]].total_ring()
    } else {
        0
    }
}

/// The KTON that is at stake for an account.
pub open spec fn kton_held(state: State, account: AccountId) -> int {
    if state.bonded.contains_key(account) && state.ledger.contains_key(state.bonded[account]) {
        state.ledger[state.bonded[account]].normal_kton
    } else {
        0
    }
}

/// The staking lock on the RING of an account after the actions, if it was `lock` before.
pub open spec fn ring_lock(lock: int, account: AccountId, actions: Seq<Action>) -> int
    decreases actions.len(),
{
    if actions.len() == 0 {
        lock
    } else {
        match actions.last() {
            Action::LockRing { who, amount } if who == account => amount as int,
            _ => ring_lock(lock, account, actions.drop_last()),
        }
    }
}

/// The staking lock on the KTON of an account after the actions, if it was `lock` before.
pub open spec fn kton_lock(lock: int, account: AccountId, actions: Seq<Action>) -> int
    decreases actions.len(),
{
    if actions.len() == 0 {
        lock
    } else {
        match actions.last() {
            Action::LockKton { who, amount } if who == account => amount as int,
            _ => kton_lock(lock, account, actions.drop_last()),
        }
    }
}

/// The actions that a call comes to, none if it is refused.
pub open spec fn actions_of(outcome: Outcome) -> Seq<Action> {
    match outcome {
        Ok(actions) => actions,
        Err(_) => Seq::empty(),
    }
}

/// The locks are what is at stake: if they were before a call, they are after it, for every
/// account that the balances module has not forgotten.
pub proof fn locks_are_what_is_at_stake(state: State, call: Call, account: AccountId)
    requires
        state.sound(),
        !(call matches Call::FreeBalanceZero { stash } && stash == account),
    ensures
        ring_lock(ring_held(state, account), account, actions_of(state.after(call).1))
            == ring_held(state.after(call).0, account),
        kton_lock(kton_held(state, account), account, actions_of(state.after(call).1))
            == kton_held(state.after(call).0, account),
{
    let (after, outcome) = state.after(call);
    let actions = actions_of(outcome);
    every_call_keeps_the_invariant(state, call);
    reveal_with_fuel(ring_lock, 3);
    reveal_with_fuel(kton_lock, 3);
    match call {
        Call::Unbond { controller, value, is_regular, now } => {
            if state.ledger.contains_key(controller) {
                let era = (state.current_era + state.params.bonding_duration) as EraIndex;
                lemma_unbonded_valid(state.ledger[controller], value, is_regular, now, era);
            }
        },
        Call::WithdrawUnbonded { controller } => {
            if state.ledger.contains_key(controller) {
                let ledger = state.ledger[controller];
                let era = state.current_era;
                lemma_sum_due_kind(ledger.unlocking, era);
                lemma_sum_due_nonneg(ledger.unlocking, era, |c: Chunk| ring_in(c));
                lemma_sum_due_nonneg(ledger.unlocking, era, |c: Chunk| kton_in(c));
                assert(ledger.stash == account ==> state.bonded[account] == controller);
            }
        },
        _ => {},
    }
}

/// Where no chunk of a currency is due, nothing of it is due.
proof fn lemma_sum_due_kind(chunks: Seq<Chunk>, era: EraIndex)
    ensures
        !ring_due(chunks, era) ==> sum_due(chunks, era, |c: Chunk| ring_in(c)) == 0,
        !kton_due(chunks, era) ==> sum_due(chunks, era, |c: Chunk| kton_in(c)) == 0,
    decreases chunks.len(),
{
    if chunks.len() > 0 {
        let before = chunks.drop_last();
        let last = chunks.len() - 1;
        lemma_sum_due_kind(before, era);
        assert(forall|i: int| 0 <= i < last ==> before[i] == #[trigger] chunks[i]);
        if !ring_due(chunks, era) {
            assert forall|i: int| 0 <= i < before.len() && due(#[trigger] before[i], era) implies !(
            before[i].value is Ring) by {
                assert(!(due(chunks[i], era) && chunks[i].value is Ring));
            }
            assert(!(due(chunks[last], era) && chunks[last].value is Ring));
        }
        if !kton_due(chunks, era) {
            assert forall|i: int| 0 <= i < before.len() && due(#[trigger] before[i], era) implies !(
            before[i].value is Kton) by {
                assert(!(due(chunks[i], era) && chunks[i].value is Kton));
            }
            assert(!(due(chunks[last], era) && chunks[last].value is Kton));
        }
    }
}

} // verus!
