//! Stashes, their controllers, and what they are known for.
use crate::calls::Call;
use crate::ledger::Amount;
use crate::state::{State, MAX_MONTHS};
use crate::types::{
    AccountId, Balance, Error, Found, Moment, RewardDestination, StakingBalance,
};
use vstd::prelude::*;

verus! {

/// A stash that goes to another controller and back to the first is where it was.
pub proof fn changing_the_controller_back_restores_the_state(
    state: State,
    stash: AccountId,
    controller: AccountId,
)
    requires
        state.paired(),
        state.set_controller(stash, Ok(controller)).1 is Ok,
    ensures
        state.set_controller(stash, Ok(controller)).0.set_controller(
            stash,
            Ok(state.bonded[stash]),
        ) == (state, Ok::<(), Error>(())),
{
    let moved = state.set_controller(stash, Ok(controller)).0;
    let back = moved.set_controller(stash, Ok(state.bonded[stash])).0;
    assert(back.bonded =~= state.bonded);
    assert(back.ledger =~= state.ledger);
    assert(back =~= state);
}

/// A change of the controller moves the ledger as it is: the stash has the same funds at stake
/// under the new controller, and the old one has no ledger any more.
pub proof fn a_new_controller_takes_the_ledger_over(
    state: State,
    stash: AccountId,
    controller: AccountId,
)
    requires
        state.paired(),
        state.set_controller(stash, Ok(controller)).1 is Ok,
    ensures
        ({
            let after = state.set_controller(stash, Ok(controller)).0;
            &&& after.bonded[stash] == controller
            &&& after.ledger.contains_key(controller)
            &&& after.ledger[controller] == state.ledger[state.bonded[stash]]
            &&& !after.ledger.contains_key(state.bonded[stash])
        }),
{
}

/// The first name that a validator gives stays, whatever is called.
pub proof fn names_stay(state: State, call: Call, stash: AccountId)
    requires
        state.node_name.contains_key(stash),
    ensures
        state.after(call).0.node_name.contains_key(stash),
        state.after(call).0.node_name[stash] == state.node_name[stash],
{
}

/// Bonding puts no more at stake than there is: where RING was bonded, the ledger holds no more
/// RING than the balance of the stash, and the same holds of KTON.
pub proof fn no_more_is_bonded_than_there_is(
    state: State,
    stash: AccountId,
    value: Amount,
    months: u32,
    stash_balance: Balance,
    now: Moment,
)
    requires
        state.bond_extra(stash, value, months, stash_balance, now).1 matches Ok(actions)
            && actions.len() > 0,
    ensures
        ({
            let after = state.bond_extra(stash, value, months, stash_balance, now).0;
            let ledger = after.ledger[state.bonded[stash]];
            match value {
                StakingBalance::Ring(_) => ledger.total_ring() <= stash_balance,
                StakingBalance::Kton(_) => ledger.normal_kton <= stash_balance,
            }
        }),
{
}

/// A first bond puts no more at stake than there is, and binds the stash to the controller.
pub proof fn a_first_bond_is_covered(
    state: State,
    stash: AccountId,
    controller: AccountId,
    value: Amount,
    payee: RewardDestination,
    months: u32,
    stash_balance: Balance,
    now: Moment,
)
    requires
        state.bond(stash, Ok(controller), value, payee, months, stash_balance, now).1 is Ok,
    ensures
        ({
            let after = state.bond(
                stash,
                Ok(controller),
                value,
                payee,
                months,
                stash_balance,
                now,
            ).0;
            let ledger = after.ledger[controller];
            &&& after.bonded[stash] == controller
            &&& after.destination(stash) == payee
            &&& ledger.stash == stash
            &&& ledger.total_ring() + ledger.normal_kton <= stash_balance
        }),
{
}

/// A stash is bonded once: while it is, every further first bond is refused, and so is every bond
/// to a controller who has a ledger.
pub proof fn a_second_first_bond_is_refused(
    state: State,
    stash: AccountId,
    controller: Found,
    value: Amount,
    payee: RewardDestination,
    months: u32,
    stash_balance: Balance,
    now: Moment,
)
    requires
        state.bonded.contains_key(stash) || (controller matches Ok(c) && state.ledger.contains_key(
            c,
        )),
    ensures
        state.bond(stash, controller, value, payee, months, stash_balance, now).1 is Err,
{
}

/// A stash that is forgotten can be bonded again, under any controller without a ledger.
pub proof fn a_forgotten_stash_can_bond_again(
    state: State,
    stash: AccountId,
    controller: AccountId,
    value: Amount,
    payee: RewardDestination,
    months: u32,
    stash_balance: Balance,
    now: Moment,
)
    requires
        state.paired(),
        months <= MAX_MONTHS,
        !state.ledger.contains_key(controller) || state.ledger[controller].stash == stash,
    ensures
        state.on_free_balance_zero(stash).bond(
            stash,
            Ok(controller),
            value,
            payee,
            months,
            stash_balance,
            now,
        ).1 is Ok,
{
}

} // verus!
