//! What is put at stake.
use crate::ledger::LedgerView;
use crate::state::State;
use crate::types::{
    AccountId, Action, Balance, Error, Found, Moment, PowerBalance, RewardDestination,
    StakingBalance,
};
use vstd::prelude::*;

verus! {

/// A first bond of RING puts at stake what was asked for, or the balance where that is less, and
/// nothing else. Ten thousand RING weigh one unit of power. Without a promise the RING is normal;
/// under one it is a single item that expires the promised months of thirty days from now, and the
/// stash earns KTON for it. The lock covers what was put at stake.
pub proof fn a_first_bond_of_ring_is_what_was_asked_for(
    state: State,
    stash: AccountId,
    controller: AccountId,
    asked: Balance,
    payee: RewardDestination,
    months: u32,
    balance: Balance,
    now: Moment,
)
    requires
        months <= 36,
        !state.bonded.contains_key(stash),
        !state.ledger.contains_key(controller),
        months != 0 ==> now + 2_592_000 * months <= Moment::MAX,
    ensures
        ({
            let (after, outcome) = state.bond(
                stash,
                Ok(controller),
                StakingBalance::Ring(asked),
                payee,
                months,
                balance,
                now,
            );
            let put = if asked <= balance {
                asked
            } else {
                balance
            };
            let ledger = after.ledger[controller];
            let lock = Action::LockRing { who: stash, amount: put };
            let mint = Action::MintKton { who: stash, value: put, months };
            &&& after.ledger.contains_key(controller)
            &&& ledger.stash == stash
            &&& ledger.normal_ring + ledger.regular_ring == put
            &&& ledger.active_ring == put
            &&& ledger.active_power == ledger.total_power
            &&& 10_000 * ledger.total_power <= put < 10_000 * (ledger.total_power + 1)
            &&& ledger.normal_kton == 0
            &&& ledger.active_kton == 0
            &&& ledger.unlocking.len() == 0
            &&& months == 0 ==> {
                &&& ledger.normal_ring == put
                &&& ledger.regular_items.len() == 0
                &&& outcome == Ok::<Seq<Action>, Error>(seq![lock])
            }
            &&& months != 0 ==> {
                &&& ledger.regular_ring == put
                &&& ledger.regular_items.len() == 1
                &&& ledger.regular_items[0].value == put
                &&& ledger.regular_items[0].expire_time == now + 2_592_000 * months
                &&& outcome == Ok::<Seq<Action>, Error>(seq![mint, lock])
            }
        }),
{
}

/// A first bond of KTON puts at stake what was asked for, or the balance where that is less, and
/// nothing else. KTON weighs as much power as there is of it, and a promise earns nothing.
pub proof fn a_first_bond_of_kton_is_what_was_asked_for(
    state: State,
    stash: AccountId,
    controller: AccountId,
    asked: Balance,
    payee: RewardDestination,
    months: u32,
    balance: Balance,
    now: Moment,
)
    requires
        months <= 36,
        !state.bonded.contains_key(stash),
        !state.ledger.contains_key(controller),
    ensures
        ({
            let (after, outcome) = state.bond(
                stash,
                Ok(controller),
                StakingBalance::Kton(asked),
                payee,
                months,
                balance,
                now,
            );
            let put = if asked <= balance {
                asked
            } else {
                balance
            };
            let ledger = after.ledger[controller];
            let lock = Action::LockKton { who: stash, amount: put };
            &&& after.ledger.contains_key(controller)
            &&& ledger.stash == stash
            &&& ledger.normal_kton == put
            &&& ledger.active_kton == put
            &&& ledger.total_power == put
            &&& ledger.active_power == put
            &&& ledger.normal_ring == 0
            &&& ledger.regular_ring == 0
            &&& ledger.active_ring == 0
            &&& ledger.regular_items.len() == 0
            &&& ledger.unlocking.len() == 0
            &&& outcome == Ok::<Seq<Action>, Error>(seq![lock])
        }),
{
}

/// A first bond pairs the stash with the controller it names and sends its rewards where it wants
/// them. No other stash, no other ledger and nothing else is touched.
pub proof fn a_first_bond_concerns_one_stash(
    state: State,
    stash: AccountId,
    controller: AccountId,
    value: StakingBalance<Balance, Balance>,
    payee: RewardDestination,
    months: u32,
    balance: Balance,
    now: Moment,
)
    requires
        months <= 36,
        !state.bonded.contains_key(stash),
        !state.ledger.contains_key(controller),
    ensures
        ({
            let after = state.bond(stash, Ok(controller), value, payee, months, balance, now).0;
            &&& after.bonded.contains_key(stash) && after.bonded[stash] == controller
            &&& after.payee.contains_key(stash) && after.payee[stash] == payee
            &&& after.bonded.remove(stash) == state.bonded
            &&& after.payee.remove(stash) == state.payee.remove(stash)
            &&& after.ledger.remove(controller) == state.ledger
            &&& after == (State {
                bonded: after.bonded,
                payee: after.payee,
                ledger: after.ledger,
                ..state
            })
        }),
{
    let after = state.bond(stash, Ok(controller), value, payee, months, balance, now).0;
    assert(after.bonded.remove(stash) =~= state.bonded);
    assert(after.payee.remove(stash) =~= state.payee.remove(stash));
    assert(after.ledger.remove(controller) =~= state.ledger);
}

/// More RING is put at stake as far as it was asked for and the balance has it free: what the
/// ledger holds already is not free. It is added to what is there, and the lock covers all of it.
pub proof fn extra_ring_is_what_was_asked_for(
    state: State,
    stash: AccountId,
    asked: Balance,
    months: u32,
    balance: Balance,
    now: Moment,
)
    requires
        months <= 36,
        state.bonded.contains_key(stash),
        state.ledger.contains_key(state.bonded[stash]),
        months != 0 ==> now + 2_592_000 * months <= Moment::MAX,
        0 <= state.ledger[state.bonded[stash]].normal_ring,
        0 <= state.ledger[state.bonded[stash]].regular_ring,
        state.ledger[state.bonded[stash]].normal_ring
            + state.ledger[state.bonded[stash]].regular_ring <= balance,
    ensures
        ({
            let ring = StakingBalance::Ring(asked);
            let (after, outcome) = state.bond_extra(stash, ring, months, balance, now);
            let old = state.ledger[state.bonded[stash]];
            let new = after.ledger[state.bonded[stash]];
            let held = old.normal_ring + old.regular_ring;
            let put = if held + asked <= balance {
                asked as int
            } else {
                balance - held
            };
            let power = new.total_power - old.total_power;
            let lock = Action::LockRing { who: old.stash, amount: (held + put) as Balance };
            let mint = Action::MintKton { who: stash, value: put as Balance, months };
            &&& after.ledger.contains_key(state.bonded[stash])
            &&& held <= held + put <= balance
            &&& new.normal_ring + new.regular_ring == held + put
            &&& new.active_ring == old.active_ring + put
            &&& 10_000 * power <= put < 10_000 * (power + 1)
            &&& new.active_power == old.active_power + power
            &&& new.stash == old.stash
            &&& new.normal_kton == old.normal_kton
            &&& new.active_kton == old.active_kton
            &&& new.unlocking == old.unlocking
            &&& months == 0 ==> {
                &&& new.regular_ring == old.regular_ring
                &&& new.regular_items == old.regular_items
                &&& outcome == Ok::<Seq<Action>, Error>(seq![lock])
            }
            &&& months != 0 ==> {
                &&& new.normal_ring == old.normal_ring
                &&& new.regular_items.len() == old.regular_items.len() + 1
                &&& new.regular_items.drop_last() == old.regular_items
                &&& new.regular_items.last().value == put
                &&& new.regular_items.last().expire_time == now + 2_592_000 * months
                &&& outcome == Ok::<Seq<Action>, Error>(seq![mint, lock])
            }
        }),
{
    let ring = StakingBalance::Ring(asked);
    let after = state.bond_extra(stash, ring, months, balance, now).0;
    let old = state.ledger[state.bonded[stash]];
    let new = after.ledger[state.bonded[stash]];
    if months != 0 {
        assert(new.regular_items.drop_last() =~= old.regular_items);
    }
}

/// More KTON is put at stake as far as it was asked for and the balance has it free. It is added to
/// what is there, and the lock covers all of it.
pub proof fn extra_kton_is_what_was_asked_for(
    state: State,
    stash: AccountId,
    asked: Balance,
    months: u32,
    balance: Balance,
    now: Moment,
)
    requires
        months <= 36,
        state.bonded.contains_key(stash),
        state.ledger.contains_key(state.bonded[stash]),
        0 <= state.ledger[state.bonded[stash]].normal_kton <= balance,
    ensures
        ({
            let kton = StakingBalance::Kton(asked);
            let (after, outcome) = state.bond_extra(stash, kton, months, balance, now);
            let old = state.ledger[state.bonded[stash]];
            let new = after.ledger[state.bonded[stash]];
            let put = if old.normal_kton + asked <= balance {
                asked as int
            } else {
                balance - old.normal_kton
            };
            let amount = (old.normal_kton + put) as Balance;
            let lock = Action::LockKton { who: old.stash, amount };
            &&& after.ledger.contains_key(state.bonded[stash])
            &&& old.normal_kton <= old.normal_kton + put <= balance
            &&& new == (LedgerView {
                normal_kton: old.normal_kton + put,
                active_kton: old.active_kton + put,
                total_power: old.total_power + put,
                active_power: old.active_power + put,
                ..old
            })
            &&& outcome == Ok::<Seq<Action>, Error>(seq![lock])
        }),
{
}

/// Bonding more touches the ledger of the one stash alone. Where that ledger holds more than the
/// balance, nothing is done at all.
pub proof fn bonding_more_concerns_one_ledger(
    state: State,
    stash: AccountId,
    value: StakingBalance<Balance, Balance>,
    months: u32,
    balance: Balance,
    now: Moment,
)
    requires
        months <= 36,
        state.bonded.contains_key(stash),
        state.ledger.contains_key(state.bonded[stash]),
    ensures
        ({
            let (after, outcome) = state.bond_extra(stash, value, months, balance, now);
            let controller = state.bonded[stash];
            let old = state.ledger[controller];
            let held = match value {
                StakingBalance::Ring(_) => old.normal_ring + old.regular_ring,
                StakingBalance::Kton(_) => old.normal_kton,
            };
            &&& after == (State { ledger: after.ledger, ..state })
            &&& after.ledger.remove(controller) == state.ledger.remove(controller)
            &&& held > balance ==> after == state && outcome == Ok::<Seq<Action>, Error>(
                Seq::empty(),
            )
        }),
{
    let after = state.bond_extra(stash, value, months, balance, now).0;
    let controller = state.bonded[stash];
    assert(after.ledger.remove(controller) =~= state.ledger.remove(controller));
}

/// A first bond is refused for these reasons and no others: a promise of more than three years, a
/// stash that is bonded, a controller that cannot be looked up, and one that has a ledger. The
/// first that applies is given.
pub proof fn when_a_first_bond_is_refused(
    state: State,
    stash: AccountId,
    controller: Found,
    value: StakingBalance<Balance, Balance>,
    payee: RewardDestination,
    months: u32,
    balance: Balance,
    now: Moment,
)
    ensures
        ({
            let outcome = state.bond(stash, controller, value, payee, months, balance, now).1;
            let bonded = state.bonded.contains_key(stash);
            &&& outcome == Err::<Seq<Action>, Error>(Error::TooManyMonths) <==> months > 36
            &&& outcome == Err::<Seq<Action>, Error>(Error::StashBonded) <==> months <= 36 && bonded
            &&& (outcome is Err && outcome->Err_0 is Lookup) <==> months <= 36 && !bonded
                && controller is Err
            &&& outcome matches Err(Error::Lookup(reason)) ==> controller == Err::<
                AccountId,
                &'static str,
            >(reason)
            &&& outcome == Err::<Seq<Action>, Error>(Error::ControllerPaired) <==> months <= 36
                && !bonded && (controller matches Ok(c) && state.ledger.contains_key(c))
            &&& outcome is Ok <==> months <= 36 && !bonded && (controller matches Ok(c)
                && !state.ledger.contains_key(c))
        }),
{
}

/// Bonding more is refused for these reasons and no others: a promise of more than three years, an
/// account that is no stash, and a stash whose controller has no ledger. The first that applies is
/// given.
pub proof fn when_bonding_more_is_refused(
    state: State,
    stash: AccountId,
    value: StakingBalance<Balance, Balance>,
    months: u32,
    balance: Balance,
    now: Moment,
)
    ensures
        ({
            let outcome = state.bond_extra(stash, value, months, balance, now).1;
            let bonded = state.bonded.contains_key(stash);
            let known = state.ledger.contains_key(state.bonded[stash]);
            &&& outcome == Err::<Seq<Action>, Error>(Error::TooManyMonths) <==> months > 36
            &&& outcome == Err::<Seq<Action>, Error>(Error::NotStash) <==> months <= 36 && !bonded
            &&& outcome == Err::<Seq<Action>, Error>(Error::NotController) <==> months <= 36
                && bonded && !known
            &&& outcome is Ok <==> months <= 36 && bonded && known
        }),
{
}

/// A first bond can be reckoned with in every case but one: a promise on RING that would be
/// accepted and that would end later than can be expressed.
pub proof fn when_a_first_bond_fits(
    state: State,
    stash: AccountId,
    controller: Found,
    value: StakingBalance<Balance, Balance>,
    payee: RewardDestination,
    months: u32,
    balance: Balance,
    now: Moment,
)
    ensures
        !state.bond_fits(stash, controller, value, payee, months, balance, now) <==> {
            &&& 0 < months <= 36
            &&& value is Ring
            &&& !state.bonded.contains_key(stash)
            &&& controller matches Ok(c) && !state.ledger.contains_key(c)
            &&& now + 2_592_000 * months > Moment::MAX
        },
{
}

/// Bonding more can be reckoned with wherever every amount, and the end of the promise, that the
/// ledger would come to hold can be expressed, and wherever nothing would be added.
pub proof fn when_bonding_more_fits(
    state: State,
    stash: AccountId,
    value: StakingBalance<Balance, Balance>,
    months: u32,
    balance: Balance,
    now: Moment,
)
    requires
        months <= 36,
        state.bonded.contains_key(stash),
        state.ledger.contains_key(state.bonded[stash]),
        0 <= state.ledger[state.bonded[stash]].normal_ring,
        0 <= state.ledger[state.bonded[stash]].regular_ring,
        0 <= state.ledger[state.bonded[stash]].normal_kton,
    ensures
        ({
            let fits = state.bond_extra_fits(stash, value, months, balance, now);
            let after = state.bond_extra(stash, value, months, balance, now).0;
            let old = state.ledger[state.bonded[stash]];
            let new = after.ledger[state.bonded[stash]];
            match value {
                StakingBalance::Ring(_) => {
                    let held = old.normal_ring + old.regular_ring;
                    fits <==> held > balance || {
                        &&& new.active_ring <= Balance::MAX
                        &&& new.total_power <= PowerBalance::MAX
                        &&& new.active_power <= PowerBalance::MAX
                        &&& months != 0 ==> now + 2_592_000 * months <= Moment::MAX
                    }
                },
                StakingBalance::Kton(_) => {
                    fits <==> old.normal_kton > balance || {
                        &&& new.active_kton <= Balance::MAX
                        &&& new.total_power <= PowerBalance::MAX
                        &&& new.active_power <= PowerBalance::MAX
                    }
                },
            }
        }),
{
}

/// Bonding more where the call is refused can always be reckoned with.
pub proof fn refused_extras_fit(
    state: State,
    stash: AccountId,
    value: StakingBalance<Balance, Balance>,
    months: u32,
    balance: Balance,
    now: Moment,
)
    requires
        months > 36 || !state.bonded.contains_key(stash) || !state.ledger.contains_key(
            state.bonded[stash],
        ),
    ensures
        state.bond_extra_fits(stash, value, months, balance, now),
{
}

} // verus!
