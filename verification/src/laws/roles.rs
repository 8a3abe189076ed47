//! What a stash does with its stake, and who acts for it.
use crate::state::{all_found, counted, State};
use crate::types::{AccountId, Balance, Error, Found, RewardDestination, ValidatorPrefs};
use vstd::prelude::*;

verus! {

/// Either every account was found, each in its place, or the reason is that of the first that was
/// not.
proof fn lemma_all_found(targets: Seq<Found>)
    ensures
        match all_found(targets) {
            Ok(accounts) => accounts.len() == targets.len() && forall|i: int|
                0 <= i < targets.len() ==> #[trigger] targets[i] == Ok::<AccountId, &'static str>(
                    accounts[i],
                ),
            Err(reason) => exists|i: int|
                0 <= i < targets.len() && #[trigger] targets[i] == Err::<AccountId, &'static str>(
                    reason,
                ) && forall|j: int| 0 <= j < i ==> #[trigger] targets[j] is Ok,
        },
    decreases targets.len(),
{
    if targets.len() > 0 {
        let before = targets.drop_last();
        let last = targets.len() - 1;
        lemma_all_found(before);
        assert(forall|i: int| 0 <= i < last ==> #[trigger] targets[i] == before[i]);
        match all_found(before) {
            Err(reason) => {
                let i = choose|i: int|
                    0 <= i < before.len() && #[trigger] before[i] == Err::<
                        AccountId,
                        &'static str,
                    >(reason) && forall|j: int| 0 <= j < i ==> #[trigger] before[j] is Ok;
                assert(targets[i] == Err::<AccountId, &'static str>(reason));
            },
            Ok(accounts) => {
                assert(targets[last] == targets.last());
                assert(forall|j: int| 0 <= j < last ==> #[trigger] targets[j] is Ok) by {
                    assert(forall|j: int| 0 <= j < last ==> #[trigger] before[j] is Ok);
                }
            },
        }
    }
}

/// A controller nominates whom it names, the first sixteen of them and each in its place, whatever
/// its stash nominated before; the stash validates no more. Nothing else is touched.
pub proof fn nominating_replaces_the_nominations(
    state: State,
    controller: AccountId,
    targets: Seq<Found>,
)
    requires
        state.nominate(controller, targets).1 is Ok,
    ensures
        ({
            let after = state.nominate(controller, targets).0;
            let stash = state.ledger[controller].stash;
            let nominated = after.nominators[stash];
            &&& after.nominators.contains_key(stash)
            &&& nominated.len() == if targets.len() <= 16 {
                targets.len()
            } else {
                16
            }
            &&& forall|i: int|
                0 <= i < nominated.len() ==> targets[i] == Ok::<AccountId, &'static str>(
                    #[trigger] nominated[i],
                )
            &&& !after.validators.contains_key(stash)
            &&& after.nominators.remove(stash) == state.nominators.remove(stash)
            &&& after.validators == state.validators.remove(stash)
            &&& after == (State {
                nominators: after.nominators,
                validators: after.validators,
                ..state
            })
        }),
{
    let after = state.nominate(controller, targets).0;
    let stash = state.ledger[controller].stash;
    let nominated = after.nominators[stash];
    lemma_all_found(counted(targets));
    assert forall|i: int| 0 <= i < nominated.len() implies targets[i] == Ok::<
        AccountId,
        &'static str,
    >(#[trigger] nominated[i]) by {
        assert(counted(targets)[i] == targets[i]);
    }
    assert(after.nominators.remove(stash) =~= state.nominators.remove(stash));
}

/// A nomination is refused for these reasons and no others: the account is no controller, nobody
/// is named, or one of the first sixteen cannot be looked up; then the reason is that of the first
/// such. Whoever is named after the sixteenth does not matter.
pub proof fn when_a_nomination_is_refused(
    state: State,
    controller: AccountId,
    targets: Seq<Found>,
)
    ensures
        ({
            let outcome = state.nominate(controller, targets).1;
            let known = state.ledger.contains_key(controller);
            &&& outcome == Err::<(), Error>(Error::NotController) <==> !known
            &&& outcome == Err::<(), Error>(Error::NoTargets) <==> known && targets.len() == 0
            &&& outcome is Ok <==> known && targets.len() > 0 && forall|i: int|
                0 <= i < targets.len() && i < 16 ==> #[trigger] targets[i] is Ok
            &&& outcome matches Err(error) ==> {
                ||| error is NotController
                ||| error is NoTargets
                ||| error is Lookup
            }
            &&& outcome matches Err(Error::Lookup(reason)) ==> exists|i: int|
                0 <= i < targets.len() && i < 16 && #[trigger] targets[i] == Err::<
                    AccountId,
                    &'static str,
                >(reason) && forall|j: int| 0 <= j < i ==> #[trigger] targets[j] is Ok
        }),
{
    let firsts = counted(targets);
    lemma_all_found(firsts);
    assert(forall|i: int| 0 <= i < firsts.len() ==> #[trigger] targets[i] == firsts[i]);
    if let Err(reason) = all_found(firsts) {
        let i = choose|i: int|
            0 <= i < firsts.len() && #[trigger] firsts[i] == Err::<AccountId, &'static str>(reason)
                && forall|j: int| 0 <= j < i ==> #[trigger] firsts[j] is Ok;
        assert(targets[i] == Err::<AccountId, &'static str>(reason));
    } else {
        assert(forall|i: int| 0 <= i < firsts.len() ==> #[trigger] targets[i] is Ok) by {
            assert(forall|i: int| 0 <= i < firsts.len() ==> #[trigger] firsts[i] is Ok);
        }
    }
}

/// A controller has its stash validate with the threshold and the percentage that it asks for, at
/// most a hundred, whatever it asked for before; the stash nominates no more. It is known by the
/// first name that it gives. Nothing else is touched.
pub proof fn validating_replaces_the_preferences(
    state: State,
    controller: AccountId,
    name: Seq<u8>,
    ratio: u32,
    unstake_threshold: u32,
)
    requires
        state.validate(controller, name, ratio, unstake_threshold).1 is Ok,
    ensures
        ({
            let after = state.validate(controller, name, ratio, unstake_threshold).0;
            let stash = state.ledger[controller].stash;
            &&& after.validators.contains_key(stash)
            &&& after.validators[stash].unstake_threshold == unstake_threshold
            &&& ratio <= 100 ==> after.validators[stash].validator_payment_ratio == ratio
            &&& ratio > 100 ==> after.validators[stash].validator_payment_ratio == 100
            &&& !after.nominators.contains_key(stash)
            &&& after.node_name.contains_key(stash)
            &&& !state.node_name.contains_key(stash) ==> after.node_name[stash] == name
            &&& state.node_name.contains_key(stash) ==> after.node_name == state.node_name
            &&& after.validators.remove(stash) == state.validators.remove(stash)
            &&& after.nominators == state.nominators.remove(stash)
            &&& after.node_name.remove(stash) == state.node_name.remove(stash)
            &&& after == (State {
                nominators: after.nominators,
                validators: after.validators,
                node_name: after.node_name,
                ..state
            })
        }),
{
    let after = state.validate(controller, name, ratio, unstake_threshold).0;
    let stash = state.ledger[controller].stash;
    assert(after.validators.remove(stash) =~= state.validators.remove(stash));
    assert(after.node_name.remove(stash) =~= state.node_name.remove(stash));
}

/// Validating is refused for these reasons and no others: the account is no controller, or the
/// threshold is above ten.
pub proof fn when_validating_is_refused(
    state: State,
    controller: AccountId,
    name: Seq<u8>,
    ratio: u32,
    unstake_threshold: u32,
)
    ensures
        ({
            let outcome = state.validate(controller, name, ratio, unstake_threshold).1;
            let known = state.ledger.contains_key(controller);
            &&& outcome == Err::<(), Error>(Error::NotController) <==> !known
            &&& outcome == Err::<(), Error>(Error::ThresholdTooLarge) <==> known
                && unstake_threshold > 10
            &&& outcome is Ok <==> known && unstake_threshold <= 10
        }),
{
}

/// A controller that has its stash chill ends its validating and its nominating, and nothing else;
/// only an account that is no controller is refused.
pub proof fn chilling_ends_both_roles(state: State, controller: AccountId)
    ensures
        ({
            let (after, outcome) = state.chill(controller);
            let stash = state.ledger[controller].stash;
            if state.ledger.contains_key(controller) {
                &&& outcome is Ok
                &&& !after.validators.contains_key(stash)
                &&& !after.nominators.contains_key(stash)
                &&& after.validators == state.validators.remove(stash)
                &&& after.nominators == state.nominators.remove(stash)
                &&& after == (State {
                    validators: after.validators,
                    nominators: after.nominators,
                    ..state
                })
            } else {
                outcome == Err::<(), Error>(Error::NotController)
            }
        }),
{
}

/// A controller sets where the rewards of its own stash go, whatever was set before, and nothing
/// else; only an account that is no controller is refused.
pub proof fn the_payee_is_the_one_set_last(
    state: State,
    controller: AccountId,
    payee: RewardDestination,
)
    ensures
        ({
            let (after, outcome) = state.set_payee(controller, payee);
            let stash = state.ledger[controller].stash;
            if state.ledger.contains_key(controller) {
                &&& outcome is Ok
                &&& after.payee.contains_key(stash)
                &&& after.payee[stash] == payee
                &&& after.payee.remove(stash) == state.payee.remove(stash)
                &&& after == (State { payee: after.payee, ..state })
            } else {
                outcome == Err::<(), Error>(Error::NotController)
            }
        }),
{
    let after = state.set_payee(controller, payee).0;
    let stash = state.ledger[controller].stash;
    assert(after.payee.remove(stash) =~= state.payee.remove(stash));
}

/// A stash gets the controller that it names. The ledger that its old controller had, if any, is
/// the new one's, and the old one has none any more. No other stash and no other ledger is touched,
/// nor anything else.
pub proof fn a_new_controller_concerns_one_stash(
    state: State,
    stash: AccountId,
    controller: AccountId,
)
    requires
        state.bonded.contains_key(stash),
        !state.ledger.contains_key(controller),
    ensures
        ({
            let (after, outcome) = state.set_controller(stash, Ok(controller));
            let old = state.bonded[stash];
            &&& outcome is Ok
            &&& after.bonded.contains_key(stash)
            &&& after.bonded[stash] == controller
            &&& after.bonded.remove(stash) == state.bonded.remove(stash)
            &&& !after.ledger.contains_key(old)
            &&& after.ledger.contains_key(controller) <==> state.ledger.contains_key(old)
            &&& state.ledger.contains_key(old) ==> after.ledger[controller] == state.ledger[old]
            &&& after.ledger.remove(controller) == state.ledger.remove(old)
            &&& after == (State { bonded: after.bonded, ledger: after.ledger, ..state })
        }),
{
    let after = state.set_controller(stash, Ok(controller)).0;
    let old = state.bonded[stash];
    assert(after.bonded.remove(stash) =~= state.bonded.remove(stash));
    assert(after.ledger.remove(controller) =~= state.ledger.remove(old));
}

/// A new controller is refused for these reasons and no others: the account is no stash, the
/// controller cannot be looked up, or it has a ledger. The first that applies is given.
pub proof fn when_a_new_controller_is_refused(state: State, stash: AccountId, controller: Found)
    ensures
        ({
            let outcome = state.set_controller(stash, controller).1;
            let bonded = state.bonded.contains_key(stash);
            &&& outcome == Err::<(), Error>(Error::NotStash) <==> !bonded
            &&& (outcome is Err && outcome->Err_0 is Lookup) <==> bonded && controller is Err
            &&& outcome matches Err(Error::Lookup(reason)) ==> controller == Err::<
                AccountId,
                &'static str,
            >(reason)
            &&& outcome == Err::<(), Error>(Error::ControllerPaired) <==> bonded && (
            controller matches Ok(c) && state.ledger.contains_key(c))
            &&& outcome is Ok <==> bonded && (controller matches Ok(c)
                && !state.ledger.contains_key(c))
        }),
{
}

/// A stash that has nothing left is forgotten: it has no controller, no destination for rewards, no
/// slashes and no role any more, and the controller it had has no ledger. Every other account, the
/// names and the stake behind validators stay as they are, and so does everything else.
pub proof fn a_stash_with_nothing_left_is_forgotten(state: State, stash: AccountId)
    ensures
        ({
            let after = state.on_free_balance_zero(stash);
            &&& after.bonded == state.bonded.remove(stash)
            &&& after.payee == state.payee.remove(stash)
            &&& after.slash_count == state.slash_count.remove(stash)
            &&& after.validators == state.validators.remove(stash)
            &&& after.nominators == state.nominators.remove(stash)
            &&& state.bonded.contains_key(stash) ==> after.ledger == state.ledger.remove(
                state.bonded[stash],
            )
            &&& !state.bonded.contains_key(stash) ==> after.ledger == state.ledger
            &&& after == (State {
                bonded: after.bonded,
                payee: after.payee,
                slash_count: after.slash_count,
                validators: after.validators,
                nominators: after.nominators,
                ledger: after.ledger,
                ..state
            })
        }),
{
}

/// What is not known of a stash counts as this: rewards go to the stash itself, a threshold of
/// three and nothing up-front, no stake behind it, and no RING at stake. What is known counts as it
/// was set.
pub proof fn what_is_not_known_has_a_default(state: State, stash: AccountId)
    ensures
        state.payee.contains_key(stash) ==> state.destination(stash) == state.payee[stash],
        !state.payee.contains_key(stash) ==> state.destination(stash) is Stash,
        state.validators.contains_key(stash) ==> state.prefs(stash) == state.validators[stash],
        !state.validators.contains_key(stash) ==> state.prefs(stash) == (ValidatorPrefs::<Balance> {
            unstake_threshold: 3,
            validator_payment_ratio: 0,
        }),
        state.stakers.contains_key(stash) ==> state.exposure(stash) == state.stakers[stash],
        !state.stakers.contains_key(stash) ==> {
            &&& state.exposure(stash).total == 0
            &&& state.exposure(stash).own == 0
            &&& state.exposure(stash).others.len() == 0
        },
        state.bonded.contains_key(stash) && state.ledger.contains_key(state.bonded[stash])
            ==> state.slashable_balance_of(stash) == state.ledger[state.bonded[stash]].active_ring,
        !state.bonded.contains_key(stash) || !state.ledger.contains_key(state.bonded[stash])
            ==> state.slashable_balance_of(stash) == 0,
{
}

} // verus!
