//! The first state.
use crate::genesis::{
    GenesisConfig, DEFAULT_MINIMUM_VALIDATOR_COUNT, DEFAULT_OFFLINE_SLASH, DEFAULT_SESSION_REWARD,
};
use crate::laws::roles::{nominating_replaces_the_nominations, when_a_nomination_is_refused};
use crate::state::{blank_name, known, smallest_stake, GenesisStaker, State};
use crate::types::{
    AccountId, Action, Balance, Found, Moment, Params, RewardDestination, StakerStatus,
    StakingBalance,
};
use vstd::prelude::*;

verus! {

/// Before anybody bonds, everything is as configured, and nobody is known.
pub proof fn the_first_state_is_as_configured(config: GenesisConfig, params: Params)
    ensures
        ({
            let state = config.blank_state(params);
            &&& state.params == params
            &&& state.validator_count == config.validator_count
            &&& state.minimum_validator_count == config.minimum_validator_count
            &&& state.session_reward == config.session_reward
            &&& state.offline_slash == config.offline_slash
            &&& state.offline_slash_grace == config.offline_slash_grace
            &&& state.invulnerables == config.invulnerables@
            &&& state.current_era == config.current_era
            &&& state.current_session_reward == config.current_session_reward
            &&& state.current_era_total_reward == config.current_era_total_reward
            &&& state.current_era_reward == 0
            &&& state.epoch_index == 0
            &&& !state.force_new_era
            &&& state.bonded.dom() == Set::<AccountId>::empty()
            &&& state.ledger.dom() == Set::<AccountId>::empty()
            &&& state.payee.dom() == Set::<AccountId>::empty()
            &&& state.validators.dom() == Set::<AccountId>::empty()
            &&& state.nominators.dom() == Set::<AccountId>::empty()
            &&& state.stakers.dom() == Set::<AccountId>::empty()
            &&& state.slash_count.dom() == Set::<AccountId>::empty()
            &&& state.node_name.dom() == Set::<AccountId>::empty()
            &&& state.current_elected.len() == 0
            &&& state.recently_offline.len() == 0
            &&& state.should_offline.len() == 0
        }),
{
}

/// The slot stake is the least that any staker of the first hour bonds, and nothing if there is
/// none.
pub proof fn the_slot_stake_is_the_least(config: GenesisConfig, params: Params)
    ensures
        ({
            let least = config.blank_state(params).slot_stake;
            let stakers = config.stakers@;
            &&& stakers.len() == 0 ==> least == 0
            &&& stakers.len() > 0 ==> exists|i: int|
                0 <= i < stakers.len() && (#[trigger] stakers[i]).2 == least
            &&& forall|i: int| 0 <= i < stakers.len() ==> least <= (#[trigger] stakers[i]).2
        }),
{
    lemma_smallest_stake(config.stakers@);
}

/// The smallest stake is one of the stakes, and no more than any of them.
proof fn lemma_smallest_stake(stakers: Seq<GenesisStaker>)
    ensures
        stakers.len() == 0 ==> smallest_stake(stakers) == 0,
        stakers.len() > 0 ==> exists|i: int|
            0 <= i < stakers.len() && (#[trigger] stakers[i]).2 == smallest_stake(stakers),
        forall|i: int|
            0 <= i < stakers.len() ==> smallest_stake(stakers) <= (#[trigger] stakers[i]).2,
    decreases stakers.len(),
{
    if stakers.len() == 1 {
        assert(stakers[0].2 == smallest_stake(stakers));
    } else if stakers.len() > 1 {
        let before = stakers.drop_last();
        lemma_smallest_stake(before);
        let i = choose|i: int|
            0 <= i < before.len() && (#[trigger] before[i]).2 == smallest_stake(before);
        assert(stakers[i] == before[i]);
        assert(forall|j: int| 0 <= j < before.len() ==> #[trigger] stakers[j] == before[j]);
        assert(stakers[stakers.len() - 1] == stakers.last());
    }
}

/// A staker of the first hour whose stash and controller are free bonds its RING under a promise of
/// twelve months, which earns KTON, and its rewards go to its stash. Then it does what it is down
/// for: it validates with a threshold of three and nothing up-front, under a name of eight zero
/// bytes if it has none; or it nominates the first sixteen of its votes, if it has any; or neither.
/// Nobody else is touched, and nothing else.
pub proof fn a_first_staker_bonds_for_a_year(
    state: State,
    stash: AccountId,
    controller: AccountId,
    balance: Balance,
    status: StakerStatus<AccountId>,
    free: Balance,
    now: Moment,
)
    requires
        !state.bonded.contains_key(stash),
        !state.ledger.contains_key(controller),
        balance <= free,
        now + 12 * 2_592_000 <= Moment::MAX,
    ensures
        ({
            let (after, actions) = state.genesis_staker(
                (stash, controller, balance, status),
                free,
                now,
            );
            let ledger = after.ledger[controller];
            let item = ledger.regular_items[0];
            &&& actions == seq![
                Action::MintKton { who: stash, value: balance, months: 12 },
                Action::LockRing { who: stash, amount: balance },
            ]
            &&& after.bonded.contains_key(stash) && after.bonded[stash] == controller
            &&& after.payee.contains_key(stash) && after.payee[stash] is Stash
            &&& after.ledger.contains_key(controller)
            &&& ledger.stash == stash
            &&& ledger.regular_ring == balance
            &&& ledger.active_ring == balance
            &&& ledger.normal_ring == 0
            &&& ledger.normal_kton == 0
            &&& ledger.active_kton == 0
            &&& ledger.regular_items.len() == 1
            &&& item.value == balance
            &&& item.expire_time == now + 12 * 2_592_000
            &&& ledger.unlocking.len() == 0
            &&& ledger.active_power == ledger.total_power
            &&& 10_000 * ledger.total_power <= balance < 10_000 * (ledger.total_power + 1)
            &&& match status {
                StakerStatus::Idle => {
                    &&& after.validators == state.validators
                    &&& after.nominators == state.nominators
                    &&& after.node_name == state.node_name
                },
                StakerStatus::Validator => {
                    &&& after.validators.contains_key(stash)
                    &&& after.validators[stash].unstake_threshold == 3
                    &&& after.validators[stash].validator_payment_ratio == 0
                    &&& !after.nominators.contains_key(stash)
                    &&& after.node_name.contains_key(stash)
                    &&& state.node_name.contains_key(stash) ==> after.node_name == state.node_name
                    &&& !state.node_name.contains_key(stash) ==> after.node_name[stash] == seq![
                        0u8,
                        0u8,
                        0u8,
                        0u8,
                        0u8,
                        0u8,
                        0u8,
                        0u8,
                    ]
                },
                StakerStatus::Nominator(votes) => {
                    let nominated = after.nominators[stash];
                    &&& after.node_name == state.node_name
                    &&& votes@.len() == 0 ==> after.validators == state.validators
                        && after.nominators == state.nominators
                    &&& votes@.len() > 0 ==> {
                        &&& !after.validators.contains_key(stash)
                        &&& after.nominators.contains_key(stash)
                        &&& votes@.len() <= 16 ==> nominated == votes@
                        &&& votes@.len() > 16 ==> nominated == votes@.take(16)
                    }
                },
            }
            &&& after.bonded.remove(stash) == state.bonded
            &&& after.payee.remove(stash) == state.payee.remove(stash)
            &&& after.ledger.remove(controller) == state.ledger
            &&& after.validators.remove(stash) == state.validators.remove(stash)
            &&& after.nominators.remove(stash) == state.nominators.remove(stash)
            &&& after.node_name.remove(stash) == state.node_name.remove(stash)
            &&& after == (State {
                bonded: after.bonded,
                payee: after.payee,
                ledger: after.ledger,
                validators: after.validators,
                nominators: after.nominators,
                node_name: after.node_name,
                ..state
            })
        }),
{
    let (after, actions) = state.genesis_staker((stash, controller, balance, status), free, now);
    let bonded = state.bond(
        stash,
        Ok(controller),
        StakingBalance::Ring(balance),
        RewardDestination::Stash,
        12,
        free,
        now,
    ).0;
    match status {
        StakerStatus::Idle => {},
        StakerStatus::Validator => {
            assert(blank_name() =~= seq![0u8, 0u8, 0u8, 0u8, 0u8, 0u8, 0u8, 0u8]);
        },
        StakerStatus::Nominator(votes) => {
            let targets = known(votes@);
            if votes@.len() > 0 {
                when_a_nomination_is_refused(bonded, controller, targets);
                nominating_replaces_the_nominations(bonded, controller, targets);
                let nominated = after.nominators[stash];
                assert(forall|i: int|
                    0 <= i < nominated.len() ==> #[trigger] nominated[i] == votes@[i]) by {
                    assert(forall|i: int|
                        0 <= i < votes@.len() ==> #[trigger] targets[i] == Ok::<
                            AccountId,
                            &'static str,
                        >(votes@[i]));
                }
                if votes@.len() <= 16 {
                    assert(nominated =~= votes@);
                } else {
                    assert(nominated =~= votes@.take(16));
                }
            }
        },
    }
    assert(after.bonded.remove(stash) =~= state.bonded);
    assert(after.payee.remove(stash) =~= state.payee.remove(stash));
    assert(after.ledger.remove(controller) =~= state.ledger);
    assert(after.validators.remove(stash) =~= state.validators.remove(stash));
    assert(after.nominators.remove(stash) =~= state.nominators.remove(stash));
    assert(after.node_name.remove(stash) =~= state.node_name.remove(stash));
}

/// A staker of the first hour whose stash or whose controller is taken bonds nothing. What it is
/// down for is done all the same, as if the controller had asked for it.
pub proof fn a_taken_first_staker_bonds_nothing(
    state: State,
    staker: GenesisStaker,
    free: Balance,
    now: Moment,
)
    requires
        state.bonded.contains_key(staker.0) || state.ledger.contains_key(staker.1),
    ensures
        ({
            let (after, actions) = state.genesis_staker(staker, free, now);
            &&& actions.len() == 0
            &&& after.bonded == state.bonded
            &&& after.ledger == state.ledger
            &&& after.payee == state.payee
            &&& match staker.3 {
                StakerStatus::Idle => after == state,
                StakerStatus::Validator => after == state.validate(
                    staker.1,
                    seq![0u8, 0u8, 0u8, 0u8, 0u8, 0u8, 0u8, 0u8],
                    0,
                    3,
                ).0,
                StakerStatus::Nominator(votes) => after == state.nominate(
                    staker.1,
                    Seq::new(votes@.len(), |i: int| Ok(votes@[i])),
                ).0,
            }
        }),
{
    assert(blank_name() =~= seq![0u8, 0u8, 0u8, 0u8, 0u8, 0u8, 0u8, 0u8]);
    if let StakerStatus::Nominator(votes) = staker.3 {
        let targets: Seq<Found> = Seq::new(votes@.len(), |i: int| Ok(votes@[i]));
        assert(known(votes@) =~= targets);
    }
}

/// Unless configured otherwise there are at least four validators, an era pays out sixty billionths
/// of its reward, and being offline costs a thousandth of the stake.
pub proof fn defaults_of_the_configuration()
    ensures
        DEFAULT_MINIMUM_VALIDATOR_COUNT == 4,
        DEFAULT_SESSION_REWARD == 60,
        DEFAULT_OFFLINE_SLASH == 1_000_000,
{
}

/// The stakers of the first hour come one after the other: none leaves the state as it is, and one
/// more comes after all the others, with its own free RING.
pub proof fn first_stakers_come_one_after_the_other(
    state: State,
    stakers: Seq<GenesisStaker>,
    free: Seq<Balance>,
    now: Moment,
)
    ensures
        stakers.len() == 0 ==> state.genesis_stakers(stakers, free, now) == (
            state,
            Seq::<Action>::empty(),
        ),
        stakers.len() > 0 ==> ({
            let (before, earlier) = state.genesis_stakers(stakers.drop_last(), free, now);
            let (after, actions) = before.genesis_staker(
                stakers.last(),
                free[stakers.len() - 1],
                now,
            );
            state.genesis_stakers(stakers, free, now) == (after, earlier + actions)
        }),
{
}

/// Where no two stakers of the first hour share a stash or a controller and each has the RING, all
/// of them are bonded as they are down for, and nobody else is.
pub proof fn all_first_stakers_are_bonded(
    config: GenesisConfig,
    params: Params,
    stakers: Seq<GenesisStaker>,
    free: Seq<Balance>,
    now: Moment,
)
    requires
        stakers.len() <= free.len(),
        now + 12 * 2_592_000 <= Moment::MAX,
        forall|i: int| 0 <= i < stakers.len() ==> (#[trigger] stakers[i]).2 <= free[i],
        forall|i: int, j: int|
            0 <= i < j < stakers.len() ==> (#[trigger] stakers[i]).0 != (#[trigger] stakers[j]).0
                && stakers[i].1 != stakers[j].1,
    ensures
        ({
            let (after, actions) = config.blank_state(params).genesis_stakers(stakers, free, now);
            &&& actions.len() == 2 * stakers.len()
            &&& forall|i: int|
                #![trigger stakers[i]]
                0 <= i < stakers.len() ==> {
                    let (stash, controller, balance, status) = stakers[i];
                    &&& after.bonded.contains_key(stash)
                    &&& after.bonded[stash] == controller
                    &&& after.ledger.contains_key(controller)
                    &&& after.ledger[controller].stash == stash
                    &&& after.ledger[controller].regular_ring == balance
                    &&& after.validators.contains_key(stash) <==> status is Validator
                    &&& after.nominators.contains_key(stash) <==> (
                    status matches StakerStatus::Nominator(votes) && votes@.len() > 0)
                }
            &&& forall|account: AccountId| #[trigger]
                after.bonded.contains_key(account) ==> exists|i: int|
                    0 <= i < stakers.len() && (#[trigger] stakers[i]).0 == account
            &&& forall|account: AccountId| #[trigger]
                after.ledger.contains_key(account) ==> exists|i: int|
                    0 <= i < stakers.len() && (#[trigger] stakers[i]).1 == account
            &&& forall|account: AccountId| #[trigger]
                after.validators.contains_key(account) ==> after.bonded.contains_key(account)
            &&& forall|account: AccountId| #[trigger]
                after.nominators.contains_key(account) ==> after.bonded.contains_key(account)
        }),
    decreases stakers.len(),
{
    if stakers.len() > 0 {
        let before = stakers.drop_last();
        let n = before.len() as int;
        let (stash, controller, balance, status) = stakers.last();
        let blank = config.blank_state(params);
        assert(forall|i: int| 0 <= i < n ==> #[trigger] stakers[i] == before[i]);
        assert(stakers[n] == stakers.last());
        all_first_stakers_are_bonded(config, params, before, free, now);
        let (state, earlier) = blank.genesis_stakers(before, free, now);
        assert(!state.bonded.contains_key(stash)) by {
            if state.bonded.contains_key(stash) {
                let i = choose|i: int| 0 <= i < before.len() && (#[trigger] before[i]).0 == stash;
                assert(stakers[i].0 != stakers[n].0);
            }
        }
        assert(!state.ledger.contains_key(controller)) by {
            if state.ledger.contains_key(controller) {
                let i = choose|i: int|
                    0 <= i < before.len() && (#[trigger] before[i]).1 == controller;
                assert(stakers[i].1 != stakers[n].1);
            }
        }
        assert(!state.validators.contains_key(stash) && !state.nominators.contains_key(stash));
        a_first_staker_bonds_for_a_year(
            state,
            stash,
            controller,
            balance,
            status,
            free[n],
            now,
        );
        let after = blank.genesis_stakers(stakers, free, now).0;
        assert forall|i: int| #![trigger stakers[i]] 0 <= i < stakers.len() implies {
            let (stash, controller, balance, status) = stakers[i];
            &&& after.bonded.contains_key(stash)
            &&& after.bonded[stash] == controller
            &&& after.ledger.contains_key(controller)
            &&& after.ledger[controller].stash == stash
            &&& after.ledger[controller].regular_ring == balance
            &&& after.validators.contains_key(stash) <==> status is Validator
            &&& after.nominators.contains_key(stash) <==> (
            status matches StakerStatus::Nominator(votes) && votes@.len() > 0)
        } by {
            if i < n {
                let one = before[i];
                assert(stakers[i].0 != stakers[n].0 && stakers[i].1 != stakers[n].1);
                assert(after.bonded.remove(stash)[one.0] == state.bonded[one.0]);
                assert(after.bonded.remove(stash).contains_key(one.0));
                assert(after.ledger.remove(controller)[one.1] == state.ledger[one.1]);
                assert(after.ledger.remove(controller).contains_key(one.1));
                assert(after.validators.remove(stash).contains_key(one.0)
                    == state.validators.remove(stash).contains_key(one.0));
                assert(after.nominators.remove(stash).contains_key(one.0)
                    == state.nominators.remove(stash).contains_key(one.0));
            }
        }
        assert forall|account: AccountId| #[trigger]
            after.bonded.contains_key(account) implies exists|i: int|
            0 <= i < stakers.len() && (#[trigger] stakers[i]).0 == account by {
            if account == stash {
                assert(stakers[n].0 == account);
            } else {
                assert(after.bonded.remove(stash).contains_key(account));
                let i = choose|i: int| 0 <= i < before.len() && (#[trigger] before[i]).0 == account;
                assert(stakers[i].0 == account);
            }
        }
        assert forall|account: AccountId| #[trigger]
            after.ledger.contains_key(account) implies exists|i: int|
            0 <= i < stakers.len() && (#[trigger] stakers[i]).1 == account by {
            if account == controller {
                assert(stakers[n].1 == account);
            } else {
                assert(after.ledger.remove(controller).contains_key(account));
                let i = choose|i: int| 0 <= i < before.len() && (#[trigger] before[i]).1 == account;
                assert(stakers[i].1 == account);
            }
        }
        assert forall|account: AccountId| #[trigger]
            after.validators.contains_key(account) implies after.bonded.contains_key(account) by {
            if account != stash {
                assert(after.validators.remove(stash).contains_key(account)
                    == state.validators.remove(stash).contains_key(account));
                assert(state.bonded.contains_key(account));
                assert(after.bonded.remove(stash).contains_key(account));
            }
        }
        assert forall|account: AccountId| #[trigger]
            after.nominators.contains_key(account) implies after.bonded.contains_key(account) by {
            if account != stash {
                assert(after.nominators.remove(stash).contains_key(account)
                    == state.nominators.remove(stash).contains_key(account));
                assert(state.bonded.contains_key(account));
                assert(after.bonded.remove(stash).contains_key(account));
            }
        }
    }
}

} // verus!
