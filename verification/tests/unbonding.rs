use staking::genesis::GenesisConfig;
use staking::ledger::Ledger;
use staking::module::Module;
use staking::types::{
    Action, Error, Params, RegularItem, RewardDestination, StakingBalance, UnlockChunk,
};

const PARAMS: Params = Params { sessions_per_era: 3, bonding_duration: 5, eras_per_epoch: 2 };

fn empty() -> Module {
    Module::genesis(GenesisConfig::default(), PARAMS, &vec![], 0).0
}

fn with_items(items: &[(u128, u64)]) -> Module {
    let mut module = empty();
    module
        .bond(11, Ok(10), StakingBalance::Ring(0), RewardDestination::Stash, 0, 0, 0)
        .unwrap();
    let ledger: &mut Ledger = module.ledger.get_mut(&10).unwrap();
    for (value, expire_time) in items {
        ledger.regular_items.push(RegularItem { value: *value, expire_time: *expire_time });
        ledger.regular_ring += *value;
        ledger.active_ring += *value;
        ledger.total_power += *value / 10_000;
        ledger.active_power += *value / 10_000;
    }
    module
}

#[test]
fn unbonding_ring_under_no_promise() {
    let mut module = empty();
    module.current_era = 4;
    module
        .bond(11, Ok(10), StakingBalance::Ring(50_000), RewardDestination::Stash, 0, 50_000, 0)
        .unwrap();
    module.unbond(10, StakingBalance::Ring(30_000), false, 0).unwrap();
    let ledger = module.ledger(10).unwrap();
    assert_eq!(
        ledger.unlocking,
        vec![UnlockChunk { value: StakingBalance::Ring(30_000), era: 9, dt_power: 3 }]
    );
    assert_eq!((ledger.normal_ring, ledger.active_ring), (50_000, 50_000));
    assert_eq!((ledger.total_power, ledger.active_power), (5, 2));
    module.unbond(10, StakingBalance::Ring(80_000), false, 0).unwrap();
    let ledger = module.ledger(10).unwrap();
    assert_eq!(
        ledger.unlocking[1],
        UnlockChunk { value: StakingBalance::Ring(50_000), era: 9, dt_power: 2 }
    );
    assert_eq!((ledger.total_power, ledger.active_power), (5, 0));
}

#[test]
fn a_big_enough_request_releases_all_that_has_expired() {
    let mut module = with_items(&[(30_000, 5), (70_000, 50), (20_000, 6)]);
    module.unbond(10, StakingBalance::Ring(50_000), true, 6).unwrap();
    let ledger = module.ledger(10).unwrap();
    assert_eq!(ledger.regular_items, vec![RegularItem { value: 70_000, expire_time: 50 }]);
    assert_eq!((ledger.normal_ring, ledger.regular_ring), (50_000, 70_000));
    assert_eq!(ledger.active_ring, 70_000);
    assert_eq!(
        ledger.unlocking,
        vec![UnlockChunk { value: StakingBalance::Ring(50_000), era: 5, dt_power: 5 }]
    );
    assert_eq!((ledger.total_power, ledger.active_power), (12, 7));
}

#[test]
fn a_small_request_takes_from_the_first_item() {
    let mut module = with_items(&[(100, 5), (200, 5)]);
    module.unbond(10, StakingBalance::Ring(60), true, 5).unwrap();
    let ledger = module.ledger(10).unwrap();
    assert_eq!(ledger.regular_items, vec![RegularItem { value: 40, expire_time: 5 }]);
    assert_eq!((ledger.normal_ring, ledger.regular_ring, ledger.active_ring), (60, 240, 240));
    assert_eq!(ledger.unlocking[0].value, StakingBalance::Ring(60));
}

#[test]
fn what_is_left_is_counted_from_the_last_item() {
    let mut module = with_items(&[(6, 0), (4, 0), (6, 0)]);
    module.unbond(10, StakingBalance::Ring(10), true, 0).unwrap();
    let ledger = module.ledger(10).unwrap();
    assert!(ledger.regular_items.is_empty());
    assert_eq!((ledger.normal_ring, ledger.regular_ring), (16, 0));
    assert_eq!(ledger.unlocking[0].value, StakingBalance::Ring(16));
}

#[test]
fn lasting_promises_stay() {
    let mut module = with_items(&[(100, 9), (200, 10)]);
    module.unbond(10, StakingBalance::Ring(500), true, 8).unwrap();
    let ledger = module.ledger(10).unwrap();
    assert_eq!(ledger.regular_items.len(), 2);
    assert_eq!((ledger.normal_ring, ledger.regular_ring), (0, 300));
    assert_eq!(
        ledger.unlocking,
        vec![UnlockChunk { value: StakingBalance::Ring(0), era: 5, dt_power: 0 }]
    );
}

#[test]
fn ring_and_kton_are_withdrawn_at_the_same_time() {
    let mut module = empty();
    module
        .bond(11, Ok(10), StakingBalance::Ring(50_000), RewardDestination::Stash, 0, 50_000, 0)
        .unwrap();
    module.bond_extra(11, StakingBalance::Kton(40), 0, 40, 0).unwrap();
    module.unbond(10, StakingBalance::Ring(20_000), false, 0).unwrap();
    module.unbond(10, StakingBalance::Kton(15), false, 0).unwrap();
    assert_eq!(module.ledger(10).unwrap().active_power, 28);
    module.current_era = 4;
    assert_eq!(module.withdraw_unbonded(10), Ok(vec![]));
    assert_eq!(module.ledger(10).unwrap().unlocking.len(), 2);
    module.current_era = 5;
    assert_eq!(
        module.withdraw_unbonded(10),
        Ok(vec![
            Action::LockRing { who: 11, amount: 30_000 },
            Action::LockKton { who: 11, amount: 25 },
        ])
    );
    let ledger = module.ledger(10).unwrap();
    assert_eq!((ledger.normal_ring, ledger.normal_kton), (30_000, 25));
    assert_eq!((ledger.total_power, ledger.active_power), (28, 28));
    assert!(ledger.unlocking.is_empty());
    assert_eq!(module.withdraw_unbonded(10), Ok(vec![]));
    assert_eq!(module.ledger(10).unwrap(), ledger);
}

#[test]
fn one_currency_is_withdrawn_alone() {
    let mut module = empty();
    module
        .bond(11, Ok(10), StakingBalance::Kton(40), RewardDestination::Stash, 0, 40, 0)
        .unwrap();
    module.bond_extra(11, StakingBalance::Ring(30), 0, 30, 0).unwrap();
    module.unbond(10, StakingBalance::Kton(40), false, 0).unwrap();
    module.current_era = 2;
    module.unbond(10, StakingBalance::Ring(10), false, 0).unwrap();
    module.current_era = 6;
    assert_eq!(
        module.withdraw_unbonded(10),
        Ok(vec![Action::LockKton { who: 11, amount: 0 }])
    );
    assert_eq!(module.ledger(10).unwrap().unlocking.len(), 1);
    module.current_era = 7;
    assert_eq!(
        module.withdraw_unbonded(10),
        Ok(vec![Action::LockRing { who: 11, amount: 20 }])
    );
    assert_eq!(module.ledger(10).unwrap().total_power, 0);
}

#[test]
fn consolidating_tells_the_currencies() {
    let mut module = empty();
    module
        .bond(11, Ok(10), StakingBalance::Kton(40), RewardDestination::Stash, 0, 40, 0)
        .unwrap();
    let idle = module.ledger(10).unwrap();
    assert_eq!(idle.consolidate_unlocked(100).1, 0);
    module.unbond(10, StakingBalance::Kton(1), false, 0).unwrap();
    assert_eq!(module.ledger(10).unwrap().consolidate_unlocked(100).1, 2);
    module.unbond(10, StakingBalance::Ring(1), false, 0).unwrap();
    let (ledger, id) = module.ledger(10).unwrap().consolidate_unlocked(5);
    assert_eq!(id, 3);
    assert_eq!((ledger.normal_kton, ledger.total_power), (39, 39));
    assert_eq!(module.ledger(10).unwrap().consolidate_unlocked(4).1, 0);
}

#[test]
fn there_is_room_for_so_many_chunks() {
    let mut module = empty();
    module
        .bond(11, Ok(10), StakingBalance::Kton(40), RewardDestination::Stash, 0, 40, 0)
        .unwrap();
    for _ in 0..32 {
        module.unbond(10, StakingBalance::Kton(1), false, 0).unwrap();
    }
    let before = module.ledger(10);
    assert_eq!(
        module.unbond(10, StakingBalance::Kton(1), false, 0),
        Err(Error::TooManyChunks)
    );
    assert_eq!(module.ledger(10), before);
}

#[test]
fn only_a_controller_unbonds_and_withdraws() {
    let mut module = empty();
    assert_eq!(
        module.unbond(10, StakingBalance::Kton(1), false, 0),
        Err(Error::NotController)
    );
    assert_eq!(module.withdraw_unbonded(10), Err(Error::NotController));
}

#[test]
fn bonded_kton_comes_back_out() {
    let mut module = empty();
    module
        .bond(11, Ok(10), StakingBalance::Kton(40), RewardDestination::Stash, 0, 40, 0)
        .unwrap();
    let before = module.ledger(10).unwrap();
    module.bond_extra(11, StakingBalance::Kton(9), 0, 100, 0).unwrap();
    module.unbond(10, StakingBalance::Kton(9), false, 0).unwrap();
    module.current_era = 5;
    module.withdraw_unbonded(10).unwrap();
    let after = module.ledger(10).unwrap();
    assert_eq!(after.normal_kton, before.normal_kton);
    assert_eq!(after.total_power, before.total_power);
    assert_eq!(after.active_power, before.active_power);
}

#[test]
fn bonded_ring_comes_back_out() {
    let mut module = empty();
    module
        .bond(11, Ok(10), StakingBalance::Ring(40_000), RewardDestination::Stash, 0, 40_000, 0)
        .unwrap();
    let before = module.ledger(10).unwrap();
    module.bond_extra(11, StakingBalance::Ring(25_000), 0, 100_000, 0).unwrap();
    module.unbond(10, StakingBalance::Ring(25_000), false, 0).unwrap();
    module.current_era = 5;
    module.withdraw_unbonded(10).unwrap();
    let after = module.ledger(10).unwrap();
    assert_eq!(after.normal_ring, before.normal_ring);
    assert_eq!(after.total_power, before.total_power);
    assert_eq!(after.active_power, before.active_power);
}

#[test]
fn unbonding_fits_while_the_era_can_be_counted() {
    let mut module = empty();
    let kton = StakingBalance::Kton(1);
    module.bond(11, Ok(10), kton, RewardDestination::Stash, 0, 1, 0).unwrap();
    module.current_era = u32::MAX - 5;
    assert!(module.unbond_fits(10, kton, false, 0));
    module.unbond(10, kton, false, 0).unwrap();
    assert_eq!(module.ledger(10).unwrap().unlocking[0].era, u32::MAX);
    module.current_era = u32::MAX - 4;
    assert!(!module.unbond_fits(10, kton, false, 0));
    assert!(module.unbond_fits(12, kton, false, 0));
    let chunk = module.ledger(10).unwrap().unlocking[0];
    module.ledger.get_mut(&10).unwrap().unlocking = vec![chunk; 32];
    assert!(module.unbond_fits(10, kton, false, 0));
    assert_eq!(module.unbond(10, kton, false, 0), Err(Error::TooManyChunks));
}
