use staking::genesis::GenesisConfig;
use staking::module::Module;
use staking::types::{
    Action, Error, Params, RegularItem, RewardDestination, StakingBalance,
};

const PARAMS: Params = Params { sessions_per_era: 3, bonding_duration: 5, eras_per_epoch: 2 };

fn empty() -> Module {
    Module::genesis(GenesisConfig::default(), PARAMS, &vec![], 0).0
}

const MONTH: u64 = 2_592_000;

#[test]
fn bonding_ring_without_a_promise() {
    let mut module = empty();
    let actions = module
        .bond(11, Ok(10), StakingBalance::Ring(50_000), RewardDestination::Controller, 0, 90_000, 7)
        .unwrap();
    assert_eq!(actions, vec![Action::LockRing { who: 11, amount: 50_000 }]);
    assert_eq!(module.bonded(11), Some(10));
    assert_eq!(module.payee(11), RewardDestination::Controller);
    let ledger = module.ledger(10).unwrap();
    assert_eq!(ledger.stash, 11);
    assert_eq!((ledger.normal_ring, ledger.regular_ring, ledger.active_ring), (50_000, 0, 50_000));
    assert_eq!((ledger.total_power, ledger.active_power), (5, 5));
    assert!(ledger.regular_items.is_empty());
    assert_eq!(module.slashable_balance_of(11), 50_000);
    assert_eq!(module.slashable_balance_of(10), 0);
}

#[test]
fn bonding_ring_under_a_promise() {
    let mut module = empty();
    let actions = module
        .bond(11, Ok(10), StakingBalance::Ring(29_999), RewardDestination::Stash, 36, 90_000, 100)
        .unwrap();
    assert_eq!(
        actions,
        vec![
            Action::MintKton { who: 11, value: 29_999, months: 36 },
            Action::LockRing { who: 11, amount: 29_999 },
        ]
    );
    let ledger = module.ledger(10).unwrap();
    assert_eq!((ledger.normal_ring, ledger.regular_ring, ledger.active_ring), (0, 29_999, 29_999));
    assert_eq!((ledger.total_power, ledger.active_power), (2, 2));
    assert_eq!(
        ledger.regular_items,
        vec![RegularItem { value: 29_999, expire_time: 100 + 36 * MONTH }]
    );
}

#[test]
fn bonding_kton() {
    let mut module = empty();
    let actions = module
        .bond(11, Ok(10), StakingBalance::Kton(70), RewardDestination::Stash, 12, 60, 0)
        .unwrap();
    assert_eq!(actions, vec![Action::LockKton { who: 11, amount: 60 }]);
    let ledger = module.ledger(10).unwrap();
    assert_eq!((ledger.normal_kton, ledger.active_kton), (60, 60));
    assert_eq!((ledger.total_power, ledger.active_power), (60, 60));
    assert!(ledger.regular_items.is_empty());
}

#[test]
fn no_more_is_bonded_than_the_balance() {
    let mut module = empty();
    module
        .bond(11, Ok(10), StakingBalance::Ring(50), RewardDestination::Stash, 0, 30, 0)
        .unwrap();
    assert_eq!(module.ledger(10).unwrap().normal_ring, 30);
    let actions = module.bond_extra(11, StakingBalance::Ring(50), 0, 45, 0).unwrap();
    assert_eq!(actions, vec![Action::LockRing { who: 11, amount: 45 }]);
    assert_eq!(module.bond_extra(11, StakingBalance::Ring(50), 0, 44, 0), Ok(vec![]));
    assert_eq!(module.ledger(10).unwrap().normal_ring, 45);
}

#[test]
fn bonding_more_of_both_currencies() {
    let mut module = empty();
    module
        .bond(11, Ok(10), StakingBalance::Ring(10_000), RewardDestination::Stash, 0, 10_000, 0)
        .unwrap();
    let kton = module.bond_extra(11, StakingBalance::Kton(5), 3, 9, 0).unwrap();
    assert_eq!(kton, vec![Action::LockKton { who: 11, amount: 5 }]);
    let ring = module.bond_extra(11, StakingBalance::Ring(20_000), 1, 100_000, 1).unwrap();
    assert_eq!(
        ring,
        vec![
            Action::MintKton { who: 11, value: 20_000, months: 1 },
            Action::LockRing { who: 11, amount: 30_000 },
        ]
    );
    let ledger = module.ledger(10).unwrap();
    assert_eq!((ledger.normal_ring, ledger.regular_ring), (10_000, 20_000));
    assert_eq!((ledger.total_power, ledger.active_power), (8, 8));
    assert_eq!(ledger.active_ring, 30_000);
    let none = module.bond_extra(11, StakingBalance::Kton(5), 0, 4, 0);
    assert_eq!(none, Ok(vec![]));
}

#[test]
fn refused_bonds_change_nothing() {
    let mut module = empty();
    let ring = StakingBalance::Ring(5);
    let stash = RewardDestination::Stash;
    assert_eq!(module.bond(11, Ok(10), ring, stash, 37, 9, 0), Err(Error::TooManyMonths));
    assert_eq!(module.bond(11, Err("gone"), ring, stash, 0, 9, 0), Err(Error::Lookup("gone")));
    assert_eq!(module.bonded(11), None);
    assert_eq!(module.ledger(10), None);
    module.bond(11, Ok(10), ring, stash, 0, 9, 0).unwrap();
    assert_eq!(module.bond(11, Ok(12), ring, stash, 0, 9, 0), Err(Error::StashBonded));
    assert_eq!(module.bond(13, Ok(10), ring, stash, 0, 9, 0), Err(Error::ControllerPaired));
    assert_eq!(module.bonded(13), None);
    assert_eq!(module.bonded(11), Some(10));
    assert_eq!(module.bond_extra(11, ring, 37, 9, 0), Err(Error::TooManyMonths));
    assert_eq!(module.bond_extra(13, ring, 0, 9, 0), Err(Error::NotStash));
    module.bonded.insert(13, 99);
    assert_eq!(module.bond_extra(13, ring, 0, 9, 0), Err(Error::NotController));
    assert_eq!(module.ledger(10).unwrap().normal_ring, 5);
}

#[test]
fn sums_that_do_not_fit_are_foreseen() {
    let mut module = empty();
    module
        .bond(11, Ok(10), StakingBalance::Ring(5), RewardDestination::Stash, 0, 9, 0)
        .unwrap();
    assert!(module.bond_extra_fits(11, StakingBalance::Ring(4), 36, 9, 0));
    assert!(!module.bond_extra_fits(11, StakingBalance::Ring(4), 1, 9, u64::MAX));
    assert!(module.bond_extra_fits(11, StakingBalance::Ring(4), 0, 9, u64::MAX));
    assert!(module.bond_extra_fits(12, StakingBalance::Ring(4), 1, 9, u64::MAX));
    module.ledger.get_mut(&10).unwrap().active_kton = u128::MAX;
    assert!(!module.bond_extra_fits(11, StakingBalance::Kton(4), 0, 9, 0));
}

#[test]
fn a_bond_fits_unless_its_promise_ends_too_late() {
    let mut module = empty();
    let stash = RewardDestination::Stash;
    let ring = StakingBalance::Ring(5);
    let last = u64::MAX - 12 * MONTH;
    assert!(module.bond_fits(11, Ok(10), ring, stash, 12, 5, last));
    assert!(!module.bond_fits(11, Ok(10), ring, stash, 12, 5, last + 1));
    assert!(module.bond_fits(11, Ok(10), ring, stash, 0, 5, u64::MAX));
    assert!(module.bond_fits(11, Ok(10), StakingBalance::Kton(5), stash, 12, 5, u64::MAX));
    assert!(module.bond_fits(11, Ok(10), ring, stash, 37, 5, u64::MAX));
    assert!(module.bond_fits(11, Err("no such account"), ring, stash, 12, 5, u64::MAX));
    module.bond(11, Ok(10), ring, stash, 12, 5, last).unwrap();
    assert_eq!(module.ledger(10).unwrap().regular_items[0].expire_time, u64::MAX);
    assert!(module.bond_fits(11, Ok(12), ring, stash, 12, 5, u64::MAX));
    assert!(module.bond_fits(13, Ok(10), ring, stash, 12, 5, u64::MAX));
}

#[test]
fn a_promise_changes_where_ring_goes_and_earns_kton() {
    let (mut promised, mut normal) = (empty(), empty());
    let (ring, stash) = (StakingBalance::Ring(30_000), RewardDestination::Stash);
    let with = promised.bond(11, Ok(10), ring, stash, 12, 90_000, 0).unwrap();
    let without = normal.bond(11, Ok(10), ring, stash, 0, 90_000, 0).unwrap();
    let lock = Action::LockRing { who: 11, amount: 30_000 };
    assert_eq!(with, vec![Action::MintKton { who: 11, value: 30_000, months: 12 }, lock]);
    assert_eq!(without, vec![lock]);
    let (a, b) = (promised.ledger(10).unwrap(), normal.ledger(10).unwrap());
    assert_eq!((a.total_power, a.active_power, a.active_ring), (3, 3, 30_000));
    assert_eq!((b.total_power, b.active_power, b.active_ring), (3, 3, 30_000));
    assert_eq!((a.normal_ring, a.regular_ring), (0, 30_000));
    assert_eq!((b.normal_ring, b.regular_ring), (30_000, 0));
}

#[test]
fn the_lock_covers_the_ledger_whatever_is_added() {
    for (value, months) in [(1, 0), (700, 0), (700, 6)] {
        let mut module = empty();
        let stash = RewardDestination::Stash;
        module.bond(11, Ok(10), StakingBalance::Ring(300), stash, 0, 1_000, 0).unwrap();
        let actions =
            module.bond_extra(11, StakingBalance::Ring(value), months, 1_000, 0).unwrap();
        let lock = Action::LockRing { who: 11, amount: 300 + value };
        assert_eq!(actions.last(), Some(&lock));
    }
}
