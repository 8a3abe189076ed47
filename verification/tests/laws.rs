use staking::genesis::GenesisConfig;
use staking::module::Module;
use staking::types::{
    Action, Exposure, IndividualExposure, Params, Payout, RewardDestination, StakingBalance,
};
use std::collections::BTreeMap;

const PARAMS: Params = Params { sessions_per_era: 3, bonding_duration: 5, eras_per_epoch: 2 };

const YEAR: u64 = 12 * 2_592_000;

fn empty() -> Module {
    Module::genesis(GenesisConfig::default(), PARAMS, &vec![], 0).0
}

fn is_sound(module: &Module) -> bool {
    let paired = module.bonded.iter().all(|(stash, c)| module.ledger[c].stash == *stash)
        && module.ledger.iter().all(|(c, l)| module.bonded[&l.stash] == *c);
    let apart = module.validators.keys().all(|s| !module.nominators.contains_key(s));
    let adds_up = module.ledger.values().all(|l| {
        let pending: u128 = l.unlocking.iter().map(|c| c.dt_power).sum();
        let promised: u128 = l.regular_items.iter().map(|i| i.value).sum();
        l.total_power == l.active_power + pending && promised <= l.regular_ring
    });
    paired && apart && adds_up
}

struct Locks {
    ring: BTreeMap<u64, u128>,
    kton: BTreeMap<u64, u128>,
}

impl Locks {
    fn perform(&mut self, actions: Vec<Action>) {
        for action in actions {
            match action {
                Action::LockRing { who, amount } => {
                    self.ring.insert(who, amount);
                }
                Action::LockKton { who, amount } => {
                    self.kton.insert(who, amount);
                }
                Action::MintKton { .. } => {}
            }
        }
    }

    fn cover(&self, module: &Module) -> bool {
        module.ledger.values().all(|l| {
            let ring = self.ring.get(&l.stash).copied().unwrap_or(0);
            let kton = self.kton.get(&l.stash).copied().unwrap_or(0);
            ring == l.normal_ring + l.regular_ring && kton == l.normal_kton
        })
    }
}

#[test]
fn locks_and_the_invariant_hold_throughout() {
    let mut module = empty();
    let mut locks = Locks { ring: BTreeMap::new(), kton: BTreeMap::new() };
    let stash = RewardDestination::Stash;
    let a = module.bond(11, Ok(10), StakingBalance::Ring(90_000), stash, 12, 90_000, 0).unwrap();
    locks.perform(a);
    assert!(is_sound(&module) && locks.cover(&module));
    let a = module.bond(21, Ok(20), StakingBalance::Kton(70), stash, 0, 70, 0).unwrap();
    locks.perform(a);
    assert!(is_sound(&module) && locks.cover(&module));
    let a = module.bond_extra(11, StakingBalance::Ring(50_000), 0, 150_000, 0).unwrap();
    locks.perform(a);
    assert!(is_sound(&module) && locks.cover(&module));
    module.unbond(10, StakingBalance::Ring(60_000), true, YEAR).unwrap();
    assert!(is_sound(&module) && locks.cover(&module));
    module.unbond(20, StakingBalance::Kton(30), true, 0).unwrap();
    module.validate(10, vec![], 0, 3).unwrap();
    module.nominate(20, vec![Ok(11)]).unwrap();
    module.set_controller(21, Ok(22)).unwrap();
    assert!(is_sound(&module) && locks.cover(&module));
    module.current_era = 5;
    let a = module.withdraw_unbonded(10).unwrap();
    locks.perform(a);
    let a = module.withdraw_unbonded(22).unwrap();
    locks.perform(a);
    assert!(is_sound(&module) && locks.cover(&module));
    assert_eq!((locks.ring[&11], locks.kton[&21]), (80_000, 40));
}

#[test]
fn a_withdrawal_in_between_changes_nothing() {
    let mut one = empty();
    let mut other = empty();
    for module in [&mut one, &mut other] {
        module
            .bond(11, Ok(10), StakingBalance::Kton(50), RewardDestination::Stash, 0, 50, 0)
            .unwrap();
        module.unbond(10, StakingBalance::Kton(20), false, 0).unwrap();
        module.current_era = 1;
        module.unbond(10, StakingBalance::Kton(25), false, 0).unwrap();
    }
    one.current_era = 5;
    one.withdraw_unbonded(10).unwrap();
    assert_eq!(one.ledger(10).unwrap().normal_kton, 30);
    one.current_era = 6;
    one.withdraw_unbonded(10).unwrap();
    other.current_era = 6;
    other.withdraw_unbonded(10).unwrap();
    assert_eq!(one.ledger(10), other.ledger(10));
    assert_eq!(one.ledger(10).unwrap().normal_kton, 5);
}

#[test]
fn unbonding_takes_nothing_out() {
    let mut module = empty();
    module
        .bond(11, Ok(10), StakingBalance::Ring(90_000), RewardDestination::Stash, 12, 90_000, 0)
        .unwrap();
    module.unbond(10, StakingBalance::Ring(40_000), true, YEAR).unwrap();
    let ledger = module.ledger(10).unwrap();
    assert_eq!(ledger.normal_ring + ledger.regular_ring, 90_000);
    assert_eq!((ledger.total_power, ledger.active_power), (9, 5));
}

#[test]
fn more_stake_is_paid_more() {
    let mut module = empty();
    let others = vec![
        IndividualExposure { who: 21, value: 10 },
        IndividualExposure { who: 31, value: 20 },
    ];
    module.stakers.insert(11, Exposure { total: 30, own: 0, others });
    let payouts = module.reward_validator(11, 100);
    assert_eq!(
        payouts,
        vec![
            Payout { who: 21, amount: 33 },
            Payout { who: 31, amount: 67 },
            Payout { who: 11, amount: 0 },
        ]
    );
}

#[test]
fn time_leaves_what_is_at_stake_alone() {
    let mut module = empty();
    module
        .bond(11, Ok(10), StakingBalance::Ring(9), RewardDestination::Controller, 0, 9, 0)
        .unwrap();
    let ledger = module.ledger(10);
    module.current_session_reward = 4;
    module.new_session(3);
    module.new_era(Some(8));
    assert_eq!(module.ledger(10), ledger);
    assert_eq!(module.bonded(11), Some(10));
    assert_eq!(module.payee(11), RewardDestination::Controller);
    assert_eq!(module.current_era_reward, 4);
}
