use staking::genesis::GenesisConfig;
use staking::module::Module;
use staking::types::{Error, Found, Params, RewardDestination, StakingBalance, ValidatorPrefs};

const PARAMS: Params = Params { sessions_per_era: 3, bonding_duration: 5, eras_per_epoch: 2 };

fn empty() -> Module {
    Module::genesis(GenesisConfig::default(), PARAMS, &vec![], 0).0
}

fn with_stash() -> Module {
    let mut module = empty();
    module
        .bond(11, Ok(10), StakingBalance::Ring(5), RewardDestination::Stash, 0, 5, 0)
        .unwrap();
    module
}

#[test]
fn validating() {
    let mut module = with_stash();
    module.validate(10, vec![1, 2], 35, 10).unwrap();
    assert_eq!(
        module.validators(11),
        ValidatorPrefs { unstake_threshold: 10, validator_payment_ratio: 35 }
    );
    assert_eq!(module.node_name(11), vec![1, 2]);
    module.validate(10, vec![3], 101, 0).unwrap();
    assert_eq!(
        module.validators(11),
        ValidatorPrefs { unstake_threshold: 0, validator_payment_ratio: 100 }
    );
    assert_eq!(module.node_name(11), vec![1, 2]);
    assert_eq!(
        module.validators(12),
        ValidatorPrefs { unstake_threshold: 3, validator_payment_ratio: 0 }
    );
    assert_eq!(module.node_name(12), vec![]);
}

#[test]
fn refused_validations() {
    let mut module = with_stash();
    assert_eq!(module.validate(11, vec![], 0, 3), Err(Error::NotController));
    assert_eq!(module.validate(10, vec![], 0, 11), Err(Error::ThresholdTooLarge));
    assert!(module.validators.is_empty());
}

#[test]
fn nominating() {
    let mut module = with_stash();
    module.validate(10, vec![1], 0, 3).unwrap();
    module.nominate(10, vec![Ok(21), Ok(31)]).unwrap();
    assert_eq!(module.nominators(11), vec![21, 31]);
    assert!(!module.validators.contains_key(&11));
    module.validate(10, vec![2], 0, 3).unwrap();
    assert_eq!(module.nominators(11), vec![]);
    assert!(module.validators.contains_key(&11));
}

#[test]
fn only_the_first_targets_count() {
    let mut module = with_stash();
    let mut targets: Vec<Found> = (0..16).map(|a| Ok(a)).collect();
    targets.push(Err("never looked at"));
    module.nominate(10, targets).unwrap();
    assert_eq!(module.nominators(11), (0..16).collect::<Vec<u64>>());
}

#[test]
fn refused_nominations() {
    let mut module = with_stash();
    assert_eq!(module.nominate(11, vec![Ok(1)]), Err(Error::NotController));
    assert_eq!(module.nominate(10, vec![]), Err(Error::NoTargets));
    assert_eq!(
        module.nominate(10, vec![Ok(1), Err("first"), Err("second")]),
        Err(Error::Lookup("first"))
    );
    assert!(module.nominators.is_empty());
}

#[test]
fn chilling() {
    let mut module = with_stash();
    module.validate(10, vec![1], 0, 3).unwrap();
    module.chill(10).unwrap();
    assert!(module.validators.is_empty());
    module.nominate(10, vec![Ok(1)]).unwrap();
    module.chill(10).unwrap();
    assert!(module.nominators.is_empty());
    assert_eq!(module.chill(11), Err(Error::NotController));
}

#[test]
fn setting_the_payee() {
    let mut module = with_stash();
    module.set_payee(10, RewardDestination::Controller).unwrap();
    assert_eq!(module.payee(11), RewardDestination::Controller);
    assert_eq!(module.payee(10), RewardDestination::Stash);
    assert_eq!(
        module.set_payee(11, RewardDestination::Controller),
        Err(Error::NotController)
    );
}

#[test]
fn changing_the_controller_and_back() {
    let mut module = with_stash();
    let ledger = module.ledger(10);
    module.set_controller(11, Ok(20)).unwrap();
    assert_eq!(module.bonded(11), Some(20));
    assert_eq!(module.ledger(20), ledger);
    assert_eq!(module.ledger(10), None);
    module.set_controller(11, Ok(10)).unwrap();
    assert_eq!(module.bonded(11), Some(10));
    assert_eq!(module.ledger(10), ledger);
    assert_eq!(module.ledger(20), None);
}

#[test]
fn refused_changes_of_the_controller() {
    let mut module = with_stash();
    assert_eq!(module.set_controller(10, Ok(20)), Err(Error::NotStash));
    assert_eq!(module.set_controller(11, Err("gone")), Err(Error::Lookup("gone")));
    assert_eq!(module.set_controller(11, Ok(10)), Err(Error::ControllerPaired));
    assert_eq!(module.bonded(11), Some(10));
}

#[test]
fn calls_of_the_root() {
    let mut module = empty();
    module.set_validator_count(7);
    module.set_offline_slash_grace(8);
    module.set_invulnerables(vec![1, 2]);
    module.force_new_era();
    assert_eq!(module.validator_count, 7);
    assert_eq!(module.offline_slash_grace, 8);
    assert_eq!(module.invulnerables, vec![1, 2]);
    assert!(module.force_new_era);
}

#[test]
fn a_stash_with_nothing_left_is_forgotten() {
    let mut module = with_stash();
    module.validate(10, vec![9], 0, 3).unwrap();
    module.set_payee(10, RewardDestination::Controller).unwrap();
    module.slash_count.insert(11, 2);
    assert_eq!(module.slash_count(11), 2);
    module.on_free_balance_zero(11);
    assert_eq!(module.bonded(11), None);
    assert_eq!(module.ledger(10), None);
    assert_eq!(module.payee(11), RewardDestination::Stash);
    assert_eq!(module.slash_count(11), 0);
    assert!(module.validators.is_empty());
    assert_eq!(module.node_name(11), vec![9]);
    module
        .bond(11, Ok(10), StakingBalance::Ring(5), RewardDestination::Stash, 0, 5, 0)
        .unwrap();
}
