use staking::genesis::GenesisConfig;
use staking::module::Module;
use staking::types::{Action, Params, StakerStatus, ValidatorPrefs};

const PARAMS: Params = Params { sessions_per_era: 3, bonding_duration: 5, eras_per_epoch: 2 };

fn empty() -> Module {
    Module::genesis(GenesisConfig::default(), PARAMS, &vec![], 0).0
}

#[test]
fn the_first_state_of_nobody() {
    let module = empty();
    assert_eq!(module.minimum_validator_count, 4);
    assert_eq!(module.session_reward, 60);
    assert_eq!(module.offline_slash, 1_000_000);
    assert_eq!(module.slot_stake, 0);
    assert_eq!(module.epoch_index, 0);
    assert!(module.bonded.is_empty());
}

#[test]
fn stakers_of_the_first_hour() {
    let config = GenesisConfig {
        validator_count: 2,
        current_era: 9,
        stakers: vec![
            (11, 10, 30_000, StakerStatus::Validator),
            (21, 20, 20_000, StakerStatus::Nominator(vec![11, 31])),
            (31, 30, 40_000, StakerStatus::Idle),
            (31, 40, 50_000, StakerStatus::Validator),
            (41, 30, 60_000, StakerStatus::Validator),
        ],
        ..GenesisConfig::default()
    };
    let free = vec![30_000, 90_000, 40_000, 50_000, 60_000];
    let (module, actions) = Module::genesis(config, PARAMS, &free, 1);
    assert_eq!(module.validator_count, 2);
    assert_eq!(module.current_era, 9);
    assert_eq!(module.slot_stake, 20_000);
    assert_eq!(
        actions,
        vec![
            Action::MintKton { who: 11, value: 30_000, months: 12 },
            Action::LockRing { who: 11, amount: 30_000 },
            Action::MintKton { who: 21, value: 20_000, months: 12 },
            Action::LockRing { who: 21, amount: 20_000 },
            Action::MintKton { who: 31, value: 40_000, months: 12 },
            Action::LockRing { who: 31, amount: 40_000 },
        ]
    );
    assert_eq!(module.bonded(31), Some(30));
    assert_eq!(module.ledger(40), None);
    assert_eq!(module.bonded(41), None);
    assert_eq!(
        module.validators(11),
        ValidatorPrefs { unstake_threshold: 3, validator_payment_ratio: 0 }
    );
    assert!(module.validators.contains_key(&11));
    assert_eq!(module.node_name(11), vec![0; 8]);
    assert_eq!(module.nominators(21), vec![11, 31]);
    // The controller of 31 has a ledger, so the last staker has it validate.
    assert!(module.validators.contains_key(&31));
    let ledger = module.ledger(10).unwrap();
    assert_eq!(ledger.regular_items[0].expire_time, 1 + 12 * 2_592_000);
}
