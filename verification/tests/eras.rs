use staking::genesis::GenesisConfig;
use staking::module::Module;
use staking::types::Params;

const PARAMS: Params = Params { sessions_per_era: 3, bonding_duration: 5, eras_per_epoch: 2 };

fn empty() -> Module {
    Module::genesis(GenesisConfig::default(), PARAMS, &vec![], 0).0
}

#[test]
fn an_era_has_its_sessions() {
    let mut module = empty();
    module.current_session_reward = 7;
    assert!(!module.on_session_ending(0));
    assert!(!module.on_session_ending(1));
    assert!(module.on_session_ending(2));
    assert_eq!(module.current_era_reward, 21);
    assert_eq!(module.current_era_total_reward, 21);
    assert!(module.new_session(6));
}

#[test]
fn a_forced_era_begins_at_once_and_only_once() {
    let mut module = empty();
    module.force_new_era();
    assert!(module.new_session(1));
    assert!(!module.force_new_era);
    assert!(!module.new_session(1));
}

#[test]
fn an_epoch_has_its_eras() {
    let mut module = empty();
    assert!(module.epoch_ends());
    assert_eq!(module.new_era(Some(90)), None);
    assert_eq!((module.current_era, module.epoch_index), (1, 1));
    assert_eq!(module.current_era_total_reward, 90);
    assert!(!module.epoch_ends());
    assert_eq!(module.new_era(Some(50)), None);
    assert_eq!((module.current_era, module.epoch_index), (2, 1));
    assert_eq!(module.current_era_total_reward, 0);
    module.current_era_total_reward = 90;
    assert_eq!(module.new_era(None), None);
    assert_eq!((module.current_era, module.epoch_index), (3, 2));
    assert_eq!(module.current_era_total_reward, 0);
    module.new_epoch(Some(1));
    assert_eq!((module.epoch_index, module.current_era_total_reward), (3, 1));
    module.new_epoch(None);
    assert_eq!((module.epoch_index, module.current_era_total_reward), (4, 1));
}

#[test]
fn a_reward_accumulates_over_the_sessions_of_an_era() {
    let mut module = empty();
    module.current_session_reward = 4;
    module.current_era_total_reward = 10;
    assert!(!module.new_session(1));
    assert_eq!((module.current_era_total_reward, module.current_era_reward), (14, 4));
    assert!(!module.new_session(2));
    assert!(module.new_session(3));
    assert_eq!((module.current_era_total_reward, module.current_era_reward), (22, 12));
    module.current_era = 1;
    assert_eq!(module.new_era(Some(90)), None);
    assert_eq!((module.current_era_total_reward, module.current_era_reward), (0, 12));
    assert!(!module.new_session(4));
    assert_eq!((module.current_era_total_reward, module.current_era_reward), (4, 16));
    assert_eq!(module.new_era(Some(90)), None);
    assert!(!module.new_session(5));
    assert_eq!((module.current_era_total_reward, module.current_era_reward), (94, 20));
}

#[test]
fn an_era_forced_twice_comes_once() {
    let mut module = empty();
    module.force_new_era();
    module.force_new_era();
    for session in [4, 5] {
        if module.new_session(session) {
            module.new_era(None);
        }
    }
    assert_eq!(module.current_era, 1);
}
