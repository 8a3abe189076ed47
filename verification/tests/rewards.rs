use staking::genesis::GenesisConfig;
use staking::module::Module;
use staking::types::{
    Event, Exposure, IndividualExposure, Params, Payout, RewardDestination, StakingBalance,
    ValidatorPrefs,
};

const PARAMS: Params = Params { sessions_per_era: 3, bonding_duration: 5, eras_per_epoch: 2 };

fn empty() -> Module {
    Module::genesis(GenesisConfig::default(), PARAMS, &vec![], 0).0
}

fn backed(own: u128, others: &[(u64, u128)]) -> Module {
    let mut module = empty();
    module
        .bond(11, Ok(10), StakingBalance::Ring(5), RewardDestination::Stash, 0, 5, 0)
        .unwrap();
    let total = own + others.iter().map(|o| o.1).sum::<u128>();
    let others = others.iter().map(|o| IndividualExposure { who: o.0, value: o.1 }).collect();
    module.stakers.insert(11, Exposure { total, own, others });
    module
}

#[test]
fn a_reward_is_split_by_stake() {
    let module = backed(500, &[(21, 300), (31, 200)]);
    assert_eq!(
        module.reward_validator(11, 1_000),
        vec![
            Payout { who: 21, amount: 300 },
            Payout { who: 31, amount: 200 },
            Payout { who: 11, amount: 500 },
        ]
    );
    assert_eq!(module.slashable_balance(&11), 1_000);
    assert_eq!(module.slashable_balance(&12), 0);
}

#[test]
fn validators_take_their_percentage_first() {
    let mut module = backed(500, &[(21, 500)]);
    module.validate(10, vec![], 40, 3).unwrap();
    assert_eq!(
        module.reward_validator(11, 1_000),
        vec![Payout { who: 21, amount: 300 }, Payout { who: 11, amount: 700 }]
    );
    module.validate(10, vec![], 100, 3).unwrap();
    assert_eq!(module.reward_validator(11, 1_000), vec![Payout { who: 11, amount: 1_000 }]);
}

#[test]
fn a_ratio_is_a_percentage() {
    let mut module = backed(50, &[(21, 50)]);
    let prefs = |ratio| ValidatorPrefs { unstake_threshold: 3, validator_payment_ratio: ratio };
    module.validators.insert(11, prefs(50));
    assert_eq!(
        module.reward_validator(11, 1_000),
        vec![Payout { who: 21, amount: 250 }, Payout { who: 11, amount: 750 }]
    );
    module.validators.insert(11, prefs(1_000_000));
    assert_eq!(module.reward_validator(11, 1_000), vec![Payout { who: 11, amount: 1_000 }]);
}

#[test]
fn shares_are_rounded_to_the_nearest() {
    let module = backed(1, &[(21, 1), (31, 1)]);
    assert_eq!(
        module.reward_validator(11, 5),
        vec![
            Payout { who: 21, amount: 2 },
            Payout { who: 31, amount: 2 },
            Payout { who: 11, amount: 2 },
        ]
    );
    let halves = backed(1, &[(21, 1)]);
    assert_eq!(
        halves.reward_validator(11, 5),
        vec![Payout { who: 21, amount: 2 }, Payout { who: 11, amount: 2 }]
    );
}

#[test]
fn large_stakes_are_scaled_down() {
    // The total is scaled by three, to 666_666_667, and the nominator by it to 233_333_333.
    let module = backed(1_300_000_001, &[(21, 700_000_001)]);
    assert_eq!(module.stakers(11).total, 2_000_000_002);
    assert_eq!(
        module.reward_validator(11, 1_000_000_000),
        vec![
            Payout { who: 21, amount: 349_999_999 },
            Payout { who: 11, amount: 649_999_999 },
        ]
    );
}

#[test]
fn nobody_behind_a_validator() {
    let module = empty();
    assert_eq!(module.reward_validator(11, 100), vec![Payout { who: 11, amount: 0 }]);
    assert_eq!(module.reward_validator(11, 0), vec![Payout { who: 11, amount: 0 }]);
}

#[test]
fn rewards_go_where_they_are_wanted() {
    let mut module = backed(50, &[(21, 50)]);
    module.set_payee(10, RewardDestination::Controller).unwrap();
    module.payee.insert(21, RewardDestination::Controller);
    assert_eq!(module.reward_validator(11, 100), vec![Payout { who: 10, amount: 50 }]);
    module.bonded.insert(21, 20);
    assert_eq!(
        module.reward_validator(11, 100),
        vec![Payout { who: 20, amount: 50 }, Payout { who: 10, amount: 50 }]
    );
}

#[test]
fn an_era_pays_each_elected_validator_the_same() {
    let mut module = backed(50, &[(21, 50)]);
    module.current_elected = vec![11, 12];
    module.session_reward = 500_000_000;
    module.current_era_total_reward = 401;
    assert_eq!(module.era_reward(), 200);
    let rewards = module.era_rewards();
    assert_eq!(rewards.event, Some(Event::Reward(100)));
    assert_eq!(
        rewards.payouts,
        vec![
            vec![Payout { who: 21, amount: 50 }, Payout { who: 11, amount: 50 }],
            vec![Payout { who: 12, amount: 0 }],
        ]
    );
}

#[test]
fn an_era_without_a_reward_pays_nobody() {
    let mut module = backed(50, &[]);
    assert_eq!(module.session_reward, 60);
    module.current_era_total_reward = 8_000_000;
    let rewards = module.era_rewards();
    assert_eq!(rewards.event, None);
    assert!(rewards.payouts.is_empty());
    module.current_elected = vec![11];
    module.current_era_total_reward = 9_000_000;
    assert_eq!(module.era_rewards().event, Some(Event::Reward(1)));
}

#[test]
fn no_more_than_the_whole_is_paid() {
    let mut module = empty();
    module.session_reward = 2_000_000_000;
    module.current_era_total_reward = u128::MAX;
    assert_eq!(module.era_reward(), u128::MAX);
}
