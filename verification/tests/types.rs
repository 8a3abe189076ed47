use staking::types::{
    Distinguish, Error, Exposure, RewardDestination, StakingBalance, StakingLedgers, ValidatorPrefs,
    LOCK_UNTIL, STAKING_ID,
};

type Amount = StakingBalance<u128, u128>;

#[test]
fn ring_is_told_from_kton() {
    let ring: Amount = StakingBalance::Ring(7);
    let kton: Amount = StakingBalance::Kton(8);
    assert_eq!(ring.is_ring(), (true, Some(7)));
    assert_eq!(kton.is_ring(), (false, None));
    assert_eq!(ring.is_kton(), (false, None));
    assert_eq!(kton.is_kton(), (true, Some(8)));
}

#[test]
fn the_lock_has_a_name_and_no_end() {
    assert_eq!(&STAKING_ID, b"staking ");
    assert_eq!(LOCK_UNTIL, u64::MAX);
}

#[test]
fn defaults_hold_nothing() {
    assert_eq!(
        ValidatorPrefs::<u128>::default(),
        ValidatorPrefs { unstake_threshold: 3, validator_payment_ratio: 0 }
    );
    assert_eq!(Amount::default(), StakingBalance::Ring(0));
    assert_eq!(RewardDestination::default(), RewardDestination::Stash);
    let exposure = Exposure::<u64, u128>::default();
    assert_eq!(exposure, Exposure { total: 0, own: 0, others: vec![] });
    let ledger = StakingLedgers::<u64, u128, u128, Amount, u128, u64>::default();
    assert_eq!(ledger.stash, 0);
    assert_eq!(ledger.total_power, 0);
    assert_eq!(ledger.normal_ring, 0);
    assert!(ledger.regular_items.is_empty());
    assert!(ledger.unlocking.is_empty());
}

#[test]
fn errors_have_words() {
    assert_eq!(Error::TooManyMonths.message(), "months at most is 36.");
    assert_eq!(Error::StashBonded.message(), "stash already bonded");
    assert_eq!(Error::ControllerPaired.message(), "controller already paired");
    assert_eq!(Error::NotStash.message(), "not a stash");
    assert_eq!(Error::NotController.message(), "not a controller");
    assert_eq!(Error::TooManyChunks.message(), "can not schedule more unlock chunks");
    assert_eq!(Error::ThresholdTooLarge.message(), "unstake threshold too large");
    assert_eq!(Error::NoTargets.message(), "targets cannot be empty");
    assert_eq!(Error::Lookup("no such account").message(), "no such account");
}
