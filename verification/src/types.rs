//! The data of the staking module.
use vstd::prelude::*;

verus! {

/// An account.
pub type AccountId = u64;

/// An amount of RING or KTON.
pub type Balance = u128;

/// Counter for the number of eras that have passed.
pub type EraIndex = u32;

/// Counter for the number of eras per epoch.
pub type ErasNums = u32;

/// Counter for the number of sessions that have passed.
pub type SessionIndex = u32;

/// Weight of a stake in the choice of validators.
pub type PowerBalance = u128;

/// A point in time, in seconds.
pub type Moment = u64;

/// The result of looking up an account: the account, or why there is none.
pub type Found = Result<AccountId, &'static str>;

/// The number of a block.
pub type BlockNumber = u64;

/// What an account does with its stake.
#[derive(Debug, Clone)]
pub enum StakerStatus<AccountId> {
    /// Chilling.
    Idle,
    /// Declared desire in validating or already participating in it.
    Validator,
    /// Nominating for a group of other stakers.
    Nominator(Vec<AccountId>),
}

/// How a validator wants to be treated.
#[derive(Debug, Clone, Copy, PartialEq, Eq)]
pub struct ValidatorPrefs<RingBalance> {
    /// Validator should ensure this many more slashes than is necessary before being unstaked.
    pub unstake_threshold: u32,
    /// Percent of the reward that the validator takes up-front; only the rest is split between
    /// themselves and nominators.
    pub validator_payment_ratio: RingBalance,
}

impl<R: Default> Default for ValidatorPrefs<R> {
    /// A threshold of three, and the default ratio.
    fn default() -> (prefs: Self)
        ensures
            prefs.unstake_threshold == 3,
            call_ensures(R::default, (), prefs.validator_payment_ratio),
    {
        ValidatorPrefs { unstake_threshold: 3, validator_payment_ratio: R::default() }
    }
}

/// Telling the two currencies apart.
pub trait Distinguish<RingBalance, KtonBalance> {
    /// Whether this is RING, and the amount if it is RING.
    fn is_ring(&self) -> (bool, Option<RingBalance>);

    /// Whether this is KTON, and the amount if it is KTON.
    fn is_kton(&self) -> (bool, Option<KtonBalance>);
}

/// An amount in one of the two currencies.
#[derive(Debug, Clone, Copy, PartialEq, Eq)]
pub enum StakingBalance<RingBalance, KtonBalance> {
    Ring(RingBalance),
    Kton(KtonBalance),
}

impl<RingBalance: Copy, KtonBalance: Copy> Distinguish<RingBalance, KtonBalance> for StakingBalance<
    RingBalance,
    KtonBalance,
> {
    fn is_ring(&self) -> (r: (bool, Option<RingBalance>))
        ensures
            *self matches StakingBalance::Ring(ring) ==> r == (true, Some(ring)),
            *self is Kton ==> r == (false, None::<RingBalance>),
    {
        match self {
            StakingBalance::Ring(r) => (true, Some(*r)),
            StakingBalance::Kton(_) => (false, None),
        }
    }

    fn is_kton(&self) -> (r: (bool, Option<KtonBalance>))
        ensures
            *self is Ring ==> r == (false, None::<KtonBalance>),
            *self matches StakingBalance::Kton(kton) ==> r == (true, Some(kton)),
    {
        match self {
            StakingBalance::Ring(_) => (false, None),
            StakingBalance::Kton(k) => (true, Some(*k)),
        }
    }
}

impl<RingBalance: Default, KtonBalance: Default> Default for StakingBalance<
    RingBalance,
    KtonBalance,
> {
    /// The default amount of RING.
    fn default() -> (balance: Self)
        ensures
            balance matches StakingBalance::Ring(r) && call_ensures(RingBalance::default, (), r),
    {
        StakingBalance::Ring(RingBalance::default())
    }
}

/// A destination account for payment.
#[derive(Debug, Clone, Copy, PartialEq, Eq, Structural)]
pub enum RewardDestination {
    /// Pay into the stash account, not increasing the amount at stake.
    Stash,
    /// Pay into the controller account.
    Controller,
}

impl Default for RewardDestination {
    /// The stash account.
    fn default() -> (destination: Self)
        ensures
            destination == RewardDestination::Stash,
    {
        RewardDestination::Stash
    }
}

/// Funds on their way out of the stake.
#[derive(Debug, Clone, Copy, PartialEq, Eq)]
pub struct UnlockChunk<StakingBalance, Power> {
    /// Amount of funds to be unlocked.
    pub value: StakingBalance,
    /// Era number at which point it'll be unlocked.
    pub era: EraIndex,
    /// Power that goes with the funds.
    pub dt_power: Power,
}

/// RING that was promised to stay bonded.
#[derive(Debug, Clone, Copy, PartialEq, Eq)]
pub struct RegularItem<RingBalance, Moment> {
    /// Amount that is still under the promise.
    pub value: RingBalance,
    /// When the promise ends.
    pub expire_time: Moment,
}

/// What one controller has at stake.
#[derive(Debug, Clone, PartialEq, Eq)]
pub struct StakingLedgers<AccountId, RingBalance, KtonBalance, StakingBalance, Power, Moment> {
    /// The account whose funds are at stake.
    pub stash: AccountId,
    /// Power of everything in the ledger.
    pub total_power: Power,
    /// Power of what is not on its way out.
    pub active_power: Power,
    /// RING under no promise; with `regular_ring` it makes the total RING.
    pub normal_ring: RingBalance,
    /// RING under a promise.
    pub regular_ring: RingBalance,
    /// RING that counts as staked.
    pub active_ring: RingBalance,
    /// KTON, all of it.
    pub normal_kton: KtonBalance,
    /// KTON that counts as staked.
    pub active_kton: KtonBalance,
    /// The promises, in the order in which they were made.
    pub regular_items: Vec<RegularItem<RingBalance, Moment>>,
    /// Funds on their way out, in the order in which they were unbonded.
    pub unlocking: Vec<UnlockChunk<StakingBalance, Power>>,
}

impl<
    AccountId: Default,
    RingBalance: Default,
    KtonBalance: Default,
    StakingBalance,
    Power: Default,
    Moment,
> Default for StakingLedgers<AccountId, RingBalance, KtonBalance, StakingBalance, Power, Moment> {
    /// A ledger that holds nothing.
    fn default() -> (ledger: Self)
        ensures
            call_ensures(AccountId::default, (), ledger.stash),
            call_ensures(Power::default, (), ledger.total_power),
            call_ensures(Power::default, (), ledger.active_power),
            call_ensures(RingBalance::default, (), ledger.normal_ring),
            call_ensures(RingBalance::default, (), ledger.regular_ring),
            call_ensures(RingBalance::default, (), ledger.active_ring),
            call_ensures(KtonBalance::default, (), ledger.normal_kton),
            call_ensures(KtonBalance::default, (), ledger.active_kton),
            ledger.regular_items@.len() == 0,
            ledger.unlocking@.len() == 0,
    {
        StakingLedgers {
            stash: AccountId::default(),
            total_power: Power::default(),
            active_power: Power::default(),
            normal_ring: RingBalance::default(),
            regular_ring: RingBalance::default(),
            active_ring: RingBalance::default(),
            normal_kton: KtonBalance::default(),
            active_kton: KtonBalance::default(),
            regular_items: Vec::new(),
            unlocking: Vec::new(),
        }
    }
}

/// The amount of exposure (to slashing) than an individual nominator has.
#[derive(Debug, Clone, Copy, PartialEq, Eq, PartialOrd, Ord)]
pub struct IndividualExposure<AccountId, Power> {
    /// The stash account of the nominator in question.
    pub who: AccountId,
    /// Amount of funds exposed.
    pub value: Power,
}

/// A snapshot of the stake backing a single validator in the system.
#[derive(Debug, Clone, PartialEq, Eq, PartialOrd, Ord)]
pub struct Exposure<AccountId, Power> {
    /// The total balance backing this validator.
    pub total: Power,
    /// The validator's own stash that is exposed.
    pub own: Power,
    /// The portions of nominators stashes that are exposed.
    pub others: Vec<IndividualExposure<AccountId, Power>>,
}

impl<AccountId, Power: Default> Default for Exposure<AccountId, Power> {
    /// A validator with nothing behind it.
    fn default() -> (exposure: Self)
        ensures
            call_ensures(Power::default, (), exposure.total),
            call_ensures(Power::default, (), exposure.own),
            exposure.others@.len() == 0,
    {
        Exposure { total: Power::default(), own: Power::default(), others: Vec::new() }
    }
}

/// What the runtime fixes for the module.
#[derive(Debug, Clone, Copy, PartialEq, Eq)]
pub struct Params {
    /// Number of sessions per era.
    pub sessions_per_era: SessionIndex,
    /// Number of eras that staked funds must remain bonded for.
    pub bonding_duration: EraIndex,
    /// Number of eras per epoch.
    pub eras_per_epoch: ErasNums,
}

/// What the module tells the outside world.
#[derive(Debug, Clone, Copy, PartialEq, Eq)]
pub enum Event<Balance, AccountId> {
    /// All validators have been rewarded by the given balance.
    Reward(Balance),
    /// One validator (and its nominators) has been given an offline-warning (it is still
    /// within its grace). The accrued number of slashes is recorded, too.
    OfflineWarning(AccountId, u32),
    /// One validator (and its nominators) has been slashed by the given amount.
    OfflineSlash(AccountId, Balance),
}

/// The identifier of the staking lock.
pub const STAKING_ID: [u8; 8] = [0x73, 0x74, 0x61, 0x6b, 0x69, 0x6e, 0x67, 0x20];

/// The block at which the staking lock ends, which is never reached.
pub const LOCK_UNTIL: BlockNumber = 0xffff_ffff_ffff_ffff;

/// What has to be done in the currencies after a call.
#[derive(Debug, Clone, Copy, PartialEq, Eq)]
pub enum Action {
    /// Set the lock [`STAKING_ID`] on the RING of `who` to `amount`, until [`LOCK_UNTIL`] and
    /// against every kind of withdrawal.
    LockRing { who: AccountId, amount: Balance },
    /// Set the lock [`STAKING_ID`] on the KTON of `who` to `amount`, until [`LOCK_UNTIL`] and
    /// against every kind of withdrawal.
    LockKton { who: AccountId, amount: Balance },
    /// Mint for `who` the KTON that is earned by the promise to keep `value` RING bonded for
    /// `months` months.
    MintKton { who: AccountId, value: Balance, months: u32 },
}

/// A payment of `amount` RING into the account `who`, if that account exists.
#[derive(Debug, Clone, Copy, PartialEq, Eq)]
pub struct Payout {
    pub who: AccountId,
    pub amount: Balance,
}

/// Why a call is refused.
#[derive(Debug, Clone, Copy, PartialEq, Eq)]
pub enum Error {
    /// More than three years of promise.
    TooManyMonths,
    /// The stash has a controller already.
    StashBonded,
    /// The controller has a ledger already.
    ControllerPaired,
    /// The account is no stash.
    NotStash,
    /// The account is no controller.
    NotController,
    /// Too many chunks are on their way out.
    TooManyChunks,
    /// The unstake threshold is out of range.
    ThresholdTooLarge,
    /// Nobody is nominated.
    NoTargets,
    /// An account could not be looked up, for the reason given.
    Lookup(&'static str),
}

impl Error {
    /// The words for the error.
    pub open spec fn words(self) -> Seq<char> {
        match self {
            Error::TooManyMonths => "months at most is 36."@,
            Error::StashBonded => "stash already bonded"@,
            Error::ControllerPaired => "controller already paired"@,
            Error::NotStash => "not a stash"@,
            Error::NotController => "not a controller"@,
            Error::TooManyChunks => "can not schedule more unlock chunks"@,
            Error::ThresholdTooLarge => "unstake threshold too large"@,
            Error::NoTargets => "targets cannot be empty"@,
            Error::Lookup(reason) => reason@,
        }
    }

    /// The error in words.
    pub fn message(&self) -> (message: &'static str)
        ensures
            message@ == self.words(),
    {
        match self {
            Error::TooManyMonths => "months at most is 36.",
            Error::StashBonded => "stash already bonded",
            Error::ControllerPaired => "controller already paired",
            Error::NotStash => "not a stash",
            Error::NotController => "not a controller",
            Error::TooManyChunks => "can not schedule more unlock chunks",
            Error::ThresholdTooLarge => "unstake threshold too large",
            Error::NoTargets => "targets cannot be empty",
            Error::Lookup(reason) => reason,
        }
    }
}

} // verus!
