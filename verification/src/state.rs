//! The state of the staking module as mathematical values, and what each call makes of it.
use crate::ledger::{
    kton_due, ring_due, Amount, LedgerView, MAX_UNLOCKING_CHUNKS, MONTH_IN_SECONDS,
};
use crate::perbill::{fraction_of, max, min, ratio_parts, BILLION};
use crate::types::{
    AccountId, Action, Balance, BlockNumber, EraIndex, Error, Event, Exposure, Found,
    IndividualExposure, Moment, Params, Payout, PowerBalance, RewardDestination, SessionIndex,
    StakerStatus, StakingBalance, ValidatorPrefs,
};
use vstd::prelude::*;

verus! {

/// The longest promise, in months.
pub const MAX_MONTHS: u32 = 36;

/// The largest unstake threshold that a validator may ask for.
pub const MAX_UNSTAKE_THRESHOLD: u32 = 10;

/// How many of the nominated accounts count.
pub const MAX_NOMINATIONS: usize = 16;

/// How many billionths one percent is.
pub const PARTS_PER_PERCENT: u32 = 10_000_000;

/// The promise that stakers of the first hour are held to, in months.
pub const GENESIS_MONTHS: u32 = 12;

/// The unstake threshold of validators of the first hour.
pub const GENESIS_THRESHOLD: u32 = 3;

/// The stake behind one validator as mathematical values.
#[verifier::ext_equal]
pub struct ExposureView {
    pub total: int,
    pub own: int,
    pub others: Seq<IndividualExposure<AccountId, PowerBalance>>,
}

impl View for Exposure<AccountId, PowerBalance> {
    type V = ExposureView;

    open spec fn view(&self) -> ExposureView {
        ExposureView { total: self.total as int, own: self.own as int, others: self.others@ }
    }
}

/// One staker of the first hour: stash, controller, RING to bond, and what to do with it.
pub type GenesisStaker = (AccountId, AccountId, Balance, StakerStatus<AccountId>);

/// What a call that acts on the currencies comes to.
pub type Outcome = Result<Seq<Action>, Error>;

/// The state of the staking module.
#[verifier::ext_equal]
pub struct State {
    pub params: Params,
    pub validator_count: u32,
    pub minimum_validator_count: u32,
    pub session_reward: u32,
    pub offline_slash: u32,
    pub offline_slash_grace: u32,
    pub invulnerables: Seq<AccountId>,
    pub bonded: Map<AccountId, AccountId>,
    pub ledger: Map<AccountId, LedgerView>,
    pub payee: Map<AccountId, RewardDestination>,
    pub validators: Map<AccountId, ValidatorPrefs<Balance>>,
    pub nominators: Map<AccountId, Seq<AccountId>>,
    pub stakers: Map<AccountId, ExposureView>,
    pub current_elected: Seq<AccountId>,
    pub current_era: EraIndex,
    pub current_session_reward: Balance,
    pub current_era_reward: Balance,
    pub slot_stake: Balance,
    pub slash_count: Map<AccountId, u32>,
    pub recently_offline: Seq<(AccountId, BlockNumber, u32)>,
    pub force_new_era: bool,
    pub epoch_index: BlockNumber,
    pub current_era_total_reward: Balance,
    pub should_offline: Seq<AccountId>,
    pub node_name: Map<AccountId, Seq<u8>>,
}

/// The accounts that were found, or the first failure.
pub open spec fn all_found(targets: Seq<Found>) -> Result<Seq<AccountId>, &'static str>
    decreases targets.len(),
{
    if targets.len() == 0 {
        Ok(Seq::empty())
    } else {
        match all_found(targets.drop_last()) {
            Err(reason) => Err(reason),
            Ok(accounts) => match targets.last() {
                Err(reason) => Err(reason),
                Ok(account) => Ok(accounts.push(account)),
            },
        }
    }
}

/// The targets that count.
pub open spec fn counted(targets: Seq<Found>) -> Seq<Found> {
    targets.take(min(targets.len() as int, MAX_NOMINATIONS as int))
}

/// A payment, if there is one.
pub open spec fn one_payout(payout: Option<Payout>) -> Seq<Payout> {
    match payout {
        Some(p) => seq![p],
        None => Seq::empty(),
    }
}

/// Looking up accounts that are known.
pub open spec fn known(accounts: Seq<AccountId>) -> Seq<Found> {
    accounts.map_values(|account: AccountId| Ok(account))
}

/// Eight zero bytes.
pub open spec fn blank_name() -> Seq<u8> {
    Seq::new(8, |i: int| 0u8)
}

/// The lock on the currency of `value` that covers what the ledger holds of it.
pub open spec fn lock_for(ledger: LedgerView, value: Amount) -> Action {
    match value {
        StakingBalance::Ring(_) => Action::LockRing {
            who: ledger.stash,
            amount: ledger.total_ring() as Balance,
        },
        StakingBalance::Kton(_) => Action::LockKton {
            who: ledger.stash,
            amount: ledger.normal_kton as Balance,
        },
    }
}

/// Calls on a stash or a controller.
impl State {
    /// Every ledger is valid.
    pub open spec fn valid(self) -> bool {
        forall|controller: AccountId| #[trigger]
            self.ledger.contains_key(controller) ==> self.ledger[controller].valid()
    }

    /// `ledger` becomes the ledger of `controller`, and the currency of `value` is locked to what
    /// the ledger holds of it.
    pub open spec fn update_ledger(
        self,
        controller: AccountId,
        ledger: LedgerView,
        value: Amount,
    ) -> (State, Action) {
        (State { ledger: self.ledger.insert(controller, ledger), ..self }, lock_for(ledger, value))
    }

    /// `value` is added to `ledger`, which becomes the ledger of `controller`. The lock on the
    /// currency covers all that the ledger then holds of it; a promise earns KTON for the stash.
    pub open spec fn stake(
        self,
        stash: AccountId,
        controller: AccountId,
        value: Amount,
        months: u32,
        now: Moment,
        ledger: LedgerView,
    ) -> (State, Outcome) {
        match value {
            StakingBalance::Ring(r) => {
                let (state, lock) = self.update_ledger(
                    controller,
                    ledger.with_ring(r, months, now),
                    value,
                );
                let mint = Action::MintKton { who: stash, value: r, months };
                (
                    state,
                    Ok(
                        if months != 0 {
                            seq![mint, lock]
                        } else {
                            seq![lock]
                        },
                    ),
                )
            },
            StakingBalance::Kton(k) => {
                let (state, lock) = self.update_ledger(controller, ledger.with_kton(k), value);
                (state, Ok(seq![lock]))
            },
        }
    }

    /// The stash bonds funds for the first time, no more than its balance.
    pub open spec fn bond(
        self,
        stash: AccountId,
        controller: Found,
        value: Amount,
        payee: RewardDestination,
        months: u32,
        stash_balance: Balance,
        now: Moment,
    ) -> (State, Outcome) {
        if months > MAX_MONTHS {
            (self, Err(Error::TooManyMonths))
        } else if self.bonded.contains_key(stash) {
            (self, Err(Error::StashBonded))
        } else {
            match controller {
                Err(reason) => (self, Err(Error::Lookup(reason))),
                Ok(controller) => if self.ledger.contains_key(controller) {
                    (self, Err(Error::ControllerPaired))
                } else {
                    let value = match value {
                        StakingBalance::Ring(r) => StakingBalance::Ring(
                            min(r as int, stash_balance as int) as Balance,
                        ),
                        StakingBalance::Kton(k) => StakingBalance::Kton(
                            min(k as int, stash_balance as int) as Balance,
                        ),
                    };
                    State {
                        bonded: self.bonded.insert(stash, controller),
                        payee: self.payee.insert(stash, payee),
                        ..self
                    }.stake(stash, controller, value, months, now, LedgerView::empty(stash))
                },
            }
        }
    }

    /// The sums that [`bond`](State::bond) forms can be expressed.
    pub open spec fn bond_fits(
        self,
        stash: AccountId,
        controller: Found,
        value: Amount,
        payee: RewardDestination,
        months: u32,
        stash_balance: Balance,
        now: Moment,
    ) -> bool {
        self.bond(stash, controller, value, payee, months, stash_balance, now).1 is Ok && value
            is Ring && months != 0 ==> now + MONTH_IN_SECONDS * months <= Moment::MAX
    }

    /// The stash bonds more, no more than the part of its balance that its ledger does not hold.
    /// Where the ledger holds more than the balance, nothing happens.
    pub open spec fn bond_extra(
        self,
        stash: AccountId,
        value: Amount,
        months: u32,
        stash_balance: Balance,
        now: Moment,
    ) -> (State, Outcome) {
        if months > MAX_MONTHS {
            (self, Err(Error::TooManyMonths))
        } else if !self.bonded.contains_key(stash) {
            (self, Err(Error::NotStash))
        } else if !self.ledger.contains_key(self.bonded[stash]) {
            (self, Err(Error::NotController))
        } else {
            let controller = self.bonded[stash];
            let ledger = self.ledger[controller];
            match extra(ledger, value, stash_balance) {
                Some(extra) => self.stake(stash, controller, extra, months, now, ledger),
                None => (self, Ok(Seq::empty())),
            }
        }
    }

    /// The sums that [`bond_extra`](State::bond_extra) forms can be expressed.
    pub open spec fn bond_extra_fits(
        self,
        stash: AccountId,
        value: Amount,
        months: u32,
        stash_balance: Balance,
        now: Moment,
    ) -> bool {
        self.bond_extra(stash, value, months, stash_balance, now).1 is Ok ==> {
            let ledger = self.ledger[self.bonded[stash]];
            match extra(ledger, value, stash_balance) {
                Some(StakingBalance::Ring(r)) => ledger.ring_fits(r, months, now),
                Some(StakingBalance::Kton(k)) => ledger.kton_fits(k),
                None => true,
            }
        }
    }

    /// The controller sends funds on their way out.
    pub open spec fn unbond(
        self,
        controller: AccountId,
        value: Amount,
        is_regular: bool,
        now: Moment,
    ) -> (State, Result<(), Error>) {
        if !self.ledger.contains_key(controller) {
            (self, Err(Error::NotController))
        } else {
            let ledger = self.ledger[controller];
            if ledger.unlocking.len() >= MAX_UNLOCKING_CHUNKS {
                (self, Err(Error::TooManyChunks))
            } else {
                let era = (self.current_era + self.params.bonding_duration) as EraIndex;
                let after = ledger.unbonded(value, is_regular, now, era);
                (State { ledger: self.ledger.insert(controller, after), ..self }, Ok(()))
            }
        }
    }

    /// The era that [`unbond`](State::unbond) computes can be expressed.
    pub open spec fn unbond_fits(
        self,
        controller: AccountId,
        value: Amount,
        is_regular: bool,
        now: Moment,
    ) -> bool {
        self.unbond(controller, value, is_regular, now).1 is Ok ==> self.current_era
            + self.params.bonding_duration <= EraIndex::MAX
    }

    /// The controller takes out what is due. A currency of which something was due has its lock
    /// set to what the ledger still holds of it.
    pub open spec fn withdraw_unbonded(self, controller: AccountId) -> (State, Outcome) {
        if !self.ledger.contains_key(controller) {
            (self, Err(Error::NotController))
        } else {
            let before = self.ledger[controller];
            let after = before.consolidated(self.current_era);
            let ring = lock_for(after, StakingBalance::Ring(0));
            let kton = lock_for(after, StakingBalance::Kton(0));
            let none = Seq::<Action>::empty();
            (
                State { ledger: self.ledger.insert(controller, after), ..self },
                Ok(
                    (if ring_due(before.unlocking, self.current_era) {
                        seq![ring]
                    } else {
                        none
                    }) + (if kton_due(before.unlocking, self.current_era) {
                        seq![kton]
                    } else {
                        none
                    }),
                ),
            )
        }
    }

    /// The stash of the controller becomes a validator. The first name that it gives stays.
    pub open spec fn validate(
        self,
        controller: AccountId,
        name: Seq<u8>,
        ratio: u32,
        unstake_threshold: u32,
    ) -> (State, Result<(), Error>) {
        if !self.ledger.contains_key(controller) {
            (self, Err(Error::NotController))
        } else if unstake_threshold > MAX_UNSTAKE_THRESHOLD {
            (self, Err(Error::ThresholdTooLarge))
        } else {
            let stash = self.ledger[controller].stash;
            let prefs = ValidatorPrefs {
                unstake_threshold,
                validator_payment_ratio: min(ratio as int, 100) as Balance,
            };
            (
                State {
                    nominators: self.nominators.remove(stash),
                    validators: self.validators.insert(stash, prefs),
                    node_name: if self.node_name.contains_key(stash) {
                        self.node_name
                    } else {
                        self.node_name.insert(stash, name)
                    },
                    ..self
                },
                Ok(()),
            )
        }
    }

    /// The stash of the controller becomes a nominator of the first targets.
    pub open spec fn nominate(self, controller: AccountId, targets: Seq<Found>) -> (
        State,
        Result<(), Error>,
    ) {
        if !self.ledger.contains_key(controller) {
            (self, Err(Error::NotController))
        } else if targets.len() == 0 {
            (self, Err(Error::NoTargets))
        } else {
            match all_found(counted(targets)) {
                Err(reason) => (self, Err(Error::Lookup(reason))),
                Ok(accounts) => {
                    let stash = self.ledger[controller].stash;
                    (
                        State {
                            validators: self.validators.remove(stash),
                            nominators: self.nominators.insert(stash, accounts),
                            ..self
                        },
                        Ok(()),
                    )
                },
            }
        }
    }

    /// The stash of the controller neither validates nor nominates any more.
    pub open spec fn chill(self, controller: AccountId) -> (State, Result<(), Error>) {
        if !self.ledger.contains_key(controller) {
            (self, Err(Error::NotController))
        } else {
            let stash = self.ledger[controller].stash;
            (
                State {
                    validators: self.validators.remove(stash),
                    nominators: self.nominators.remove(stash),
                    ..self
                },
                Ok(()),
            )
        }
    }

    /// The rewards of the stash of the controller go elsewhere.
    pub open spec fn set_payee(self, controller: AccountId, payee: RewardDestination) -> (
        State,
        Result<(), Error>,
    ) {
        if !self.ledger.contains_key(controller) {
            (self, Err(Error::NotController))
        } else {
            let stash = self.ledger[controller].stash;
            (State { payee: self.payee.insert(stash, payee), ..self }, Ok(()))
        }
    }

    /// The stash is bonded to another controller, who takes the ledger over.
    pub open spec fn set_controller(self, stash: AccountId, controller: Found) -> (
        State,
        Result<(), Error>,
    ) {
        if !self.bonded.contains_key(stash) {
            (self, Err(Error::NotStash))
        } else {
            let old_controller = self.bonded[stash];
            match controller {
                Err(reason) => (self, Err(Error::Lookup(reason))),
                Ok(controller) => if self.ledger.contains_key(controller) {
                    (self, Err(Error::ControllerPaired))
                } else {
                    (
                        State {
                            bonded: self.bonded.insert(stash, controller),
                            ledger: if self.ledger.contains_key(old_controller) {
                                self.ledger.remove(old_controller).insert(
                                    controller,
                                    self.ledger[old_controller],
                                )
                            } else {
                                self.ledger
                            },
                            ..self
                        },
                        Ok(()),
                    )
                },
            }
        }
    }

    /// The stash is gone: nothing is left of it but its name and the stake behind it.
    pub open spec fn on_free_balance_zero(self, stash: AccountId) -> State {
        State {
            bonded: self.bonded.remove(stash),
            ledger: if self.bonded.contains_key(stash) {
                self.ledger.remove(self.bonded[stash])
            } else {
                self.ledger
            },
            payee: self.payee.remove(stash),
            slash_count: self.slash_count.remove(stash),
            validators: self.validators.remove(stash),
            nominators: self.nominators.remove(stash),
            ..self
        }
    }

    /// The RING of the stash that counts as staked.
    pub open spec fn slashable_balance_of(self, stash: AccountId) -> int {
        if self.bonded.contains_key(stash) && self.ledger.contains_key(self.bonded[stash]) {
            self.ledger[self.bonded[stash]].active_ring
        } else {
            0
        }
    }
}

/// What a stash can add of `value` to its ledger, given its balance in that currency.
pub open spec fn extra(ledger: LedgerView, value: Amount, stash_balance: Balance) -> Option<Amount> {
    match value {
        StakingBalance::Ring(r) => if ledger.total_ring() <= stash_balance {
            Some(
                StakingBalance::Ring(
                    min(stash_balance - ledger.total_ring(), r as int) as Balance,
                ),
            )
        } else {
            None
        },
        StakingBalance::Kton(k) => if ledger.normal_kton <= stash_balance {
            Some(
                StakingBalance::Kton(min(stash_balance - ledger.normal_kton, k as int) as Balance),
            )
        } else {
            None
        },
    }
}

/// Rewards.
impl State {
    /// The stake behind a validator, nothing if none is known.
    pub open spec fn exposure(self, stash: AccountId) -> ExposureView {
        if self.stakers.contains_key(stash) {
            self.stakers[stash]
        } else {
            ExposureView { total: 0, own: 0, others: Seq::empty() }
        }
    }

    /// What the validator asked for, a threshold of three and nothing up-front if it did not.
    pub open spec fn prefs(self, stash: AccountId) -> ValidatorPrefs<Balance> {
        if self.validators.contains_key(stash) {
            self.validators[stash]
        } else {
            ValidatorPrefs { unstake_threshold: 3, validator_payment_ratio: 0 }
        }
    }

    /// Where the rewards of a stash go, to the stash itself if nothing else is known.
    pub open spec fn destination(self, stash: AccountId) -> RewardDestination {
        if self.payee.contains_key(stash) {
            self.payee[stash]
        } else {
            RewardDestination::Stash
        }
    }

    /// The payment of `amount` to the account that the rewards of the stash go to. A stash whose
    /// rewards go to its controller, and that has none, is not paid.
    pub open spec fn make_payout(self, stash: AccountId, amount: int) -> Option<Payout> {
        match self.destination(stash) {
            RewardDestination::Controller => if self.bonded.contains_key(stash) {
                Some(Payout { who: self.bonded[stash], amount: amount as Balance })
            } else {
                None
            },
            RewardDestination::Stash => Some(Payout { who: stash, amount: amount as Balance }),
        }
    }

    /// What the validator takes up-front of a reward: its percentage, at most all of it.
    pub open spec fn off_the_table(self, stash: AccountId, reward: int) -> int {
        let percent = min(self.prefs(stash).validator_payment_ratio as int, 100);
        fraction_of(percent * PARTS_PER_PERCENT, reward)
    }

    /// The share in `reward` of one who backs a validator with `value` out of `total`.
    pub open spec fn share(value: int, total: int, reward: int) -> int {
        fraction_of(ratio_parts(value, max(total, 1)), reward)
    }

    /// The payments to the nominators out of `reward`.
    pub open spec fn nominator_payouts(
        self,
        others: Seq<IndividualExposure<AccountId, PowerBalance>>,
        total: int,
        reward: int,
    ) -> Seq<Payout>
        decreases others.len(),
    {
        if others.len() == 0 {
            Seq::empty()
        } else {
            let one = others.last();
            self.nominator_payouts(others.drop_last(), total, reward) + one_payout(
                self.make_payout(one.who, State::share(one.value as int, total, reward)),
            )
        }
    }

    /// The payments that come of a reward to a validator: what the validator takes up-front, and
    /// of the rest each nominator its share and the validator the share of its own stake.
    pub open spec fn reward_validator(self, stash: AccountId, reward: int) -> Seq<Payout> {
        let up_front = self.off_the_table(stash, reward);
        let rest = reward - up_front;
        let exposure = self.exposure(stash);
        if rest == 0 {
            one_payout(self.make_payout(stash, up_front))
        } else {
            self.nominator_payouts(exposure.others, exposure.total, rest) + one_payout(
                self.make_payout(
                    stash,
                    State::share(exposure.own, exposure.total, rest) + up_front,
                ),
            )
        }
    }

    /// What an era pays out in all.
    pub open spec fn era_reward(self) -> int {
        fraction_of(
            min(self.session_reward as int, BILLION as int),
            self.current_era_total_reward as int,
        )
    }

    /// What an era pays out for each elected validator.
    pub open spec fn reward_per_validator(self) -> int {
        self.era_reward() / (self.current_elected.len() as int)
    }

    /// The payments at the end of an era, for each elected validator.
    pub open spec fn era_payouts(self) -> Seq<Seq<Payout>> {
        if self.era_reward() == 0 {
            Seq::empty()
        } else {
            Seq::new(
                self.current_elected.len(),
                |i: int| self.reward_validator(self.current_elected[i], self.reward_per_validator()),
            )
        }
    }

    /// What is told of the payments at the end of an era.
    pub open spec fn era_event(self) -> Option<Event<Balance, AccountId>> {
        if self.era_reward() == 0 {
            None
        } else {
            Some(Event::Reward(self.reward_per_validator() as Balance))
        }
    }
}

/// Sessions, eras and epochs.
impl State {
    /// A session begins: the reward of the one that finished is added up, and a forced era is no
    /// longer forced.
    pub open spec fn new_session(self) -> State {
        State {
            current_era_reward: (self.current_era_reward + self.current_session_reward) as Balance,
            current_era_total_reward: (self.current_era_total_reward
                + self.current_session_reward) as Balance,
            force_new_era: false,
            ..self
        }
    }

    /// The sums that [`new_session`](State::new_session) forms can be expressed.
    pub open spec fn session_fits(self) -> bool {
        &&& self.current_era_reward + self.current_session_reward <= Balance::MAX
        &&& self.current_era_total_reward + self.current_session_reward <= Balance::MAX
    }

    /// Whether the session begins an era.
    pub open spec fn era_begins(self, session_index: SessionIndex) -> bool {
        self.force_new_era || session_index % self.params.sessions_per_era == 0
    }

    /// Whether the end of the current era is the end of an epoch.
    pub open spec fn epoch_ends(self) -> bool {
        self.current_era % self.params.eras_per_epoch == 0
    }

    /// An epoch begins. A reward that could not be computed leaves what is there in place.
    pub open spec fn new_epoch(self, next_era_reward: Option<Balance>) -> State {
        State {
            epoch_index: (self.epoch_index + 1) as BlockNumber,
            current_era_total_reward: match next_era_reward {
                Some(reward) => reward,
                None => self.current_era_total_reward,
            },
            ..self
        }
    }

    /// An era begins: its reward is reset to zero, and where an epoch begins with it, to the
    /// reward that comes with the epoch.
    pub open spec fn new_era(self, next_era_reward: Option<Balance>) -> State {
        let reset = State { current_era_total_reward: 0, ..self };
        let begun = if self.epoch_ends() {
            reset.new_epoch(next_era_reward)
        } else {
            reset
        };
        State { current_era: (self.current_era + 1) as EraIndex, ..begun }
    }
}

/// The first state.
impl State {
    /// One staker of the first hour bonds RING, and validates or nominates. What is refused is
    /// passed over.
    pub open spec fn genesis_staker(self, staker: GenesisStaker, free: Balance, now: Moment) -> (
        State,
        Seq<Action>,
    ) {
        let (stash, controller, balance, status) = staker;
        let (bonded, outcome) = self.bond(
            stash,
            Ok(controller),
            StakingBalance::Ring(balance),
            RewardDestination::Stash,
            GENESIS_MONTHS,
            free,
            now,
        );
        let after = match status {
            StakerStatus::Idle => bonded,
            StakerStatus::Validator => bonded.validate(
                controller,
                blank_name(),
                0,
                GENESIS_THRESHOLD,
            ).0,
            StakerStatus::Nominator(votes) => bonded.nominate(controller, known(votes@)).0,
        };
        (
            after,
            match outcome {
                Ok(actions) => actions,
                Err(_) => Seq::empty(),
            },
        )
    }

    /// The stakers of the first hour, one after the other; `free` holds the free RING of each.
    pub open spec fn genesis_stakers(
        self,
        stakers: Seq<GenesisStaker>,
        free: Seq<Balance>,
        now: Moment,
    ) -> (State, Seq<Action>)
        decreases stakers.len(),
    {
        if stakers.len() == 0 {
            (self, Seq::empty())
        } else {
            let (state, actions) = self.genesis_stakers(stakers.drop_last(), free, now);
            let (after, more) = state.genesis_staker(
                stakers.last(),
                free[stakers.len() - 1],
                now,
            );
            (after, actions + more)
        }
    }
}

/// The smallest amount that a staker of the first hour bonds, nothing if there is none.
pub open spec fn smallest_stake(stakers: Seq<GenesisStaker>) -> Balance
    decreases stakers.len(),
{
    if stakers.len() == 0 {
        0
    } else if stakers.len() == 1 {
        stakers[0].2
    } else {
        min(smallest_stake(stakers.drop_last()) as int, stakers.last().2 as int) as Balance
    }
}

} // verus!
