//! The staking module: its storage, and the calls on it.
use crate::ledger::{
    copied, lemma_consolidated_unchanged, lemma_consolidated_valid, lemma_unbonded_valid,
    lemma_with_ring_valid, Amount, Ledger, LedgerView, MAX_UNLOCKING_CHUNKS, MONTH_IN_SECONDS,
    RING_PER_POWER,
};
use crate::state::{extra, Outcome, State, MAX_MONTHS};
use crate::types::{
    AccountId, Action, Balance, BlockNumber, EraIndex, Error, Exposure, Found, Moment, Params,
    PowerBalance, RewardDestination, StakingBalance, StakingLedgers, ValidatorPrefs,
};
use std::collections::BTreeMap;
use vstd::prelude::*;

verus! {

/// The staking module. The maps go from a stash, except `ledger`, which goes from a controller.
pub struct Module {
    /// What the runtime fixes.
    pub params: Params,
    /// The ideal number of validators.
    pub validator_count: u32,
    /// The smallest number of validators to go on with.
    pub minimum_validator_count: u32,
    /// The part of the total reward that an era pays out, in parts per billion.
    pub session_reward: u32,
    /// The part of the stake that being offline costs, in parts per billion.
    pub offline_slash: u32,
    /// How often a validator may be offline before it is slashed.
    pub offline_slash_grace: u32,
    /// Validators who cannot be slashed.
    pub invulnerables: Vec<AccountId>,
    /// The controller of each stash.
    pub bonded: BTreeMap<AccountId, AccountId>,
    /// The ledger of each controller.
    pub ledger: BTreeMap<AccountId, Ledger>,
    /// Where rewards go.
    pub payee: BTreeMap<AccountId, RewardDestination>,
    /// Who wants to validate, and how.
    pub validators: BTreeMap<AccountId, ValidatorPrefs<Balance>>,
    /// Who nominates whom.
    pub nominators: BTreeMap<AccountId, Vec<AccountId>>,
    /// The stake behind each validator.
    pub stakers: BTreeMap<AccountId, Exposure<AccountId, PowerBalance>>,
    /// The validators of the current era.
    pub current_elected: Vec<AccountId>,
    /// The current era.
    pub current_era: EraIndex,
    /// What a session adds to the reward.
    pub current_session_reward: Balance,
    /// What all sessions added so far.
    pub current_era_reward: Balance,
    /// The smallest stake behind a validator.
    pub slot_stake: Balance,
    /// How often a validator was slashed.
    pub slash_count: BTreeMap<AccountId, u32>,
    /// Who was offline, when and how often.
    pub recently_offline: Vec<(AccountId, BlockNumber, u32)>,
    /// Whether the next session begins an era in any case.
    pub force_new_era: bool,
    /// The current epoch.
    pub epoch_index: BlockNumber,
    /// The accumulated reward for the current era. Reset to zero at the beginning of the era, or to
    /// what comes with an epoch, and increased for every successfully finished session.
    pub current_era_total_reward: Balance,
    /// Who is to go offline.
    pub should_offline: Vec<AccountId>,
    /// The name that a validator gave first.
    pub node_name: BTreeMap<AccountId, Vec<u8>>,
}

impl View for Module {
    type V = State;

    open spec fn view(&self) -> State {
        State {
            params: self.params,
            validator_count: self.validator_count,
            minimum_validator_count: self.minimum_validator_count,
            session_reward: self.session_reward,
            offline_slash: self.offline_slash,
            offline_slash_grace: self.offline_slash_grace,
            invulnerables: self.invulnerables@,
            bonded: self.bonded@,
            ledger: self.ledger@.map_values(|l: Ledger| l@),
            payee: self.payee@,
            validators: self.validators@,
            nominators: self.nominators@.map_values(|v: Vec<AccountId>| v@),
            stakers: self.stakers@.map_values(|e: Exposure<AccountId, PowerBalance>| e@),
            current_elected: self.current_elected@,
            current_era: self.current_era,
            current_session_reward: self.current_session_reward,
            current_era_reward: self.current_era_reward,
            slot_stake: self.slot_stake,
            slash_count: self.slash_count@,
            recently_offline: self.recently_offline@,
            force_new_era: self.force_new_era,
            epoch_index: self.epoch_index,
            current_era_total_reward: self.current_era_total_reward,
            should_offline: self.should_offline@,
            node_name: self.node_name@.map_values(|v: Vec<u8>| v@),
        }
    }
}

/// What a call came to.
pub open spec fn outcome(result: Result<Vec<Action>, Error>) -> Outcome {
    match result {
        Ok(actions) => Ok(actions@),
        Err(error) => Err(error),
    }
}

/// Reading the storage.
impl Module {
    /// The controller of a stash.
    pub fn bonded(&self, stash: AccountId) -> (controller: Option<AccountId>)
        ensures
            controller == (if self@.bonded.contains_key(stash) {
                Some(self@.bonded[stash])
            } else {
                None
            }),
    {
        match self.bonded.get(&stash) {
            Some(controller) => Some(*controller),
            None => None,
        }
    }

    /// The ledger of a controller.
    pub fn ledger(&self, controller: AccountId) -> (ledger: Option<Ledger>)
        ensures
            ledger is Some <==> self@.ledger.contains_key(controller),
            ledger matches Some(l) ==> l@ == self@.ledger[controller],
    {
        match self.ledger.get(&controller) {
            Some(ledger) => Some(ledger.duplicate()),
            None => None,
        }
    }

    /// Where the rewards of a stash go.
    pub fn payee(&self, stash: AccountId) -> (destination: RewardDestination)
        ensures
            destination == self@.destination(stash),
    {
        match self.payee.get(&stash) {
            Some(destination) => *destination,
            None => RewardDestination::default(),
        }
    }

    /// How a stash wants to validate.
    pub fn validators(&self, stash: AccountId) -> (prefs: ValidatorPrefs<Balance>)
        ensures
            prefs == self@.prefs(stash),
    {
        match self.validators.get(&stash) {
            Some(prefs) => *prefs,
            None => ValidatorPrefs::default(),
        }
    }

    /// Whom a stash nominates.
    pub fn nominators(&self, stash: AccountId) -> (targets: Vec<AccountId>)
        ensures
            targets@ == (if self@.nominators.contains_key(stash) {
                self@.nominators[stash]
            } else {
                Seq::empty()
            }),
    {
        match self.nominators.get(&stash) {
            Some(targets) => copied(targets),
            None => Vec::new(),
        }
    }

    /// The stake behind a validator.
    pub fn stakers(&self, stash: AccountId) -> (exposure: Exposure<AccountId, PowerBalance>)
        ensures
            exposure@ == self@.exposure(stash),
    {
        match self.stakers.get(&stash) {
            Some(e) => Exposure { total: e.total, own: e.own, others: copied(&e.others) },
            None => {
                let exposure: Exposure<AccountId, PowerBalance> = Exposure::default();
                assert(exposure@ =~= self@.exposure(stash));
                exposure
            },
        }
    }

    /// How often a validator was slashed.
    pub fn slash_count(&self, stash: AccountId) -> (count: u32)
        ensures
            count == (if self@.slash_count.contains_key(stash) {
                self@.slash_count[stash]
            } else {
                0
            }),
    {
        match self.slash_count.get(&stash) {
            Some(count) => *count,
            None => 0,
        }
    }

    /// The name of a validator.
    pub fn node_name(&self, stash: AccountId) -> (name: Vec<u8>)
        ensures
            name@ == (if self@.node_name.contains_key(stash) {
                self@.node_name[stash]
            } else {
                Seq::empty()
            }),
    {
        match self.node_name.get(&stash) {
            Some(name) => copied(name),
            None => Vec::new(),
        }
    }

    /// The power that stands behind a validator.
    pub fn slashable_balance(&self, who: &AccountId) -> (power: PowerBalance)
        ensures
            power == self@.exposure(*who).total,
    {
        self.stakers(*who).total
    }

    /// The RING of a stash that counts as staked.
    pub fn slashable_balance_of(&self, stash: AccountId) -> (ring: Balance)
        ensures
            ring == self@.slashable_balance_of(stash),
    {
        match self.bonded(stash) {
            Some(controller) => match self.ledger(controller) {
                Some(ledger) => ledger.active_ring,
                None => 0,
            },
            None => 0,
        }
    }
}

/// What a stash can add of `value` to its ledger, given its balance in that currency.
fn extra_of(ledger: &Ledger, value: Amount, stash_balance: Balance) -> (added: Option<Amount>)
    requires
        ledger@.valid(),
    ensures
        added == extra(ledger@, value, stash_balance),
{
    match value {
        StakingBalance::Ring(r) => match stash_balance.checked_sub(
            ledger.normal_ring + ledger.regular_ring,
        ) {
            Some(free) => Some(StakingBalance::Ring(if free <= r {
                free
            } else {
                r
            })),
            None => None,
        },
        StakingBalance::Kton(k) => match stash_balance.checked_sub(ledger.normal_kton) {
            Some(free) => Some(StakingBalance::Kton(if free <= k {
                free
            } else {
                k
            })),
            None => None,
        },
    }
}

/// Bonding and unbonding.
impl Module {
    /// Makes `ledger` the ledger of the controller, and has the currency of `value` locked to what
    /// the ledger holds of it.
    fn update_ledger(&mut self, controller: AccountId, ledger: Ledger, value: Amount) -> (action:
        Action)
        requires
            value is Ring ==> ledger@.total_ring() <= Balance::MAX,
        ensures
            (final(self)@, action) == old(self)@.update_ledger(controller, ledger@, value),
    {
        let action = match value {
            StakingBalance::Ring(_) => Action::LockRing {
                who: ledger.stash,
                amount: ledger.normal_ring + ledger.regular_ring,
            },
            StakingBalance::Kton(_) => Action::LockKton {
                who: ledger.stash,
                amount: ledger.normal_kton,
            },
        };
        self.ledger.insert(controller, ledger);
        assert(self@.ledger =~= old(self)@.ledger.insert(controller, ledger@));
        action
    }

    /// Adds RING to a ledger and stores it for the controller.
    fn bond_helper_in_ring(
        &mut self,
        stash: AccountId,
        controller: AccountId,
        value: Balance,
        promise_month: u32,
        ledger: Ledger,
        now: Moment,
    ) -> (actions: Vec<Action>)
        requires
            promise_month <= MAX_MONTHS,
            ledger@.ring_fits(value, promise_month, now),
        ensures
            (final(self)@, Ok::<Seq<Action>, Error>(actions@)) == old(self)@.stake(
                stash,
                controller,
                StakingBalance::Ring(value),
                promise_month,
                now,
                ledger@,
            ),
    {
        let ghost before = ledger@;
        let mut actions: Vec<Action> = Vec::new();
        if promise_month != 0 {
            actions.push(Action::MintKton { who: stash, value, months: promise_month });
        }
        let ledger = ledger.add_ring(value, promise_month, now);
        let lock = self.update_ledger(controller, ledger, StakingBalance::Ring(value));
        actions.push(lock);
        proof {
            let staked = old(self)@.stake(
                stash,
                controller,
                StakingBalance::Ring(value),
                promise_month,
                now,
                before,
            );
            assert(actions@ =~= staked.1->Ok_0);
        }
        actions
    }

    /// Adds KTON to a ledger and stores it for the controller.
    fn bond_helper_in_kton(
        &mut self,
        stash: AccountId,
        controller: AccountId,
        value: Balance,
        ledger: Ledger,
    ) -> (actions: Vec<Action>)
        requires
            ledger@.kton_fits(value),
        ensures
            final(self)@ == (State {
                ledger: old(self)@.ledger.insert(controller, ledger@.with_kton(value)),
                ..old(self)@
            }),
            actions@ == seq![
                Action::LockKton {
                    who: ledger.stash,
                    amount: (ledger.normal_kton + value) as Balance,
                },
            ],
    {
        let ledger = ledger.add_kton(value);
        let lock = self.update_ledger(controller, ledger, StakingBalance::Kton(value));
        let mut actions: Vec<Action> = Vec::new();
        actions.push(lock);
        actions
    }

    /// Whether the sums that a first bond would form can be expressed.
    pub fn bond_fits(
        &self,
        stash: AccountId,
        controller: Found,
        value: Amount,
        payee: RewardDestination,
        promise_month: u32,
        stash_balance: Balance,
        now: Moment,
    ) -> (fits: bool)
        ensures
            fits == self@.bond_fits(
                stash,
                controller,
                value,
                payee,
                promise_month,
                stash_balance,
                now,
            ),
    {
        if promise_month == 0 || promise_month > MAX_MONTHS || self.bonded.contains_key(&stash) {
            return true;
        }
        match (controller, value) {
            (Ok(controller), StakingBalance::Ring(_)) => self.ledger.contains_key(&controller) || (
            MONTH_IN_SECONDS * promise_month) as Moment <= Moment::MAX - now,
            _ => true,
        }
    }

    /// Bonds funds of a stash for the first time, under a controller that the stash names.
    /// `stash_balance` is the free balance of the stash in the currency of `value`.
    pub fn bond(
        &mut self,
        stash: AccountId,
        controller: Found,
        value: Amount,
        payee: RewardDestination,
        promise_month: u32,
        stash_balance: Balance,
        now: Moment,
    ) -> (r: Result<Vec<Action>, Error>)
        requires
            old(self)@.bond_fits(
                stash,
                controller,
                value,
                payee,
                promise_month,
                stash_balance,
                now,
            ),
        ensures
            (final(self)@, outcome(r)) == old(self)@.bond(
                stash,
                controller,
                value,
                payee,
                promise_month,
                stash_balance,
                now,
            ),
            old(self)@.valid() ==> final(self)@.valid(),
    {
        if promise_month > MAX_MONTHS {
            return Err(Error::TooManyMonths);
        }
        if self.bonded.contains_key(&stash) {
            return Err(Error::StashBonded);
        }
        let controller: AccountId = match controller {
            Ok(controller) => controller,
            Err(reason) => {
                return Err(Error::Lookup(reason));
            },
        };
        if self.ledger.contains_key(&controller) {
            return Err(Error::ControllerPaired);
        }
        self.bonded.insert(stash, controller);
        self.payee.insert(stash, payee);
        let ledger: Ledger = StakingLedgers { stash, ..Default::default() };
        let ghost mid = State {
            bonded: old(self)@.bonded.insert(stash, controller),
            payee: old(self)@.payee.insert(stash, payee),
            ..old(self)@
        };
        assert(ledger@ =~= LedgerView::empty(stash));
        assert(self@ =~= mid);
        let actions = match value {
            StakingBalance::Ring(r) => {
                let value: Balance = if r <= stash_balance {
                    r
                } else {
                    stash_balance
                };
                proof {
                    lemma_with_ring_valid(ledger@, value, promise_month, now);
                }
                self.bond_helper_in_ring(stash, controller, value, promise_month, ledger, now)
            },
            StakingBalance::Kton(k) => {
                let value: Balance = if k <= stash_balance {
                    k
                } else {
                    stash_balance
                };
                self.bond_helper_in_kton(stash, controller, value, ledger)
            },
        };
        Ok(actions)
    }

    /// Whether the sums that bonding more would form can be expressed.
    pub fn bond_extra_fits(
        &self,
        stash: AccountId,
        value: Amount,
        promise_month: u32,
        stash_balance: Balance,
        now: Moment,
    ) -> (fits: bool)
        requires
            self@.valid(),
        ensures
            fits == self@.bond_extra_fits(stash, value, promise_month, stash_balance, now),
    {
        if promise_month > MAX_MONTHS {
            return true;
        }
        let controller: AccountId = match self.bonded(stash) {
            Some(controller) => controller,
            None => {
                return true;
            },
        };
        let ledger: Ledger = match self.ledger(controller) {
            Some(ledger) => ledger,
            None => {
                return true;
            },
        };
        match extra_of(&ledger, value, stash_balance) {
            Some(StakingBalance::Ring(r)) => {
                let power: PowerBalance = r / RING_PER_POWER;
                r <= Balance::MAX - ledger.active_ring && power <= PowerBalance::MAX
                    - ledger.total_power && power <= PowerBalance::MAX - ledger.active_power && (
                promise_month == 0 || (MONTH_IN_SECONDS * promise_month) as Moment <= Moment::MAX
                    - now)
            },
            Some(StakingBalance::Kton(k)) => {
                k <= Balance::MAX - ledger.active_kton && k <= PowerBalance::MAX
                    - ledger.total_power && k <= PowerBalance::MAX - ledger.active_power
            },
            None => true,
        }
    }

    /// Bonds more funds of a stash. `stash_balance` is the free balance of the stash in the
    /// currency of `value`.
    pub fn bond_extra(
        &mut self,
        stash: AccountId,
        value: Amount,
        promise_month: u32,
        stash_balance: Balance,
        now: Moment,
    ) -> (r: Result<Vec<Action>, Error>)
        requires
            old(self)@.valid(),
            old(self)@.bond_extra_fits(stash, value, promise_month, stash_balance, now),
        ensures
            (final(self)@, outcome(r)) == old(self)@.bond_extra(
                stash,
                value,
                promise_month,
                stash_balance,
                now,
            ),
            final(self)@.valid(),
    {
        if promise_month > MAX_MONTHS {
            return Err(Error::TooManyMonths);
        }
        let controller: AccountId = match self.bonded(stash) {
            Some(controller) => controller,
            None => {
                return Err(Error::NotStash);
            },
        };
        let ledger: Ledger = match self.ledger(controller) {
            Some(ledger) => ledger,
            None => {
                return Err(Error::NotController);
            },
        };
        match extra_of(&ledger, value, stash_balance) {
            Some(StakingBalance::Ring(extra)) => {
                proof {
                    lemma_with_ring_valid(ledger@, extra, promise_month, now);
                }
                let actions = self.bond_helper_in_ring(
                    stash,
                    controller,
                    extra,
                    promise_month,
                    ledger,
                    now,
                );
                Ok(actions)
            },
            Some(StakingBalance::Kton(extra)) => {
                let actions = self.bond_helper_in_kton(stash, controller, extra, ledger);
                Ok(actions)
            },
            None => Ok(Vec::new()),
        }
    }

    /// Whether the era in which funds unbonded now would be due can be expressed.
    pub fn unbond_fits(
        &self,
        controller: AccountId,
        value: Amount,
        is_regular: bool,
        now: Moment,
    ) -> (fits: bool)
        ensures
            fits == self@.unbond_fits(controller, value, is_regular, now),
    {
        match self.ledger.get(&controller) {
            Some(ledger) => ledger.unlocking.len() >= MAX_UNLOCKING_CHUNKS || self.current_era
                <= EraIndex::MAX - self.params.bonding_duration,
            None => true,
        }
    }

    /// Sends funds of a controller on their way out. RING under a promise is released only as far
    /// as the promise has ended, and becomes RING under no promise first.
    pub fn unbond(
        &mut self,
        controller: AccountId,
        value: Amount,
        is_regular: bool,
        now: Moment,
    ) -> (r: Result<(), Error>)
        requires
            old(self)@.valid(),
            old(self)@.unbond_fits(controller, value, is_regular, now),
        ensures
            (final(self)@, r) == old(self)@.unbond(controller, value, is_regular, now),
            final(self)@.valid(),
    {
        let ledger: Ledger = match self.ledger(controller) {
            Some(ledger) => ledger,
            None => {
                return Err(Error::NotController);
            },
        };
        if ledger.unlocking.len() >= MAX_UNLOCKING_CHUNKS {
            return Err(Error::TooManyChunks);
        }
        let era: EraIndex = self.current_era + self.params.bonding_duration;
        proof {
            lemma_unbonded_valid(ledger@, value, is_regular, now, era);
        }
        let ledger = ledger.unbond(value, is_regular, now, era);
        self.ledger.insert(controller, ledger);
        assert(self@.ledger =~= old(self)@.ledger.insert(controller, ledger@));
        Ok(())
    }

    /// Takes out what is due, which may be RING and KTON at the same time.
    pub fn withdraw_unbonded(&mut self, controller: AccountId) -> (r: Result<Vec<Action>, Error>)
        requires
            old(self)@.valid(),
        ensures
            (final(self)@, outcome(r)) == old(self)@.withdraw_unbonded(controller),
            final(self)@.valid(),
    {
        let ledger: Ledger = match self.ledger(controller) {
            Some(ledger) => ledger,
            None => {
                return Err(Error::NotController);
            },
        };
        proof {
            lemma_consolidated_valid(ledger@, self.current_era);
        }
        let ghost before = ledger@;
        let (ledger, id) = ledger.consolidate_unlocked(self.current_era);
        let mut actions: Vec<Action> = Vec::new();
        if id == 1 {
            actions.push(self.update_ledger(controller, ledger, StakingBalance::Ring(0)));
        } else if id == 2 {
            actions.push(self.update_ledger(controller, ledger, StakingBalance::Kton(0)));
        } else if id == 3 {
            let copy = ledger.duplicate();
            actions.push(self.update_ledger(controller, copy, StakingBalance::Ring(0)));
            actions.push(self.update_ledger(controller, ledger, StakingBalance::Kton(0)));
        }
        proof {
            let (state, result) = old(self)@.withdraw_unbonded(controller);
            if id == 0 {
                lemma_consolidated_unchanged(before, old(self)@.current_era);
            }
            assert(self@ =~= state);
            assert(actions@ =~= result->Ok_0);
        }
        Ok(actions)
    }
}

} // verus!
