//! What a stash does with its stake, and who acts for it.
use crate::module::Module;
use crate::state::{all_found, State, MAX_NOMINATIONS, MAX_UNSTAKE_THRESHOLD};
use crate::types::{AccountId, Balance, Error, Found, RewardDestination, ValidatorPrefs};
use vstd::prelude::*;

verus! {

/// The accounts that the lookups found, or why the first one that failed did.
fn collect_found(targets: &Vec<Found>, n: usize) -> (r: Result<Vec<AccountId>, &'static str>)
    requires
        n <= targets.len(),
    ensures
        match r {
            Ok(accounts) => all_found(targets@.take(n as int)) == Ok::<Seq<AccountId>, &'static str>(
                accounts@,
            ),
            Err(reason) => all_found(targets@.take(n as int)) == Err::<Seq<AccountId>, &'static str>(
                reason,
            ),
        },
{
    let mut accounts: Vec<AccountId> = Vec::new();
    let mut failure: Option<&'static str> = None;
    let mut i: usize = 0;
    while i < n
        invariant
            i <= n <= targets@.len(),
            match failure {
                None => all_found(targets@.take(i as int)) == Ok::<Seq<AccountId>, &'static str>(
                    accounts@,
                ),
                Some(reason) => all_found(targets@.take(i as int)) == Err::<
                    Seq<AccountId>,
                    &'static str,
                >(reason),
            },
        decreases n - i,
    {
        proof {
            let next = targets@.take(i + 1);
            assert(next.drop_last() =~= targets@.take(i as int));
            assert(next.last() == targets@[i as int]);
        }
        if failure.is_none() {
            match targets[i] {
                Ok(account) => {
                    accounts.push(account);
                },
                Err(reason) => {
                    failure = Some(reason);
                },
            }
        }
        i = i + 1;
    }
    match failure {
        None => Ok(accounts),
        Some(reason) => Err(reason),
    }
}

/// Calls of a controller or a stash.
impl Module {
    /// The stash that a controller acts for.
    fn stash_of(&self, controller: AccountId) -> (stash: Option<AccountId>)
        ensures
            stash == (if self@.ledger.contains_key(controller) {
                Some(self@.ledger[controller].stash)
            } else {
                None
            }),
    {
        match self.ledger.get(&controller) {
            Some(ledger) => Some(ledger.stash),
            None => None,
        }
    }

    /// Makes the stash of the controller a validator that takes `ratio` percent of its rewards
    /// up-front, at most all of it.
    pub fn validate(
        &mut self,
        controller: AccountId,
        name: Vec<u8>,
        ratio: u32,
        unstake_threshold: u32,
    ) -> (r: Result<(), Error>)
        ensures
            (final(self)@, r) == old(self)@.validate(controller, name@, ratio, unstake_threshold),
    {
        let stash: AccountId = match self.stash_of(controller) {
            Some(stash) => stash,
            None => {
                return Err(Error::NotController);
            },
        };
        if unstake_threshold > MAX_UNSTAKE_THRESHOLD {
            return Err(Error::ThresholdTooLarge);
        }
        let validator_payment_ratio: Balance = if ratio <= 100 {
            ratio as Balance
        } else {
            100
        };
        self.nominators.remove(&stash);
        self.validators.insert(
            stash,
            ValidatorPrefs { unstake_threshold, validator_payment_ratio },
        );
        if !self.node_name.contains_key(&stash) {
            self.node_name.insert(stash, name);
        }
        proof {
            let (state, _) = old(self)@.validate(controller, name@, ratio, unstake_threshold);
            assert(self@.nominators =~= state.nominators);
            assert(self@.node_name =~= state.node_name);
            assert(self@ =~= state);
        }
        Ok(())
    }

    /// Makes the stash of the controller a nominator. Only the first targets count, and each of
    /// them has to be found.
    pub fn nominate(&mut self, controller: AccountId, targets: Vec<Found>) -> (r: Result<
        (),
        Error,
    >)
        ensures
            (final(self)@, r) == old(self)@.nominate(controller, targets@),
    {
        let stash: AccountId = match self.stash_of(controller) {
            Some(stash) => stash,
            None => {
                return Err(Error::NotController);
            },
        };
        if targets.len() == 0 {
            return Err(Error::NoTargets);
        }
        let n: usize = if targets.len() <= MAX_NOMINATIONS {
            targets.len()
        } else {
            MAX_NOMINATIONS
        };
        let accounts: Vec<AccountId> = match collect_found(&targets, n) {
            Ok(accounts) => accounts,
            Err(reason) => {
                return Err(Error::Lookup(reason));
            },
        };
        self.validators.remove(&stash);
        self.nominators.insert(stash, accounts);
        proof {
            let (state, _) = old(self)@.nominate(controller, targets@);
            assert(self@.nominators =~= state.nominators);
            assert(self@ =~= state);
        }
        Ok(())
    }

    /// Has the stash of the controller neither validate nor nominate.
    pub fn chill(&mut self, controller: AccountId) -> (r: Result<(), Error>)
        ensures
            (final(self)@, r) == old(self)@.chill(controller),
    {
        let stash: AccountId = match self.stash_of(controller) {
            Some(stash) => stash,
            None => {
                return Err(Error::NotController);
            },
        };
        self.validators.remove(&stash);
        self.nominators.remove(&stash);
        proof {
            let (state, _) = old(self)@.chill(controller);
            assert(self@.nominators =~= state.nominators);
            assert(self@ =~= state);
        }
        Ok(())
    }

    /// Sets where the rewards of the stash of the controller go.
    pub fn set_payee(&mut self, controller: AccountId, payee: RewardDestination) -> (r: Result<
        (),
        Error,
    >)
        ensures
            (final(self)@, r) == old(self)@.set_payee(controller, payee),
    {
        let stash: AccountId = match self.stash_of(controller) {
            Some(stash) => stash,
            None => {
                return Err(Error::NotController);
            },
        };
        self.payee.insert(stash, payee);
        proof {
            assert(self@ =~= old(self)@.set_payee(controller, payee).0);
        }
        Ok(())
    }

    /// Bonds the stash to another controller, who takes the ledger over.
    pub fn set_controller(&mut self, stash: AccountId, controller: Found) -> (r: Result<(), Error>)
        ensures
            (final(self)@, r) == old(self)@.set_controller(stash, controller),
    {
        let old_controller: AccountId = match self.bonded(stash) {
            Some(old_controller) => old_controller,
            None => {
                return Err(Error::NotStash);
            },
        };
        let new_controller: AccountId = match controller {
            Ok(new_controller) => new_controller,
            Err(reason) => {
                return Err(Error::Lookup(reason));
            },
        };
        if self.ledger.contains_key(&new_controller) {
            return Err(Error::ControllerPaired);
        }
        if new_controller != old_controller {
            self.bonded.insert(stash, new_controller);
            if let Some(ledger) = self.ledger.remove(&old_controller) {
                self.ledger.insert(new_controller, ledger);
            }
        }
        proof {
            let (state, _) = old(self)@.set_controller(stash, controller);
            assert(self@.bonded =~= state.bonded);
            assert(self@.ledger =~= state.ledger);
            assert(self@ =~= state);
        }
        Ok(())
    }
}

/// Calls of the root, and the hook of the balances module.
impl Module {
    /// The ideal number of validators.
    pub fn set_validator_count(&mut self, new: u32)
        ensures
            final(self)@ == (State { validator_count: new, ..old(self)@ }),
    {
        self.validator_count = new;
    }

    /// Has the next session begin an era.
    pub fn force_new_era(&mut self)
        ensures
            final(self)@ == (State { force_new_era: true, ..old(self)@ }),
    {
        self.apply_force_new_era();
    }

    /// Has the next session begin an era.
    fn apply_force_new_era(&mut self)
        ensures
            final(self)@ == (State { force_new_era: true, ..old(self)@ }),
    {
        self.force_new_era = true;
    }

    /// Set the offline slash grace period.
    pub fn set_offline_slash_grace(&mut self, new: u32)
        ensures
            final(self)@ == (State { offline_slash_grace: new, ..old(self)@ }),
    {
        self.offline_slash_grace = new;
    }

    /// Set the validators who cannot be slashed (if any).
    pub fn set_invulnerables(&mut self, validators: Vec<AccountId>)
        ensures
            final(self)@ == (State { invulnerables: validators@, ..old(self)@ }),
    {
        self.invulnerables = validators;
    }

    /// Forgets a stash that has nothing left.
    pub fn on_free_balance_zero(&mut self, stash: AccountId)
        ensures
            final(self)@ == old(self)@.on_free_balance_zero(stash),
    {
        if let Some(controller) = self.bonded.remove(&stash) {
            self.ledger.remove(&controller);
        }
        self.payee.remove(&stash);
        self.slash_count.remove(&stash);
        self.validators.remove(&stash);
        self.nominators.remove(&stash);
        proof {
            let state = old(self)@.on_free_balance_zero(stash);
            assert(self@.bonded =~= state.bonded);
            assert(self@.ledger =~= state.ledger);
            assert(self@.nominators =~= state.nominators);
            assert(self@ =~= state);
        }
    }
}

} // verus!
