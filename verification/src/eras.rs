//! Sessions, eras and epochs.
//!
//! At the end of a session [`Module::on_session_ending`] tells whether an era ends with it. If so,
//! the payments of [`Module::era_rewards`] are made, and [`Module::new_era`] is run after that; it
//! takes the reward that comes with an epoch where [`Module::epoch_ends`].
use crate::module::Module;
use crate::types::{AccountId, Balance, BlockNumber, EraIndex, SessionIndex};
use vstd::prelude::*;

verus! {

impl Module {
    /// The hook of the session module: session `i` ends. Tells whether an era ends with it.
    pub fn on_session_ending(&mut self, i: SessionIndex) -> (era_ends: bool)
        requires
            i < SessionIndex::MAX,
            old(self)@.session_fits(),
            old(self).force_new_era || old(self).params.sessions_per_era != 0,
        ensures
            final(self)@ == old(self)@.new_session(),
            era_ends == old(self)@.era_begins((i + 1) as SessionIndex),
    {
        self.new_session(i + 1)
    }

    /// Begins a session, and tells whether an era begins with it.
    pub fn new_session(&mut self, session_index: SessionIndex) -> (era_begins: bool)
        requires
            old(self)@.session_fits(),
            old(self).force_new_era || old(self).params.sessions_per_era != 0,
        ensures
            final(self)@ == old(self)@.new_session(),
            era_begins == old(self)@.era_begins(session_index),
    {
        self.current_era_reward = self.current_era_reward + self.current_session_reward;
        self.current_era_total_reward = self.current_era_total_reward + self.current_session_reward;
        let forced: bool = self.force_new_era;
        self.force_new_era = false;
        forced || session_index % self.params.sessions_per_era == 0
    }

    /// Whether the end of the current era is the end of an epoch.
    pub fn epoch_ends(&self) -> (ends: bool)
        requires
            self.params.eras_per_epoch != 0,
        ensures
            ends == self@.epoch_ends(),
    {
        self.current_era % self.params.eras_per_epoch == 0
    }

    /// Begins an epoch, with `next_era_reward` as the reward of the era, or with what is there if
    /// that could not be computed.
    pub fn new_epoch(&mut self, next_era_reward: Option<Balance>)
        requires
            old(self).epoch_index < BlockNumber::MAX,
        ensures
            final(self)@ == old(self)@.new_epoch(next_era_reward),
    {
        self.epoch_index = self.epoch_index + 1;
        if let Some(reward) = next_era_reward {
            self.current_era_total_reward = reward;
        }
    }

    /// Begins an era, after the rewards of the last one were paid. The reward starts from zero, or
    /// from what comes with an epoch; the validators stay.
    ///
    /// This always happens immediately before a session change to ensure that new validators get a
    /// chance to set their session keys.
    pub fn new_era(&mut self, next_era_reward: Option<Balance>) -> (validators: Option<
        Vec<AccountId>,
    >)
        requires
            old(self).params.eras_per_epoch != 0,
            old(self).current_era < EraIndex::MAX,
            old(self)@.epoch_ends() ==> old(self).epoch_index < BlockNumber::MAX,
        ensures
            final(self)@ == old(self)@.new_era(next_era_reward),
            validators is None,
    {
        self.current_era_total_reward = 0;
        if self.epoch_ends() {
            self.new_epoch(next_era_reward);
        }
        self.current_era = self.current_era + 1;
        None
    }
}

} // verus!
