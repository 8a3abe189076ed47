//! Who is paid what at the end of an era.
use crate::module::Module;
use crate::perbill::{
    lemma_fraction_bounded, lemma_ratio_bounded, mul_parts, percent_parts, ratio_parts,
    rational_parts,
};
use crate::state::{one_payout, State};
use crate::types::{
    AccountId, Balance, Event, IndividualExposure, Payout, PowerBalance, RewardDestination,
};
use vstd::prelude::*;

verus! {

/// What is paid at the end of an era.
#[derive(Debug, Clone, PartialEq, Eq)]
pub struct EraRewards {
    /// The payments for each elected validator.
    pub payouts: Vec<Vec<Payout>>,
    /// What is told of them.
    pub event: Option<Event<Balance, AccountId>>,
}

/// The share in a reward of one who backs a validator with `value` out of `total`.
fn share(value: PowerBalance, total: PowerBalance, reward: Balance) -> (amount: Balance)
    ensures
        amount == State::share(value as int, total as int, reward as int),
        amount <= reward,
{
    let total: PowerBalance = if total <= 1 {
        1
    } else {
        total
    };
    proof {
        lemma_ratio_bounded(value as int, total as int);
        lemma_fraction_bounded(ratio_parts(value as int, total as int), reward as int);
    }
    mul_parts(rational_parts(value, total), reward)
}

impl Module {
    /// The payment of `amount` to the account that the rewards of the stash go to.
    fn make_payout(&self, stash: AccountId, amount: Balance) -> (payout: Option<Payout>)
        ensures
            payout == self@.make_payout(stash, amount as int),
    {
        match self.payee(stash) {
            RewardDestination::Controller => match self.bonded(stash) {
                Some(controller) => Some(Payout { who: controller, amount }),
                None => None,
            },
            RewardDestination::Stash => Some(Payout { who: stash, amount }),
        }
    }

    /// What a validator takes up-front of a reward.
    fn off_the_table(&self, stash: AccountId, reward: Balance) -> (amount: Balance)
        ensures
            amount == self@.off_the_table(stash, reward as int),
            amount <= reward,
    {
        let ratio: Balance = self.validators(stash).validator_payment_ratio;
        let percent: u32 = if ratio <= 100 {
            ratio as u32
        } else {
            100
        };
        let parts: u32 = percent_parts(percent);
        proof {
            lemma_fraction_bounded(parts as int, reward as int);
        }
        mul_parts(parts, reward)
    }

    /// The payments to those who nominate a validator, out of `reward`.
    fn nominator_payouts(
        &self,
        others: &Vec<IndividualExposure<AccountId, PowerBalance>>,
        total: PowerBalance,
        reward: Balance,
    ) -> (payouts: Vec<Payout>)
        ensures
            payouts@ == self@.nominator_payouts(others@, total as int, reward as int),
    {
        let mut payouts: Vec<Payout> = Vec::new();
        let mut i: usize = 0;
        while i < others.len()
            invariant
                i <= others@.len(),
                payouts@ == self@.nominator_payouts(
                    others@.take(i as int),
                    total as int,
                    reward as int,
                ),
            decreases others@.len() - i,
        {
            let one = others[i];
            let ghost before = payouts@;
            let payout = self.make_payout(one.who, share(one.value, total, reward));
            if let Some(payout) = payout {
                payouts.push(payout);
            }
            proof {
                let next = others@.take(i + 1);
                assert(next.drop_last() =~= others@.take(i as int));
                assert(next.last() == one);
                assert(payouts@ =~= before + one_payout(payout));
            }
            i = i + 1;
        }
        assert(others@.take(i as int) =~= others@);
        payouts
    }

    /// The payments that come of a reward to a validator. What is not taken up-front is split
    /// between the validator and its nominators by what they have at stake.
    pub fn reward_validator(&self, stash: AccountId, reward: Balance) -> (payouts: Vec<Payout>)
        ensures
            payouts@ == self@.reward_validator(stash, reward as int),
    {
        let up_front: Balance = self.off_the_table(stash, reward);
        let rest: Balance = reward - up_front;
        let mut payouts: Vec<Payout> = Vec::new();
        let mut cut: Balance = 0;
        if rest != 0 {
            let exposure = self.stakers(stash);
            payouts = self.nominator_payouts(&exposure.others, exposure.total, rest);
            cut = share(exposure.own, exposure.total, rest);
        }
        let ghost before = payouts@;
        let payout = self.make_payout(stash, cut + up_front);
        if let Some(payout) = payout {
            payouts.push(payout);
        }
        assert(payouts@ =~= before + one_payout(payout));
        assert(payouts@ =~= self@.reward_validator(stash, reward as int));
        payouts
    }

    /// What an era pays out in all.
    pub fn era_reward(&self) -> (reward: Balance)
        ensures
            reward == self@.era_reward(),
    {
        mul_parts(self.session_reward, self.current_era_total_reward)
    }

    /// The payments at the end of an era: each elected validator gets the same part of what the
    /// era pays out.
    pub fn era_rewards(&self) -> (rewards: EraRewards)
        requires
            self@.era_reward() != 0 ==> 0 < self.current_elected@.len() <= u32::MAX,
        ensures
            rewards.payouts@.len() == self@.era_payouts().len(),
            forall|i: int|
                0 <= i < rewards.payouts@.len() ==> (#[trigger] rewards.payouts@[i])@
                    == self@.era_payouts()[i],
            rewards.event == self@.era_event(),
    {
        let reward: Balance = self.era_reward();
        let mut payouts: Vec<Vec<Payout>> = Vec::new();
        if reward == 0 {
            return EraRewards { payouts, event: None };
        }
        let len: u32 = self.current_elected.len() as u32;
        let per_validator: Balance = reward / (len as Balance);
        let mut i: usize = 0;
        while i < self.current_elected.len()
            invariant
                i <= self.current_elected@.len(),
                self@.era_reward() != 0,
                per_validator == self@.reward_per_validator(),
                payouts@.len() == i,
                forall|j: int|
                    0 <= j < i ==> (#[trigger] payouts@[j])@ == self@.reward_validator(
                        self.current_elected@[j],
                        per_validator as int,
                    ),
            decreases self.current_elected@.len() - i,
        {
            payouts.push(self.reward_validator(self.current_elected[i], per_validator));
            i = i + 1;
        }
        EraRewards { payouts, event: Some(Event::Reward(per_validator)) }
    }
}

} // verus!
