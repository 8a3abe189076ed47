//! The first state of the staking module.
use crate::ledger::MONTH_IN_SECONDS;
use crate::module::Module;
use crate::state::{
    blank_name, known, smallest_stake, GenesisStaker, State, GENESIS_MONTHS, GENESIS_THRESHOLD,
};
use crate::types::{
    AccountId, Action, Balance, EraIndex, Found, Moment, Params, RewardDestination, StakerStatus,
    StakingBalance,
};
use std::collections::BTreeMap;
use vstd::prelude::*;

verus! {

/// The smallest number of validators to go on with, unless configured otherwise.
pub const DEFAULT_MINIMUM_VALIDATOR_COUNT: u32 = 4;

/// The part of the total reward that an era pays out, unless configured otherwise, in parts per
/// billion.
pub const DEFAULT_SESSION_REWARD: u32 = 60;

/// The part of the stake that being offline costs, unless configured otherwise, in parts per
/// billion.
pub const DEFAULT_OFFLINE_SLASH: u32 = 1_000_000;

/// What the first state is made from.
pub struct GenesisConfig {
    pub validator_count: u32,
    pub minimum_validator_count: u32,
    pub session_reward: u32,
    pub offline_slash: u32,
    pub offline_slash_grace: u32,
    pub invulnerables: Vec<AccountId>,
    pub current_era: EraIndex,
    pub current_session_reward: Balance,
    pub current_era_total_reward: Balance,
    /// Stash, controller, RING to bond, and what to do with it.
    pub stakers: Vec<GenesisStaker>,
}

impl Default for GenesisConfig {
    /// Nobody at stake, and nothing to earn.
    fn default() -> (config: Self)
        ensures
            config.validator_count == 0,
            config.minimum_validator_count == DEFAULT_MINIMUM_VALIDATOR_COUNT,
            config.session_reward == DEFAULT_SESSION_REWARD,
            config.offline_slash == DEFAULT_OFFLINE_SLASH,
            config.offline_slash_grace == 0,
            config.invulnerables@ == Seq::<AccountId>::empty(),
            config.current_era == 0,
            config.current_session_reward == 0,
            config.current_era_total_reward == 0,
            config.stakers@ == Seq::<GenesisStaker>::empty(),
    {
        GenesisConfig {
            validator_count: 0,
            minimum_validator_count: DEFAULT_MINIMUM_VALIDATOR_COUNT,
            session_reward: DEFAULT_SESSION_REWARD,
            offline_slash: DEFAULT_OFFLINE_SLASH,
            offline_slash_grace: 0,
            invulnerables: Vec::new(),
            current_era: 0,
            current_session_reward: 0,
            current_era_total_reward: 0,
            stakers: Vec::new(),
        }
    }
}

impl GenesisConfig {
    /// The state before the stakers of the first hour bond.
    pub open spec fn blank_state(self, params: Params) -> State {
        State {
            params,
            validator_count: self.validator_count,
            minimum_validator_count: self.minimum_validator_count,
            session_reward: self.session_reward,
            offline_slash: self.offline_slash,
            offline_slash_grace: self.offline_slash_grace,
            invulnerables: self.invulnerables@,
            bonded: Map::empty(),
            ledger: Map::empty(),
            payee: Map::empty(),
            validators: Map::empty(),
            nominators: Map::empty(),
            stakers: Map::empty(),
            current_elected: Seq::empty(),
            current_era: self.current_era,
            current_session_reward: self.current_session_reward,
            current_era_reward: 0,
            slot_stake: smallest_stake(self.stakers@),
            slash_count: Map::empty(),
            recently_offline: Seq::empty(),
            force_new_era: false,
            epoch_index: 0,
            current_era_total_reward: self.current_era_total_reward,
            should_offline: Seq::empty(),
            node_name: Map::empty(),
        }
    }
}

/// The smallest amount that a staker of the first hour bonds.
fn slot_stake(stakers: &Vec<GenesisStaker>) -> (stake: Balance)
    ensures
        stake == smallest_stake(stakers@),
{
    let mut stake: Balance = 0;
    let mut i: usize = 0;
    while i < stakers.len()
        invariant
            i <= stakers@.len(),
            stake == smallest_stake(stakers@.take(i as int)),
        decreases stakers@.len() - i,
    {
        proof {
            let next = stakers@.take(i + 1);
            assert(next.drop_last() =~= stakers@.take(i as int));
            assert(next.last() == stakers@[i as int]);
        }
        let balance: Balance = stakers[i].2;
        if i == 0 || balance < stake {
            stake = balance;
        }
        i = i + 1;
    }
    assert(stakers@.take(i as int) =~= stakers@);
    stake
}

/// The lookups of accounts that are known.
fn look_up_known(accounts: &Vec<AccountId>) -> (found: Vec<Found>)
    ensures
        found@ == known(accounts@),
{
    let mut found: Vec<Found> = Vec::new();
    let mut i: usize = 0;
    while i < accounts.len()
        invariant
            i <= accounts@.len(),
            found@ == known(accounts@.take(i as int)),
        decreases accounts@.len() - i,
    {
        found.push(Ok(accounts[i]));
        i = i + 1;
        assert(found@ =~= known(accounts@.take(i as int)));
    }
    assert(accounts@.take(i as int) =~= accounts@);
    found
}

/// The name of a validator of the first hour.
fn no_name() -> (name: Vec<u8>)
    ensures
        name@ == blank_name(),
{
    let name: Vec<u8> = vec![0, 0, 0, 0, 0, 0, 0, 0];
    assert(name@ =~= blank_name());
    name
}

impl Module {
    /// Has one staker of the first hour bond, and validate or nominate.
    fn genesis_staker(&mut self, staker: &GenesisStaker, free: Balance, now: Moment) -> (actions:
        Vec<Action>)
        requires
            now + MONTH_IN_SECONDS * GENESIS_MONTHS <= Moment::MAX,
            old(self)@.valid(),
        ensures
            (final(self)@, actions@) == old(self)@.genesis_staker(*staker, free, now),
            final(self)@.valid(),
    {
        let outcome = self.bond(
            staker.0,
            Ok(staker.1),
            StakingBalance::Ring(staker.2),
            RewardDestination::Stash,
            GENESIS_MONTHS,
            free,
            now,
        );
        match &staker.3 {
            StakerStatus::Idle => {},
            StakerStatus::Validator => {
                let _ = self.validate(staker.1, no_name(), 0, GENESIS_THRESHOLD);
            },
            StakerStatus::Nominator(votes) => {
                let _ = self.nominate(staker.1, look_up_known(votes));
            },
        }
        match outcome {
            Ok(actions) => actions,
            Err(_) => Vec::new(),
        }
    }

    /// The first state. The stakers bond one after the other, for a year, and each has to have the
    /// RING: `free` holds the free RING of each.
    pub fn genesis(config: GenesisConfig, params: Params, free: &Vec<Balance>, now: Moment) -> (r: (
        Module,
        Vec<Action>,
    ))
        requires
            free@.len() == config.stakers@.len(),
            forall|i: int|
                0 <= i < free@.len() ==> #[trigger] free@[i] >= config.stakers@[i].2,
            free@.len() > 0 ==> now + MONTH_IN_SECONDS * GENESIS_MONTHS <= Moment::MAX,
        ensures
            (r.0@, r.1@) == config.blank_state(params).genesis_stakers(
                config.stakers@,
                free@,
                now,
            ),
            r.0@.valid(),
    {
        let ghost blank = config.blank_state(params);
        let stakers: Vec<GenesisStaker> = config.stakers;
        let mut module = Module {
            params,
            validator_count: config.validator_count,
            minimum_validator_count: config.minimum_validator_count,
            session_reward: config.session_reward,
            offline_slash: config.offline_slash,
            offline_slash_grace: config.offline_slash_grace,
            invulnerables: config.invulnerables,
            bonded: BTreeMap::new(),
            ledger: BTreeMap::new(),
            payee: BTreeMap::new(),
            validators: BTreeMap::new(),
            nominators: BTreeMap::new(),
            stakers: BTreeMap::new(),
            current_elected: Vec::new(),
            current_era: config.current_era,
            current_session_reward: config.current_session_reward,
            current_era_reward: 0,
            slot_stake: slot_stake(&stakers),
            slash_count: BTreeMap::new(),
            recently_offline: Vec::new(),
            force_new_era: false,
            epoch_index: 0,
            current_era_total_reward: config.current_era_total_reward,
            should_offline: Vec::new(),
            node_name: BTreeMap::new(),
        };
        assert(module@ =~= blank);
        let mut actions: Vec<Action> = Vec::new();
        let mut i: usize = 0;
        while i < stakers.len()
            invariant
                i <= stakers@.len(),
                free@.len() == stakers@.len(),
                free@.len() > 0 ==> now + MONTH_IN_SECONDS * GENESIS_MONTHS <= Moment::MAX,
                (module@, actions@) == blank.genesis_stakers(
                    stakers@.take(i as int),
                    free@,
                    now,
                ),
                module@.valid(),
            decreases stakers@.len() - i,
        {
            proof {
                let next = stakers@.take(i + 1);
                assert(next.drop_last() =~= stakers@.take(i as int));
                assert(next.last() == stakers@[i as int]);
            }
            let ghost before = actions@;
            let mut more = module.genesis_staker(&stakers[i], free[i], now);
            let ghost added = more@;
            actions.append(&mut more);
            assert(actions@ =~= before + added);
            i = i + 1;
        }
        assert(stakers@.take(i as int) =~= stakers@);
        (module, actions)
    }
}

} // verus!
