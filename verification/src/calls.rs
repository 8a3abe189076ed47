//! The calls on the staking module as values, and the invariant that they keep.
use crate::ledger::{Amount, Chunk, LedgerView, MAX_UNLOCKING_CHUNKS};
use crate::state::{Outcome, State, MAX_NOMINATIONS, MAX_UNSTAKE_THRESHOLD};
use crate::types::{AccountId, Balance, Error, Found, Moment, RewardDestination};
use vstd::prelude::*;

verus! {

/// A call on the staking module.
pub enum Call {
    Bond {
        stash: AccountId,
        controller: Found,
        value: Amount,
        payee: RewardDestination,
        months: u32,
        stash_balance: Balance,
        now: Moment,
    },
    BondExtra { stash: AccountId, value: Amount, months: u32, stash_balance: Balance, now: Moment },
    Unbond { controller: AccountId, value: Amount, is_regular: bool, now: Moment },
    WithdrawUnbonded { controller: AccountId },
    Validate { controller: AccountId, name: Seq<u8>, ratio: u32, unstake_threshold: u32 },
    Nominate { controller: AccountId, targets: Seq<Found> },
    Chill { controller: AccountId },
    SetPayee { controller: AccountId, payee: RewardDestination },
    SetController { stash: AccountId, controller: Found },
    SetValidatorCount { new: u32 },
    ForceNewEra,
    SetOfflineSlashGrace { new: u32 },
    SetInvulnerables { validators: Seq<AccountId> },
    FreeBalanceZero { stash: AccountId },
    NewSession,
    NewEra { next_era_reward: Option<Balance> },
}

/// A call that has no business with the currencies.
pub open spec fn quiet(after: (State, Result<(), Error>)) -> (State, Outcome) {
    (
        after.0,
        match after.1 {
            Ok(()) => Ok(Seq::empty()),
            Err(error) => Err(error),
        },
    )
}

impl State {
    /// What a call makes of the state, and what it has done in the currencies.
    pub open spec fn after(self, call: Call) -> (State, Outcome) {
        match call {
            Call::Bond { stash, controller, value, payee, months, stash_balance, now } => self.bond(
                stash,
                controller,
                value,
                payee,
                months,
                stash_balance,
                now,
            ),
            Call::BondExtra { stash, value, months, stash_balance, now } => self.bond_extra(
                stash,
                value,
                months,
                stash_balance,
                now,
            ),
            Call::Unbond { controller, value, is_regular, now } => quiet(
                self.unbond(controller, value, is_regular, now),
            ),
            Call::WithdrawUnbonded { controller } => self.withdraw_unbonded(controller),
            Call::Validate { controller, name, ratio, unstake_threshold } => quiet(
                self.validate(controller, name, ratio, unstake_threshold),
            ),
            Call::Nominate { controller, targets } => quiet(self.nominate(controller, targets)),
            Call::Chill { controller } => quiet(self.chill(controller)),
            Call::SetPayee { controller, payee } => quiet(self.set_payee(controller, payee)),
            Call::SetController { stash, controller } => quiet(
                self.set_controller(stash, controller),
            ),
            Call::SetValidatorCount { new } => quiet(
                (State { validator_count: new, ..self }, Ok(())),
            ),
            Call::ForceNewEra => quiet((State { force_new_era: true, ..self }, Ok(()))),
            Call::SetOfflineSlashGrace { new } => quiet(
                (State { offline_slash_grace: new, ..self }, Ok(())),
            ),
            Call::SetInvulnerables { validators } => quiet(
                (State { invulnerables: validators, ..self }, Ok(())),
            ),
            Call::FreeBalanceZero { stash } => quiet((self.on_free_balance_zero(stash), Ok(()))),
            Call::NewSession => quiet((self.new_session(), Ok(()))),
            Call::NewEra { next_era_reward } => quiet((self.new_era(next_era_reward), Ok(()))),
        }
    }

    /// Stashes and controllers come in pairs: the ledger of the controller of a stash is on that
    /// stash, and every ledger is the one of the controller of its stash.
    pub open spec fn paired(self) -> bool {
        &&& forall|stash: AccountId| #[trigger]
            self.bonded.contains_key(stash) ==> self.ledger.contains_key(self.bonded[stash])
                && self.ledger[self.bonded[stash]].stash == stash
        &&& forall|controller: AccountId| #[trigger]
            self.ledger.contains_key(controller) ==> self.bonded.contains_key(
                self.ledger[controller].stash,
            ) && self.bonded[self.ledger[controller].stash] == controller
    }

    /// Only a stash validates or nominates, and not both; it is a stash that has a destination for
    /// its rewards.
    pub open spec fn roles_apart(self) -> bool {
        &&& forall|stash: AccountId| #[trigger]
            self.validators.contains_key(stash) ==> self.bonded.contains_key(stash)
                && !self.nominators.contains_key(stash)
        &&& forall|stash: AccountId| #[trigger]
            self.nominators.contains_key(stash) ==> self.bonded.contains_key(stash)
        &&& forall|stash: AccountId|
            self.bonded.contains_key(stash) <==> #[trigger] self.payee.contains_key(stash)
    }

    /// What validators and nominators asked for is within bounds.
    pub open spec fn roles_bounded(self) -> bool {
        &&& forall|stash: AccountId| #[trigger]
            self.validators.contains_key(stash) ==> self.validators[stash].validator_payment_ratio
                <= 100 && self.validators[stash].unstake_threshold <= MAX_UNSTAKE_THRESHOLD
        &&& forall|stash: AccountId| #[trigger]
            self.nominators.contains_key(stash) ==> 0 < self.nominators[stash].len()
                <= MAX_NOMINATIONS
    }

    /// Every ledger is sound.
    pub open spec fn ledgers_sound(self) -> bool {
        forall|controller: AccountId| #[trigger]
            self.ledger.contains_key(controller) ==> self.ledger[controller].sound()
    }

    /// The invariant of the module.
    pub open spec fn sound(self) -> bool {
        &&& self.paired()
        &&& self.roles_apart()
        &&& self.roles_bounded()
        &&& self.ledgers_sound()
    }
}

/// The power that is on its way out.
pub open spec fn pending_power(chunks: Seq<Chunk>) -> int
    decreases chunks.len(),
{
    if chunks.len() == 0 {
        0
    } else {
        pending_power(chunks.drop_last()) + chunks.last().dt_power
    }
}

impl LedgerView {
    /// The ledger is valid, holds no debts, and has room for the chunks on their way out; the
    /// total power is the active power and that of those chunks.
    pub open spec fn sound(self) -> bool {
        &&& self.valid()
        &&& 0 <= self.active_power
        &&& 0 <= self.normal_ring
        &&& 0 <= self.regular_ring
        &&& 0 <= self.active_ring
        &&& 0 <= self.normal_kton <= Balance::MAX
        &&& 0 <= self.active_kton
        &&& self.unlocking.len() <= MAX_UNLOCKING_CHUNKS
        &&& self.total_power == self.active_power + pending_power(self.unlocking)
    }
}

} // verus!
