//! Sessions, eras and epochs.
use crate::calls::Call;
use crate::state::State;
use crate::types::{Balance, BlockNumber, EraIndex, SessionIndex};
use vstd::prelude::*;

verus! {

/// Sessions and eras, with the rewards that they bring, leave what is at stake alone.
pub proof fn time_leaves_stakes_alone(state: State, next_era_reward: Option<Balance>)
    ensures
        state.new_session().bonded == state.bonded,
        state.new_session().ledger == state.ledger,
        state.new_session().payee == state.payee,
        state.new_era(next_era_reward).bonded == state.bonded,
        state.new_era(next_era_reward).ledger == state.ledger,
        state.new_era(next_era_reward).payee == state.payee,
{
}

/// A session begins, and an era with it if it is time for one.
pub open spec fn session(
    state: State,
    session_index: SessionIndex,
    next_era_reward: Option<Balance>,
) -> State {
    if state.era_begins(session_index) {
        state.new_session().new_era(next_era_reward)
    } else {
        state.new_session()
    }
}

/// The state after an era was forced `times` times.
pub open spec fn forced(state: State, times: nat) -> State
    decreases times,
{
    if times == 0 {
        state
    } else {
        forced(state, (times - 1) as nat).after(Call::ForceNewEra).0
    }
}

/// Forcing an era several times is forcing it once.
pub proof fn forcing_again_changes_nothing(state: State, times: nat)
    requires
        times > 0,
    ensures
        forced(state, times) == state.after(Call::ForceNewEra).0,
    decreases times,
{
    reveal_with_fuel(forced, 2);
    if times > 1 {
        forcing_again_changes_nothing(state, (times - 1) as nat);
    }
}

/// An era that is forced, however often, comes once: it begins with the next session, whatever its
/// number, and the session after that begins none unless it is time for one. Where it is not, the
/// eras have grown by exactly one.
pub proof fn a_forced_era_comes_once(
    state: State,
    times: nat,
    session_index: SessionIndex,
    next_era_reward: Option<Balance>,
    later_era_reward: Option<Balance>,
)
    requires
        times > 0,
        session_index < SessionIndex::MAX,
        state.current_era < EraIndex::MAX,
        (session_index + 1) as SessionIndex % state.params.sessions_per_era != 0,
    ensures
        ({
            let start = forced(state, times);
            let next = (session_index + 1) as SessionIndex;
            let first = session(start, session_index, next_era_reward);
            let second = session(first, next, later_era_reward);
            &&& start.era_begins(session_index)
            &&& !start.new_session().era_begins(next)
            &&& !first.era_begins(next)
            &&& first.current_era == state.current_era + 1
            &&& second.current_era == state.current_era + 1
        }),
{
    forcing_again_changes_nothing(state, times);
}

/// An era starts from zero, unless an epoch begins with it: then from what comes with the epoch,
/// if that could be computed. The epochs are counted accordingly.
pub proof fn an_era_starts_from_zero(state: State, next_era_reward: Option<Balance>)
    requires
        state.current_era < EraIndex::MAX,
        state.epoch_ends() ==> state.epoch_index < BlockNumber::MAX,
    ensures
        ({
            let after = state.new_era(next_era_reward);
            &&& after.current_era == state.current_era + 1
            &&& !state.epoch_ends() ==> after.current_era_total_reward == 0
                && after.epoch_index == state.epoch_index
            &&& state.epoch_ends() ==> after.epoch_index == state.epoch_index + 1
                && after.current_era_total_reward == match next_era_reward {
                Some(reward) => reward,
                None => 0,
            }
        }),
{
}

/// The state after `count` sessions without an era.
pub open spec fn sessions(state: State, count: nat) -> State
    decreases count,
{
    if count == 0 {
        state
    } else {
        sessions(state, (count - 1) as nat).new_session()
    }
}

/// The reward of an era increases by the same for every session that finishes in it, and so does
/// the reward of all sessions.
pub proof fn a_reward_increases_with_every_session(state: State, count: nat)
    requires
        state.current_era_total_reward + count * state.current_session_reward <= Balance::MAX,
        state.current_era_reward + count * state.current_session_reward <= Balance::MAX,
    ensures
        sessions(state, count).current_era_total_reward == state.current_era_total_reward + count
            * state.current_session_reward,
        sessions(state, count).current_era_reward == state.current_era_reward + count
            * state.current_session_reward,
        sessions(state, count).current_session_reward == state.current_session_reward,
        sessions(state, count).current_era == state.current_era,
    decreases count,
{
    let each = state.current_session_reward as int;
    if count == 0 {
        assert(count * each == 0) by (nonlinear_arith)
            requires
                count == 0,
        ;
    } else {
        let fewer = (count - 1) as nat;
        assert(count * each == fewer * each + each && 0 <= fewer * each) by (nonlinear_arith)
            requires
                count == fewer + 1,
                0 <= each,
        ;
        a_reward_increases_with_every_session(state, fewer);
    }
}

/// An era begins with every session whose number is a multiple of the sessions per era, and with no
/// other unless it is forced.
pub proof fn when_an_era_begins(state: State, session_index: SessionIndex)
    requires
        state.params.sessions_per_era > 0,
    ensures
        state.era_begins(session_index) <==> state.force_new_era || exists|k: int|
            session_index == #[trigger] (k * state.params.sessions_per_era),
{
    lemma_multiple(session_index as int, state.params.sessions_per_era as int);
}

/// An epoch ends with every era whose number is a multiple of the eras per epoch, and with no
/// other.
pub proof fn when_an_epoch_ends(state: State)
    requires
        state.params.eras_per_epoch > 0,
    ensures
        state.epoch_ends() <==> exists|k: int|
            state.current_era == #[trigger] (k * state.params.eras_per_epoch),
{
    lemma_multiple(state.current_era as int, state.params.eras_per_epoch as int);
}

/// A number leaves no remainder if and only if it is a multiple.
proof fn lemma_multiple(number: int, of: int)
    requires
        of > 0,
    ensures
        number % of == 0 <==> exists|k: int| number == #[trigger] (k * of),
{
    if number % of == 0 {
        let k = number / of;
        assert(number == k * of) by (nonlinear_arith)
            requires
                of > 0,
                number % of == 0,
                k == number / of,
        ;
    }
    if exists|k: int| number == #[trigger] (k * of) {
        let k = choose|k: int| number == #[trigger] (k * of);
        assert(number % of == 0) by (nonlinear_arith)
            requires
                of > 0,
                number == k * of,
        ;
    }
}

/// A session adds its reward to that of the era and to that of all sessions, and uses a forced era
/// up. It changes nothing else.
pub proof fn a_session_adds_its_reward(state: State)
    requires
        state.current_era_reward + state.current_session_reward <= Balance::MAX,
        state.current_era_total_reward + state.current_session_reward <= Balance::MAX,
    ensures
        ({
            let after = state.new_session();
            &&& after.current_era_reward - state.current_era_reward == state.current_session_reward
            &&& after.current_era_total_reward - state.current_era_total_reward
                == state.current_session_reward
            &&& !after.force_new_era
            &&& after == (State {
                current_era_reward: after.current_era_reward,
                current_era_total_reward: after.current_era_total_reward,
                force_new_era: after.force_new_era,
                ..state
            })
        }),
{
}

/// A session can be reckoned with if and only if both rewards that it adds to can be expressed.
pub proof fn when_a_session_fits(state: State)
    ensures
        state.session_fits() <==> state.current_era_reward + state.current_session_reward
            <= Balance::MAX && state.current_era_total_reward + state.current_session_reward
            <= Balance::MAX,
{
}

/// An epoch counts one more, and brings its reward if that could be computed. It changes nothing
/// else; nor does an era, but for its own number.
pub proof fn eras_and_epochs_change_nothing_else(state: State, next_era_reward: Option<Balance>)
    requires
        state.epoch_index < BlockNumber::MAX,
    ensures
        ({
            let epoch = state.new_epoch(next_era_reward);
            let era = state.new_era(next_era_reward);
            &&& epoch.epoch_index == state.epoch_index + 1
            &&& next_era_reward matches Some(reward) ==> epoch.current_era_total_reward == reward
            &&& next_era_reward is None ==> epoch.current_era_total_reward
                == state.current_era_total_reward
            &&& epoch == (State {
                epoch_index: epoch.epoch_index,
                current_era_total_reward: epoch.current_era_total_reward,
                ..state
            })
            &&& era == (State {
                current_era: era.current_era,
                epoch_index: era.epoch_index,
                current_era_total_reward: era.current_era_total_reward,
                ..state
            })
        }),
{
}

} // verus!
