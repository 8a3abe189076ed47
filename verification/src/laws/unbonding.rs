//! Funds on their way out.
use crate::calls::pending_power;
use crate::laws::total;
use crate::ledger::{
    due, kton_due, kton_in, lemma_released_bounded, lemma_sum_due_nonneg, lemma_unbonded_valid,
    ring_due, ring_in, sum_due, Amount, Chunk, LedgerView,
};
use crate::state::State;
use crate::types::{AccountId, Action, Balance, EraIndex, Error, Moment, StakingBalance};
use vstd::prelude::*;

verus! {

/// Unbonding takes nothing out of a ledger: it holds as much RING and KTON as before, with as much
/// power, until the funds are withdrawn.
pub proof fn unbonding_keeps_totals(
    ledger: LedgerView,
    value: Amount,
    is_regular: bool,
    now: Moment,
    era: EraIndex,
)
    requires
        ledger.valid(),
    ensures
        ledger.unbonded(value, is_regular, now, era).total_ring() == ledger.total_ring(),
        ledger.unbonded(value, is_regular, now, era).normal_kton == ledger.normal_kton,
        ledger.unbonded(value, is_regular, now, era).total_power == ledger.total_power,
        ledger.unbonded(value, is_regular, now, era).stash == ledger.stash,
{
    lemma_unbonded_valid(ledger, value, is_regular, now, era);
}

/// Unbonded funds stay for as long as they have to: in every era before the one they are due in,
/// withdrawing leaves the chunk in the ledger, and from that era on no withdrawal leaves it.
pub proof fn unbonded_funds_stay_until_due(ledger: LedgerView, era: EraIndex, chunk: Chunk)
    ensures
        ledger.consolidated(era).unlocking.contains(chunk) <==> ledger.unlocking.contains(chunk)
            && era < chunk.era,
{
    let stays = |c: Chunk| !due(c, era);
    let chunks = ledger.unlocking;
    lemma_filter_is_part(chunks, stays);
    if chunks.contains(chunk) && era < chunk.era {
        let i = choose|i: int| 0 <= i < chunks.len() && chunks[i] == chunk;
        chunks.lemma_filter_contains(stays, i);
    }
    if chunks.filter(stays).contains(chunk) {
        let i = choose|i: int|
            0 <= i < chunks.filter(stays).len() && chunks.filter(stays)[i] == chunk;
        chunks.lemma_filter_pred(stays, i);
    }
}

/// Funds remain bonded for the bonding duration: after they were unbonded, a withdrawal in any era
/// before the duration is over leaves them on their way out.
pub proof fn unbonded_funds_remain_for_the_bonding_duration(
    state: State,
    controller: AccountId,
    value: Amount,
    is_regular: bool,
    now: Moment,
    era: EraIndex,
)
    requires
        state.unbond(controller, value, is_regular, now).1 is Ok,
        state.current_era + state.params.bonding_duration <= EraIndex::MAX,
        era < state.current_era + state.params.bonding_duration,
    ensures
        ({
            let unbonded = state.unbond(controller, value, is_regular, now).0;
            let chunk = unbonded.ledger[controller].unlocking.last();
            let later = State { current_era: era, ..unbonded };
            let withdrawn = later.withdraw_unbonded(controller).0;
            withdrawn.ledger[controller].unlocking.contains(chunk)
        }),
{
    let ledger = state.unbond(controller, value, is_regular, now).0.ledger[controller];
    let chunk = ledger.unlocking.last();
    assert(ledger.unlocking[ledger.unlocking.len() - 1] == chunk);
    unbonded_funds_stay_until_due(ledger, era, chunk);
}

/// A filtered sequence holds nothing that the sequence does not hold.
proof fn lemma_filter_is_part(chunks: Seq<Chunk>, pred: spec_fn(Chunk) -> bool)
    ensures
        forall|c: Chunk| chunks.filter(pred).contains(c) ==> chunks.contains(c),
    decreases chunks.len(),
{
    reveal(Seq::filter);
    if chunks.len() > 0 {
        let before = chunks.drop_last();
        lemma_filter_is_part(before, pred);
        assert forall|c: Chunk| chunks.filter(pred).contains(c) implies chunks.contains(c) by {
            let out = chunks.filter(pred);
            let i = choose|i: int| 0 <= i < out.len() && out[i] == c;
            if pred(chunks.last()) && i == out.len() - 1 {
                assert(chunks[chunks.len() - 1] == c);
            } else {
                assert(before.filter(pred)[i] == c);
                assert(before.contains(c));
                let j = choose|j: int| 0 <= j < before.len() && before[j] == c;
                assert(chunks[j] == c);
            }
        }
    }
}

/// What is due in a later era is what is due in an earlier one and what of the rest is due then.
proof fn lemma_due_splits(
    chunks: Seq<Chunk>,
    earlier: EraIndex,
    later: EraIndex,
    amount: spec_fn(Chunk) -> int,
)
    requires
        earlier <= later,
    ensures
        sum_due(chunks, later, amount) == sum_due(chunks, earlier, amount) + sum_due(
            chunks.filter(|c: Chunk| !due(c, earlier)),
            later,
            amount,
        ),
        chunks.filter(|c: Chunk| !due(c, earlier)).filter(|c: Chunk| !due(c, later))
            == chunks.filter(|c: Chunk| !due(c, later)),
    decreases chunks.len(),
{
    reveal(Seq::filter);
    if chunks.len() > 0 {
        lemma_due_splits(chunks.drop_last(), earlier, later, amount);
        let stays = |c: Chunk| !due(c, earlier);
        let before = chunks.drop_last().filter(stays);
        if stays(chunks.last()) {
            assert(before.push(chunks.last()).drop_last() =~= before);
        }
    }
}

/// Withdrawing early makes no difference: a ledger that is withdrawn from in one era and in a
/// later one ends up as if it had been withdrawn from in the later one alone. In particular a
/// second withdrawal in the same era changes nothing.
pub proof fn withdrawing_in_between_makes_no_difference(
    ledger: LedgerView,
    earlier: EraIndex,
    later: EraIndex,
)
    requires
        earlier <= later,
    ensures
        ledger.consolidated(earlier).consolidated(later) == ledger.consolidated(later),
{
    let chunks = ledger.unlocking;
    let rest = chunks.filter(|c: Chunk| !due(c, earlier));
    let power = |c: Chunk| c.dt_power as int;
    let ring = |c: Chunk| ring_in(c);
    let kton = |c: Chunk| kton_in(c);
    lemma_due_splits(chunks, earlier, later, power);
    lemma_due_splits(chunks, earlier, later, ring);
    lemma_due_splits(chunks, earlier, later, kton);
    lemma_sum_due_nonneg(chunks, earlier, power);
    lemma_sum_due_nonneg(chunks, earlier, ring);
    lemma_sum_due_nonneg(chunks, earlier, kton);
    lemma_sum_due_nonneg(rest, later, power);
    lemma_sum_due_nonneg(rest, later, ring);
    lemma_sum_due_nonneg(rest, later, kton);
    assert(ledger.consolidated(earlier).consolidated(later) =~= ledger.consolidated(later));
}

/// A controller who withdraws a second time in the same era gets nothing, and nothing changes.
pub proof fn second_withdrawal_is_empty(state: State, controller: AccountId)
    requires
        state.ledger.contains_key(controller),
    ensures
        state.withdraw_unbonded(controller).0.withdraw_unbonded(controller).0
            == state.withdraw_unbonded(controller).0,
        state.withdraw_unbonded(controller).0.withdraw_unbonded(controller).1 == Ok::<
            Seq<Action>,
            Error,
        >(Seq::empty()),
{
    let era = state.current_era;
    let once = state.withdraw_unbonded(controller).0;
    let (twice, outcome) = once.withdraw_unbonded(controller);
    let before = state.ledger[controller];
    let after = once.ledger[controller];
    withdrawing_in_between_makes_no_difference(before, era, era);
    assert(twice.ledger =~= once.ledger);
    assert(twice =~= once);
    assert forall|i: int| 0 <= i < after.unlocking.len() implies !due(
        #[trigger] after.unlocking[i],
        era,
    ) by {
        before.unlocking.lemma_filter_pred(|c: Chunk| !due(c, era), i);
    }
    assert(outcome->Ok_0 =~= Seq::<Action>::empty());
}

/// Of a chunk at the end, what is due is what was due before and the chunk, if it is due.
proof fn lemma_due_pushed(
    chunks: Seq<Chunk>,
    chunk: Chunk,
    era: EraIndex,
    amount: spec_fn(Chunk) -> int,
)
    ensures
        sum_due(chunks.push(chunk), era, amount) == sum_due(chunks, era, amount) + if due(
            chunk,
            era,
        ) {
            amount(chunk)
        } else {
            0
        },
        chunks.push(chunk).filter(|c: Chunk| !due(c, era)) == if due(chunk, era) {
            chunks.filter(|c: Chunk| !due(c, era))
        } else {
            chunks.filter(|c: Chunk| !due(c, era)).push(chunk)
        },
{
    reveal(Seq::filter);
    assert(chunks.push(chunk).drop_last() =~= chunks);
}

/// Bonding KTON, unbonding it and withdrawing it when it is due leaves the KTON, the power and the
/// chunks as withdrawing alone would have left them.
pub proof fn kton_comes_back_out(
    ledger: LedgerView,
    value: Balance,
    is_regular: bool,
    now: Moment,
    era: EraIndex,
    later: EraIndex,
)
    requires
        ledger.sound(),
        ledger.normal_kton + value <= Balance::MAX,
        era <= later,
    ensures
        ({
            let out = ledger.with_kton(value).unbonded(
                StakingBalance::Kton(value),
                is_regular,
                now,
                era,
            ).consolidated(later);
            let alone = ledger.consolidated(later);
            &&& out.normal_kton == alone.normal_kton
            &&& out.total_power == alone.total_power
            &&& out.active_power == alone.active_power
            &&& out.unlocking == alone.unlocking
        }),
{
    let staked = ledger.with_kton(value);
    let unbonded = staked.unbonded(StakingBalance::Kton(value), is_regular, now, era);
    let chunk = unbonded.unlocking.last();
    let chunks = ledger.unlocking;
    let power = |c: Chunk| c.dt_power as int;
    let kton = |c: Chunk| kton_in(c);
    lemma_due_pushed(chunks, chunk, later, power);
    lemma_due_pushed(chunks, chunk, later, kton);
    lemma_due_within_pending(chunks, later);
}

/// Bonding RING under no promise, unbonding it and withdrawing it when it is due leaves the RING,
/// the power and the chunks as withdrawing alone would have left them.
pub proof fn ring_comes_back_out(
    ledger: LedgerView,
    value: Balance,
    now: Moment,
    era: EraIndex,
    later: EraIndex,
)
    requires
        ledger.sound(),
        ledger.total_ring() + value <= Balance::MAX,
        era <= later,
    ensures
        ({
            let out = ledger.with_ring(value, 0, now).unbonded(
                StakingBalance::Ring(value),
                false,
                now,
                era,
            ).consolidated(later);
            let alone = ledger.consolidated(later);
            &&& out.normal_ring == alone.normal_ring
            &&& out.regular_ring == alone.regular_ring
            &&& out.total_power == alone.total_power
            &&& out.active_power == alone.active_power
            &&& out.unlocking == alone.unlocking
        }),
{
    let staked = ledger.with_ring(value, 0, now);
    let unbonded = staked.unbonded(StakingBalance::Ring(value), false, now, era);
    let chunk = unbonded.unlocking.last();
    let chunks = ledger.unlocking;
    let power = |c: Chunk| c.dt_power as int;
    let ring = |c: Chunk| ring_in(c);
    lemma_due_pushed(chunks, chunk, later, power);
    lemma_due_pushed(chunks, chunk, later, ring);
    lemma_due_within_pending(chunks, later);
}

/// The power that is due is no more than the power on its way out.
proof fn lemma_due_within_pending(chunks: Seq<Chunk>, era: EraIndex)
    ensures
        0 <= sum_due(chunks, era, |c: Chunk| c.dt_power as int) <= pending_power(chunks),
    decreases chunks.len(),
{
    if chunks.len() > 0 {
        lemma_due_within_pending(chunks.drop_last(), era);
    }
}

/// Unbonding is refused for these reasons and no others: the account is no controller, or
/// thirty-two chunks are on their way out already.
pub proof fn when_unbonding_is_refused(
    state: State,
    controller: AccountId,
    value: Amount,
    is_regular: bool,
    now: Moment,
)
    ensures
        ({
            let outcome = state.unbond(controller, value, is_regular, now).1;
            let known = state.ledger.contains_key(controller);
            let chunks = state.ledger[controller].unlocking.len();
            &&& outcome == Err::<(), Error>(Error::NotController) <==> !known
            &&& outcome == Err::<(), Error>(Error::TooManyChunks) <==> known && chunks >= 32
            &&& outcome is Ok <==> known && chunks < 32
        }),
{
}

/// Unbonding can be reckoned with in every case but one: it would be accepted, and the era in which
/// the funds are due cannot be expressed.
pub proof fn when_unbonding_fits(
    state: State,
    controller: AccountId,
    value: Amount,
    is_regular: bool,
    now: Moment,
)
    ensures
        !state.unbond_fits(controller, value, is_regular, now) <==> {
            &&& state.ledger.contains_key(controller)
            &&& state.ledger[controller].unlocking.len() < 32
            &&& state.current_era + state.params.bonding_duration > EraIndex::MAX
        },
{
}

/// Unbonding touches the one ledger alone, and sends exactly one chunk on its way out, behind those
/// that are. It is due when the bonding duration is over. The power that it takes along is no
/// longer active, and the total power stays.
pub proof fn unbonding_sends_one_chunk_out(
    state: State,
    controller: AccountId,
    value: Amount,
    is_regular: bool,
    now: Moment,
)
    requires
        state.unbond(controller, value, is_regular, now).1 is Ok,
        state.ledger[controller].valid(),
        0 <= state.ledger[controller].active_power,
        0 <= state.ledger[controller].normal_ring,
        0 <= state.ledger[controller].normal_kton <= Balance::MAX,
        0 <= state.ledger[controller].regular_ring,
        state.current_era + state.params.bonding_duration <= EraIndex::MAX,
    ensures
        ({
            let after = state.unbond(controller, value, is_regular, now).0;
            let old = state.ledger[controller];
            let new = after.ledger[controller];
            let chunk = new.unlocking.last();
            let out = match chunk.value {
                StakingBalance::Ring(r) => r as int,
                StakingBalance::Kton(k) => k * 10_000,
            };
            &&& after == (State { ledger: after.ledger, ..state })
            &&& after.ledger.contains_key(controller)
            &&& after.ledger.remove(controller) == state.ledger.remove(controller)
            &&& new.unlocking.len() == old.unlocking.len() + 1
            &&& new.unlocking.drop_last() == old.unlocking
            &&& chunk.era == state.current_era + state.params.bonding_duration
            &&& chunk.value is Ring <==> value is Ring
            &&& new == old.unbonded(value, is_regular, now, chunk.era)
            &&& new.active_power == old.active_power - chunk.dt_power
            &&& 0 <= new.active_power
            &&& 10_000 * chunk.dt_power <= out
            &&& new.active_power == 0 || out < 10_000 * (chunk.dt_power + 1)
            &&& new.total_power == old.total_power
            &&& new.stash == old.stash
            &&& new.normal_kton == old.normal_kton
            &&& new.active_kton == old.active_kton
        }),
{
    let after = state.unbond(controller, value, is_regular, now).0;
    let old = state.ledger[controller];
    let new = after.ledger[controller];
    if let StakingBalance::Ring(r) = value {
        lemma_released_bounded(old.regular_items, r, now);
    }
    assert(after.ledger.remove(controller) =~= state.ledger.remove(controller));
    assert(new.unlocking.drop_last() =~= old.unlocking);
}

/// Of normal RING and of KTON, what is sent out is what was asked for, or what the ledger holds
/// where that is less. The ledger holds all of it until it is withdrawn, and the promises are not
/// concerned.
pub proof fn normal_funds_are_unbonded_as_asked_for(
    state: State,
    controller: AccountId,
    value: Amount,
    is_regular: bool,
    now: Moment,
)
    requires
        state.unbond(controller, value, is_regular, now).1 is Ok,
        value is Ring ==> !is_regular,
        0 <= state.ledger[controller].normal_ring,
        0 <= state.ledger[controller].normal_kton,
    ensures
        ({
            let old = state.ledger[controller];
            let new = state.unbond(controller, value, is_regular, now).0.ledger[controller];
            let (asked, held) = match value {
                StakingBalance::Ring(r) => (r as int, old.normal_ring),
                StakingBalance::Kton(k) => (k as int, old.normal_kton),
            };
            let sent = match new.unlocking.last().value {
                StakingBalance::Ring(r) => r as int,
                StakingBalance::Kton(k) => k as int,
            };
            &&& asked <= held ==> sent == asked
            &&& asked > held ==> sent == held
            &&& new == (LedgerView {
                active_power: new.active_power,
                unlocking: new.unlocking,
                ..old
            })
        }),
{
}

/// The amount in each chunk, nothing for one whose era has not come.
pub open spec fn leaving(
    chunks: Seq<Chunk>,
    era: EraIndex,
    amount: spec_fn(Chunk) -> int,
) -> Seq<int> {
    Seq::new(
        chunks.len(),
        |i: int|
            if chunks[i].era <= era {
                amount(chunks[i])
            } else {
                0
            },
    )
}

/// A sum over what is due is the sum over all chunks, those that are not due counting nothing.
proof fn lemma_sum_due_is_total(chunks: Seq<Chunk>, era: EraIndex, amount: spec_fn(Chunk) -> int)
    ensures
        sum_due(chunks, era, amount) == total(leaving(chunks, era, amount)),
    decreases chunks.len(),
{
    if chunks.len() > 0 {
        let before = chunks.drop_last();
        lemma_sum_due_is_total(before, era, amount);
        assert(leaving(chunks, era, amount).drop_last() =~= leaving(before, era, amount));
    }
}

/// What leaves a ledger is what the chunks that are due hold, the RING, the KTON and the power of
/// each of them once, as far as the ledger has it. The other chunks stay, in their order, and so
/// does everything else in the ledger.
pub proof fn what_is_due_leaves_the_ledger(ledger: LedgerView, era: EraIndex)
    requires
        0 <= ledger.total_power,
        0 <= ledger.normal_ring,
        0 <= ledger.normal_kton,
    ensures
        ({
            let after = ledger.consolidated(era);
            let chunks = ledger.unlocking;
            let ring_of = |c: Chunk|
                match c.value {
                    StakingBalance::Ring(r) => r as int,
                    StakingBalance::Kton(_) => 0,
                };
            let kton_of = |c: Chunk|
                match c.value {
                    StakingBalance::Ring(_) => 0,
                    StakingBalance::Kton(k) => k as int,
                };
            let ring = total(leaving(chunks, era, ring_of));
            let kton = total(leaving(chunks, era, kton_of));
            let power = total(leaving(chunks, era, |c: Chunk| c.dt_power as int));
            &&& ring <= ledger.normal_ring ==> after.normal_ring == ledger.normal_ring - ring
            &&& ring > ledger.normal_ring ==> after.normal_ring == 0
            &&& kton <= ledger.normal_kton ==> after.normal_kton == ledger.normal_kton - kton
            &&& kton > ledger.normal_kton ==> after.normal_kton == 0
            &&& power <= ledger.total_power ==> after.total_power == ledger.total_power - power
            &&& power > ledger.total_power ==> after.total_power == 0
            &&& after.unlocking == chunks.filter(|c: Chunk| c.era > era)
            &&& after == (LedgerView {
                normal_ring: after.normal_ring,
                normal_kton: after.normal_kton,
                total_power: after.total_power,
                unlocking: after.unlocking,
                ..ledger
            })
        }),
{
    let chunks = ledger.unlocking;
    let ring_of = |c: Chunk|
        match c.value {
            StakingBalance::Ring(r) => r as int,
            StakingBalance::Kton(_) => 0,
        };
    let kton_of = |c: Chunk|
        match c.value {
            StakingBalance::Ring(_) => 0,
            StakingBalance::Kton(k) => k as int,
        };
    assert(ring_of =~= (|c: Chunk| ring_in(c)));
    assert(kton_of =~= (|c: Chunk| kton_in(c)));
    lemma_sum_due_is_total(chunks, era, |c: Chunk| c.dt_power as int);
    lemma_sum_due_is_total(chunks, era, ring_of);
    lemma_sum_due_is_total(chunks, era, kton_of);
    assert((|c: Chunk| !due(c, era)) =~= (|c: Chunk| c.era > era));
}

/// A withdrawal touches the one ledger alone, and takes out what is due in the current era. The
/// lock on a currency is set anew if and only if some of it was due, to what the ledger holds then;
/// RING comes before KTON. Only an account that is no controller is refused.
pub proof fn a_withdrawal_takes_out_what_is_due(state: State, controller: AccountId)
    ensures
        ({
            let (after, outcome) = state.withdraw_unbonded(controller);
            let old = state.ledger[controller];
            let new = after.ledger[controller];
            let era = state.current_era;
            let ring = exists|i: int|
                0 <= i < old.unlocking.len() && (#[trigger] old.unlocking[i]).era <= era
                    && old.unlocking[i].value is Ring;
            let kton = exists|i: int|
                0 <= i < old.unlocking.len() && (#[trigger] old.unlocking[i]).era <= era
                    && old.unlocking[i].value is Kton;
            let lock_ring = Action::LockRing {
                who: old.stash,
                amount: (new.normal_ring + new.regular_ring) as Balance,
            };
            let lock_kton = Action::LockKton {
                who: old.stash,
                amount: new.normal_kton as Balance,
            };
            if state.ledger.contains_key(controller) {
                &&& after.ledger.contains_key(controller)
                &&& new == old.consolidated(era)
                &&& after.ledger.remove(controller) == state.ledger.remove(controller)
                &&& after == (State { ledger: after.ledger, ..state })
                &&& outcome is Ok
                &&& ring && kton ==> outcome->Ok_0 == seq![lock_ring, lock_kton]
                &&& ring && !kton ==> outcome->Ok_0 == seq![lock_ring]
                &&& !ring && kton ==> outcome->Ok_0 == seq![lock_kton]
                &&& !ring && !kton ==> outcome->Ok_0 == Seq::<Action>::empty()
            } else {
                outcome == Err::<Seq<Action>, Error>(Error::NotController)
            }
        }),
{
    let (after, outcome) = state.withdraw_unbonded(controller);
    let old = state.ledger[controller];
    let new = after.ledger[controller];
    let chunks = old.unlocking;
    let era = state.current_era;
    let ring = exists|i: int|
        0 <= i < chunks.len() && (#[trigger] chunks[i]).era <= era && chunks[i].value is Ring;
    let kton = exists|i: int|
        0 <= i < chunks.len() && (#[trigger] chunks[i]).era <= era && chunks[i].value is Kton;
    assert(ring <==> ring_due(chunks, era)) by {
        if ring {
            let i = choose|i: int|
                0 <= i < chunks.len() && (#[trigger] chunks[i]).era <= era
                    && chunks[i].value is Ring;
            assert(due(chunks[i], era));
        }
    }
    assert(kton <==> kton_due(chunks, era)) by {
        if kton {
            let i = choose|i: int|
                0 <= i < chunks.len() && (#[trigger] chunks[i]).era <= era
                    && chunks[i].value is Kton;
            assert(due(chunks[i], era));
        }
    }
    if state.ledger.contains_key(controller) {
        assert(after.ledger.remove(controller) =~= state.ledger.remove(controller));
        let lock_ring = Action::LockRing {
            who: old.stash,
            amount: (new.normal_ring + new.regular_ring) as Balance,
        };
        let lock_kton = Action::LockKton { who: old.stash, amount: new.normal_kton as Balance };
        if ring && kton {
            assert(outcome->Ok_0 =~= seq![lock_ring, lock_kton]);
        } else if ring {
            assert(outcome->Ok_0 =~= seq![lock_ring]);
        } else if kton {
            assert(outcome->Ok_0 =~= seq![lock_kton]);
        } else {
            assert(outcome->Ok_0 =~= Seq::<Action>::empty());
        }
    }
}

} // verus!
