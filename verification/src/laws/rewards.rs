//! What a reward comes to.
use crate::perbill::{
    fraction_of, lemma_fraction_bounded, lemma_ratio_bounded, max, min, ratio_parts, BILLION,
};
use crate::state::{one_payout, State, PARTS_PER_PERCENT};
use crate::types::{
    AccountId, Balance, Event, IndividualExposure, Payout, PowerBalance, RewardDestination,
};
use vstd::prelude::*;

verus! {

/// What the payments come to.
pub open spec fn paid(payouts: Seq<Payout>) -> int
    decreases payouts.len(),
{
    if payouts.len() == 0 {
        0
    } else {
        paid(payouts.drop_last()) + payouts.last().amount
    }
}

/// What the nominators have at stake.
pub open spec fn backing(others: Seq<IndividualExposure<AccountId, PowerBalance>>) -> int
    decreases others.len(),
{
    if others.len() == 0 {
        0
    } else {
        backing(others.drop_last()) + others.last().value
    }
}

/// A payment, if there is one, adds its amount.
proof fn lemma_paid_one(payouts: Seq<Payout>, payout: Option<Payout>)
    ensures
        paid(payouts + one_payout(payout)) == paid(payouts) + match payout {
            Some(p) => p.amount as int,
            None => 0,
        },
{
    let all = payouts + one_payout(payout);
    match payout {
        Some(p) => {
            assert(all.drop_last() =~= payouts);
        },
        None => {
            assert(all =~= payouts);
        },
    }
}

/// Rounding adds less than a half.
proof fn lemma_fraction_rounds(parts: int, amount: int)
    ensures
        2 * BILLION * fraction_of(parts, amount) <= 2 * (parts * amount) + BILLION,
        2 * BILLION * fraction_of(parts, amount) >= 2 * (parts * amount) - BILLION,
{
    let product = parts * amount;
    assert(product == BILLION * (product / (BILLION as int)) + product % (BILLION as int));
    assert(0 <= product % (BILLION as int) < BILLION);
    let f = fraction_of(parts, amount);
    assert(2 * BILLION * f == 2_000_000_000 * f);
}

/// The sum of the parts that the nominators get.
spec fn parts_of(others: Seq<IndividualExposure<AccountId, PowerBalance>>, q: int) -> int
    decreases others.len(),
{
    if others.len() == 0 {
        0
    } else {
        parts_of(others.drop_last(), q) + ratio_parts(others.last().value as int, q)
    }
}

/// The sum of the scaled stakes of the nominators.
spec fn scaled(others: Seq<IndividualExposure<AccountId, PowerBalance>>, q: int, scale: int) -> int
    decreases others.len(),
{
    if others.len() == 0 {
        0
    } else {
        scaled(others.drop_last(), q, scale) + min(others.last().value as int, q) / scale
    }
}

/// One scaled stake, and the parts that it gets.
proof fn lemma_one_ratio(value: int, q: int, scale: int)
    requires
        0 <= value,
        1 <= q,
        scale == (q + BILLION - 1) / (BILLION as int),
    ensures
        1 <= scale <= q,
        scale * (min(value, q) / scale) <= value,
        (q / scale) * ratio_parts(value, q) <= BILLION * (min(value, q) / scale),
{
    let p = min(value, q);
    let (a, b) = (p / scale, q / scale);
    assert(1 <= scale <= q);
    assert(scale * a <= p) by (nonlinear_arith)
        requires
            1 <= scale,
            0 <= p,
            a == p / scale,
    ;
    assert(1 <= b) by (nonlinear_arith)
        requires
            1 <= scale <= q,
            b == q / scale,
    ;
    let product = a * BILLION;
    assert(b * (product / b) <= product) by (nonlinear_arith)
        requires
            1 <= b,
    ;
}

/// The nominators together: their scaled stakes, their parts, and what they are paid.
proof fn lemma_nominators(
    state: State,
    others: Seq<IndividualExposure<AccountId, PowerBalance>>,
    total: int,
    rest: Balance,
    q: int,
    scale: int,
)
    requires
        q == max(total, 1),
        scale == (q + BILLION - 1) / (BILLION as int),
    ensures
        scale * scaled(others, q, scale) <= backing(others),
        (q / scale) * parts_of(others, q) <= BILLION * scaled(others, q, scale),
        2 * BILLION * paid(state.nominator_payouts(others, total, rest as int)) <= 2 * (parts_of(
            others,
            q,
        ) * rest) + BILLION * others.len(),
    decreases others.len(),
{
    if others.len() > 0 {
        let before = others.drop_last();
        let one = others.last();
        let parts = ratio_parts(one.value as int, q);
        let share = State::share(one.value as int, total, rest as int);
        let a = min(one.value as int, q) / scale;
        lemma_nominators(state, before, total, rest, q, scale);
        lemma_one_ratio(one.value as int, q, scale);
        lemma_ratio_bounded(one.value as int, q);
        lemma_fraction_bounded(parts, rest as int);
        lemma_fraction_rounds(parts, rest as int);
        lemma_paid_one(
            state.nominator_payouts(before, total, rest as int),
            state.make_payout(one.who, share),
        );
        assert(scale * (scaled(before, q, scale) + a) == scale * scaled(before, q, scale) + scale
            * a) by (nonlinear_arith);
        assert((q / scale) * (parts_of(before, q) + parts) == (q / scale) * parts_of(before, q) + (q
            / scale) * parts) by (nonlinear_arith);
        assert((parts_of(before, q) + parts) * rest == parts_of(before, q) * rest + parts * rest)
            by (nonlinear_arith);
    }
}

/// Parts that are no more than a whole come to no more than the reward, but for rounding.
proof fn lemma_parts_add_up(
    others: int,
    own: int,
    reward: int,
    to_others: int,
    to_own: int,
    n: int,
)
    requires
        0 <= reward,
        others + own <= 1_000_000_000,
        2_000_000_000 * to_others <= 2 * (others * reward) + 1_000_000_000 * n,
        2_000_000_000 * to_own <= 2 * (own * reward) + 1_000_000_000,
    ensures
        2 * (to_others + to_own) <= 2 * reward + n + 1,
{
    assert(others * reward + own * reward <= 1_000_000_000 * reward) by (nonlinear_arith)
        requires
            0 <= reward,
            others + own <= 1_000_000_000,
    ;
}

/// A reward is not overspent but for rounding: where the backing of a validator is accounted for
/// in its total, the payments that come of a reward exceed it by less than a half for each that
/// is paid out of what is split.
pub proof fn a_reward_is_not_overspent(state: State, stash: AccountId, reward: Balance)
    requires
        state.exposure(stash).own >= 0,
        state.exposure(stash).own + backing(state.exposure(stash).others) <= state.exposure(
            stash,
        ).total,
    ensures
        2 * paid(state.reward_validator(stash, reward as int)) <= 2 * reward + state.exposure(
            stash,
        ).others.len() + 1,
{
    let exposure = state.exposure(stash);
    let ratio = min(state.prefs(stash).validator_payment_ratio as int, 100) * PARTS_PER_PERCENT;
    let up_front = state.off_the_table(stash, reward as int);
    lemma_fraction_bounded(ratio, reward as int);
    let rest = (reward - up_front) as Balance;
    let own_payout = state.make_payout(
        stash,
        State::share(exposure.own, exposure.total, rest as int) + up_front,
    );
    if rest == 0 {
        lemma_paid_one(Seq::empty(), state.make_payout(stash, up_front));
        assert(Seq::empty() + one_payout(state.make_payout(stash, up_front)) =~= one_payout(
            state.make_payout(stash, up_front),
        ));
    } else {
        let q = max(exposure.total, 1);
        let scale = (q + BILLION - 1) / (BILLION as int);
        let b = q / scale;
        let others = exposure.others;
        let own_parts = ratio_parts(exposure.own, q);
        let a = min(exposure.own, q) / scale;
        let all_a = scaled(others, q, scale) + a;
        let all_parts = parts_of(others, q) + own_parts;
        lemma_nominators(state, others, exposure.total, rest, q, scale);
        lemma_one_ratio(exposure.own, q, scale);
        lemma_ratio_bounded(exposure.own, q);
        lemma_fraction_bounded(own_parts, rest as int);
        lemma_fraction_rounds(own_parts, rest as int);
        lemma_paid_one(
            state.nominator_payouts(others, exposure.total, rest as int),
            own_payout,
        );
        assert(scale * all_a == scale * scaled(others, q, scale) + scale * a) by (nonlinear_arith)
            requires
                all_a == scaled(others, q, scale) + a,
        ;
        assert(all_a <= b) by (nonlinear_arith)
            requires
                scale * all_a <= q,
                1 <= scale,
                b == q / scale,
        ;
        assert(b * all_parts == b * parts_of(others, q) + b * own_parts) by (nonlinear_arith)
            requires
                all_parts == parts_of(others, q) + own_parts,
        ;
        assert(1 <= b) by (nonlinear_arith)
            requires
                1 <= scale <= q,
                b == q / scale,
        ;
        assert(all_parts <= BILLION) by (nonlinear_arith)
            requires
                b * all_parts <= BILLION * all_a,
                all_a <= b,
                1 <= b,
        ;
        let to_others = paid(state.nominator_payouts(others, exposure.total, rest as int));
        let share = State::share(exposure.own, exposure.total, rest as int);
        assert(2 * BILLION * to_others == 2_000_000_000 * to_others);
        assert(2 * BILLION * share == 2_000_000_000 * share);
        lemma_parts_add_up(
            parts_of(others, q),
            own_parts,
            rest as int,
            to_others,
            share,
            others.len() as int,
        );
        assert(paid(state.reward_validator(stash, reward as int)) <= to_others + share + up_front);
    }
}

/// No single payment out of a reward is more than the reward.
pub proof fn no_payment_exceeds_the_reward(state: State, stash: AccountId, reward: Balance)
    requires
        state.exposure(stash).own >= 0,
        state.exposure(stash).total >= 0,
    ensures
        forall|i: int|
            0 <= i < state.reward_validator(stash, reward as int).len() ==> (
            #[trigger] state.reward_validator(stash, reward as int)[i]).amount <= reward,
{
    let exposure = state.exposure(stash);
    let ratio = min(state.prefs(stash).validator_payment_ratio as int, 100) * PARTS_PER_PERCENT;
    let up_front = state.off_the_table(stash, reward as int);
    lemma_fraction_bounded(ratio, reward as int);
    let rest = (reward - up_front) as Balance;
    let q = max(exposure.total, 1);
    lemma_nominator_amounts(state, exposure.others, exposure.total, rest);
    lemma_ratio_bounded(exposure.own, q);
    lemma_fraction_bounded(ratio_parts(exposure.own, q), rest as int);
}

/// No payment to a nominator is more than what is split.
proof fn lemma_nominator_amounts(
    state: State,
    others: Seq<IndividualExposure<AccountId, PowerBalance>>,
    total: int,
    rest: Balance,
)
    ensures
        forall|i: int|
            0 <= i < state.nominator_payouts(others, total, rest as int).len() ==> (
            #[trigger] state.nominator_payouts(others, total, rest as int)[i]).amount <= rest,
    decreases others.len(),
{
    if others.len() > 0 {
        let one = others.last();
        let q = max(total, 1);
        lemma_nominator_amounts(state, others.drop_last(), total, rest);
        lemma_ratio_bounded(one.value as int, q);
        lemma_fraction_bounded(ratio_parts(one.value as int, q), rest as int);
        let before = state.nominator_payouts(others.drop_last(), total, rest as int);
        let after = state.nominator_payouts(others, total, rest as int);
        assert(forall|i: int| 0 <= i < before.len() ==> after[i] == before[i]);
    }
}

/// The ratio that a validator asks for is the percentage of the reward that it takes up-front, to
/// the nearest whole number; more than a hundred percent counts as a hundred.
pub proof fn validators_take_their_percentage_up_front(
    state: State,
    controller: AccountId,
    name: Seq<u8>,
    ratio: u32,
    unstake_threshold: u32,
    reward: Balance,
)
    requires
        state.validate(controller, name, ratio, unstake_threshold).1 is Ok,
    ensures
        ({
            let after = state.validate(controller, name, ratio, unstake_threshold).0;
            let up_front = after.off_the_table(state.ledger[controller].stash, reward as int);
            let exact = min(ratio as int, 100) * reward;
            100 * up_front - 50 <= exact <= 100 * up_front + 50
        }),
{
    let percent = min(ratio as int, 100);
    let parts = percent * PARTS_PER_PERCENT;
    lemma_fraction_rounds(parts, reward as int);
    assert(parts * reward == 10_000_000 * (percent * reward)) by (nonlinear_arith)
        requires
            parts == percent * PARTS_PER_PERCENT,
    ;
}

/// Who has more at stake behind a validator gets no less of a reward.
pub proof fn more_stake_gets_no_less(less: int, more: int, total: int, reward: Balance)
    requires
        0 <= less <= more,
        0 <= total,
    ensures
        State::share(less, total, reward as int) <= State::share(more, total, reward as int),
{
    let q = max(total, 1);
    let scale = (q + BILLION - 1) / (BILLION as int);
    let b = q / scale;
    let (p1, p2) = (min(less, q), min(more, q));
    assert(1 <= scale <= q);
    assert(1 <= b && p1 / scale <= p2 / scale) by (nonlinear_arith)
        requires
            1 <= scale <= q,
            b == q / scale,
            0 <= p1 <= p2,
    ;
    let (a1, a2) = (p1 / scale * BILLION, p2 / scale * BILLION);
    assert(a1 / b <= a2 / b) by (nonlinear_arith)
        requires
            a1 <= a2,
            1 <= b,
    ;
    let (r1, r2) = (ratio_parts(less, q), ratio_parts(more, q));
    assert(r1 <= r2);
    assert(r1 * reward <= r2 * reward) by (nonlinear_arith)
        requires
            r1 <= r2,
            0 <= reward,
    ;
}

/// A reward goes where its stash wants it: to the stash unless it chose its controller, and to the
/// controller that it is bonded to if it did.
pub proof fn rewards_go_where_the_stash_wants_them(
    state: State,
    controller: AccountId,
    payee: RewardDestination,
    amount: Balance,
)
    requires
        state.paired(),
        state.ledger.contains_key(controller),
    ensures
        ({
            let stash = state.ledger[controller].stash;
            state.set_payee(controller, payee).0.make_payout(stash, amount as int) == Some(
                Payout {
                    who: match payee {
                        RewardDestination::Stash => stash,
                        RewardDestination::Controller => controller,
                    },
                    amount,
                },
            )
        }),
{
}

/// The account that is paid for a stash: the controller if the stash wants that and has one, and
/// the stash itself if it wants nothing else.
pub open spec fn paid_for(state: State, stash: AccountId) -> Option<AccountId> {
    if !state.payee.contains_key(stash) || state.payee[stash] is Stash {
        Some(stash)
    } else if state.bonded.contains_key(stash) {
        Some(state.bonded[stash])
    } else {
        None
    }
}

/// `parts` billionths are the part that `value` has in `total`. The part is rounded down, and
/// where the total is above a billion it is less than two billionths too small, and too large by
/// no more than one in 999,999,999 of itself.
pub open spec fn is_part(parts: int, value: int, total: int) -> bool {
    let whole = if total >= 1 {
        total
    } else {
        1
    };
    let stake = if value <= whole {
        value
    } else {
        whole
    };
    &&& 0 <= parts <= 1_000_000_000
    &&& whole <= 1_000_000_000 ==> parts * whole <= 1_000_000_000 * stake < (parts + 1) * whole
    &&& 1_000_000_000 * stake < (parts + 2) * whole
    &&& 999_999_999 * (parts * whole) <= 1_000_000_000_000_000_000 * stake
}

/// `amount` is `parts` billionths of `reward`, to the nearest whole number, an exact half down.
pub open spec fn is_rounded(amount: int, parts: int, reward: int) -> bool {
    -1_000_000_000 < 2 * (parts * reward) - 2_000_000_000 * amount <= 1_000_000_000
}

/// `amount` is what a stake of `value` out of `total` has in `reward`.
pub open spec fn is_share(amount: int, value: int, total: int, reward: int) -> bool {
    exists|parts: int| #[trigger]
        is_part(parts, value, total) && is_rounded(amount, parts, reward)
}

/// The parts that a ratio comes to are the part that the one number has in the other.
proof fn lemma_ratio_is_part(value: int, total: int)
    requires
        0 <= value,
        0 <= total,
    ensures
        is_part(ratio_parts(value, max(total, 1)), value, total),
{
    let q = max(total, 1);
    let p = min(value, q);
    let s = (q + BILLION - 1) / (BILLION as int);
    let (a, b) = (p / s, q / s);
    let parts = ratio_parts(value, q);
    lemma_ratio_bounded(value, q);
    assert(1 <= s <= q);
    assert(1_000_000_000 * (s - 1) <= q - 1);
    assert(a * s <= p < a * s + s && b * s <= q < b * s + s && 1 <= b) by (nonlinear_arith)
        requires
            1 <= s <= q,
            0 <= p,
            a == p / s,
            b == q / s,
    ;
    let product = a * 1_000_000_000;
    assert(parts == product / b);
    assert(parts * b <= product < parts * b + b) by (nonlinear_arith)
        requires
            1 <= b,
            parts == product / b,
    ;
    assert((parts + 1) * q >= (parts + 1) * (b * s)) by (nonlinear_arith)
        requires
            0 <= parts,
            b * s <= q,
    ;
    assert((parts + 1) * (b * s) == (parts * b + b) * s) by (nonlinear_arith);
    assert((parts * b + b) * s >= product * s) by (nonlinear_arith)
        requires
            product < parts * b + b,
            1 <= s,
    ;
    assert(product * s == 1_000_000_000 * (a * s)) by (nonlinear_arith)
        requires
            product == a * 1_000_000_000,
    ;
    assert((parts + 2) * q == (parts + 1) * q + q) by (nonlinear_arith);
    assert((parts + 1) * q == parts * q + q) by (nonlinear_arith);
    assert(1_000_000_000 * p < (parts + 2) * q);
    let d = q - (s - 1);
    assert(parts * d <= parts * (b * s)) by (nonlinear_arith)
        requires
            0 <= parts,
            d <= b * s,
    ;
    assert(parts * (b * s) == (parts * b) * s) by (nonlinear_arith);
    assert((parts * b) * s <= product * s) by (nonlinear_arith)
        requires
            parts * b <= product,
            1 <= s,
    ;
    assert(parts * d <= 1_000_000_000 * p);
    assert(parts * (1_000_000_000 * d) == 1_000_000_000 * (parts * d)) by (nonlinear_arith);
    assert(parts * (999_999_999 * q) <= parts * (1_000_000_000 * d)) by (nonlinear_arith)
        requires
            0 <= parts,
            999_999_999 * q <= 1_000_000_000 * d,
    ;
    assert(parts * (999_999_999 * q) == 999_999_999 * (parts * q)) by (nonlinear_arith);
    if q <= 1_000_000_000 {
        assert(s == 1);
        assert(a == p && b == q) by (nonlinear_arith)
            requires
                a == p / s,
                b == q / s,
                s == 1,
        ;
    }
}

/// A share is what a stake has in a reward.
proof fn lemma_share_is_share(value: int, total: int, reward: int)
    requires
        0 <= value,
        0 <= total,
        0 <= reward,
    ensures
        is_share(State::share(value, total, reward), value, total, reward),
        0 <= State::share(value, total, reward) <= reward,
{
    let parts = ratio_parts(value, max(total, 1));
    lemma_ratio_is_part(value, total);
    lemma_ratio_bounded(value, max(total, 1));
    lemma_fraction_bounded(parts, reward);
    let product = parts * reward;
    assert(product == BILLION * (product / (BILLION as int)) + product % (BILLION as int));
    assert(is_rounded(State::share(value, total, reward), parts, reward));
}

/// The payments to the nominators, one after the other.
proof fn lemma_nominators_one_by_one(
    state: State,
    others: Seq<IndividualExposure<AccountId, PowerBalance>>,
    total: int,
    rest: Balance,
) -> (pays: Seq<Seq<Payout>>)
    requires
        0 <= total,
    ensures
        pays.len() == others.len(),
        pays.flatten_alt() == state.nominator_payouts(others, total, rest as int),
        forall|i: int|
            #![trigger others[i]]
            0 <= i < others.len() ==> match paid_for(state, others[i].who) {
                Some(who) => pays[i].len() == 1 && pays[i][0].who == who && is_share(
                    pays[i][0].amount as int,
                    others[i].value as int,
                    total,
                    rest as int,
                ),
                None => pays[i].len() == 0,
            },
    decreases others.len(),
{
    if others.len() == 0 {
        Seq::empty()
    } else {
        let before = others.drop_last();
        let one = others.last();
        let share = State::share(one.value as int, total, rest as int);
        let last = one_payout(state.make_payout(one.who, share));
        let pays = lemma_nominators_one_by_one(state, before, total, rest);
        lemma_share_is_share(one.value as int, total, rest as int);
        assert(pays.push(last).drop_last() =~= pays);
        assert(forall|i: int| 0 <= i < before.len() ==> #[trigger] others[i] == before[i]);
        assert(others[others.len() - 1] == one);
        pays.push(last)
    }
}

/// A reward is split. First the validator takes the percentage that it asked for, to the nearest
/// whole number; `up_front` is that. Of the rest each nominator gets what its stake has in the
/// total, however small it is, in the order of the nominators, and the validator what its own stake
/// has. Each is paid where it wants to be, and who cannot be is passed over; then the others get no
/// more for it. Where nothing is left to split, the validator alone is paid, all of the reward.
///
/// The result is the payment to each nominator, then the one to the validator.
pub proof fn a_reward_is_split_by_stake(
    state: State,
    stash: AccountId,
    reward: Balance,
    up_front: int,
) -> (pays: Seq<Seq<Payout>>)
    requires
        0 <= state.exposure(stash).own,
        0 <= state.exposure(stash).total,
        ({
            let ratio = if state.validators.contains_key(stash) {
                state.validators[stash].validator_payment_ratio as int
            } else {
                0
            };
            let percent = if ratio <= 100 {
                ratio
            } else {
                100
            };
            -50 < percent * reward - 100 * up_front <= 50
        }),
    ensures
        ({
            let exposure = state.exposure(stash);
            let others = exposure.others;
            let rest = reward - up_front;
            let own = pays.last();
            &&& state.reward_validator(stash, reward as int) == pays.flatten()
            &&& 0 <= up_front <= reward
            &&& rest == 0 ==> {
                &&& pays.len() == 1
                &&& match paid_for(state, stash) {
                    Some(who) => own == seq![Payout { who, amount: reward }],
                    None => own.len() == 0,
                }
            }
            &&& rest > 0 ==> {
                &&& pays.len() == others.len() + 1
                &&& forall|i: int|
                    #![trigger others[i]]
                    0 <= i < others.len() ==> match paid_for(state, others[i].who) {
                        Some(who) => pays[i].len() == 1 && pays[i][0].who == who && is_share(
                            pays[i][0].amount as int,
                            others[i].value as int,
                            exposure.total,
                            rest,
                        ),
                        None => pays[i].len() == 0,
                    }
                &&& match paid_for(state, stash) {
                    Some(who) => own.len() == 1 && own[0].who == who && is_share(
                        own[0].amount - up_front,
                        exposure.own,
                        exposure.total,
                        rest,
                    ),
                    None => own.len() == 0,
                }
            }
        }),
{
    let exposure = state.exposure(stash);
    let percent = min(state.prefs(stash).validator_payment_ratio as int, 100);
    let taken = state.off_the_table(stash, reward as int);
    let parts = percent * PARTS_PER_PERCENT;
    let product = parts * reward;
    lemma_fraction_bounded(parts, reward as int);
    assert(product == BILLION * (product / (BILLION as int)) + product % (BILLION as int));
    assert(product == 10_000_000 * (percent * reward)) by (nonlinear_arith)
        requires
            product == parts * reward,
            parts == percent * PARTS_PER_PERCENT,
    ;
    assert(taken == up_front);
    let rest = (reward - up_front) as Balance;
    if rest == 0 {
        let own = one_payout(state.make_payout(stash, up_front));
        let pays = seq![own];
        pays.lemma_flatten_one_element();
        assert(pays.last() == own);
        pays
    } else {
        let share = State::share(exposure.own, exposure.total, rest as int);
        let own = one_payout(state.make_payout(stash, share + up_front));
        let before = lemma_nominators_one_by_one(state, exposure.others, exposure.total, rest);
        let pays = before.push(own);
        lemma_share_is_share(exposure.own, exposure.total, rest as int);
        assert(pays.drop_last() =~= before);
        pays.lemma_flatten_and_flatten_alt_are_equivalent();
        assert(forall|i: int| 0 <= i < before.len() ==> #[trigger] pays[i] == before[i]);
        pays
    }
}

/// What a stake has in a reward is its exact part but for rounding, however small the stake: below
/// it by no more than a billionth of the reward and a half, and above it by no more than a half.
pub proof fn a_share_is_the_exact_part_but_for_rounding(
    amount: int,
    value: int,
    total: int,
    reward: int,
)
    requires
        0 <= value <= total,
        0 < total <= 1_000_000_000,
        0 <= reward,
        is_share(amount, value, total, reward),
    ensures
        2_000_000_000 * (total * amount) >= 2_000_000_000 * (value * reward) - 2 * (total * reward)
            - 1_000_000_000 * total,
        2 * (total * amount) <= 2 * (value * reward) + total,
{
    let parts = choose|parts: int| #[trigger]
        is_part(parts, value, total) && is_rounded(amount, parts, reward);
    let product = parts * reward;
    assert(total * (2_000_000_000 * amount) >= total * (2 * product - 1_000_000_000))
        by (nonlinear_arith)
        requires
            0 < total,
            2_000_000_000 * amount >= 2 * product - 1_000_000_000,
    ;
    assert(total * (2_000_000_000 * amount) <= total * (2 * product + 1_000_000_000))
        by (nonlinear_arith)
        requires
            0 < total,
            2_000_000_000 * amount <= 2 * product + 1_000_000_000,
    ;
    assert(total * (2_000_000_000 * amount) == 2_000_000_000 * (total * amount))
        by (nonlinear_arith);
    assert(total * (2 * product - 1_000_000_000) == 2 * ((parts * total) * reward) - 1_000_000_000
        * total) by (nonlinear_arith)
        requires
            product == parts * reward,
    ;
    assert(total * (2 * product + 1_000_000_000) == 2 * ((parts * total) * reward) + 1_000_000_000
        * total) by (nonlinear_arith)
        requires
            product == parts * reward,
    ;
    assert((parts + 1) * total == parts * total + total) by (nonlinear_arith);
    assert((parts * total) * reward >= (1_000_000_000 * value - total) * reward)
        by (nonlinear_arith)
        requires
            0 <= reward,
            parts * total >= 1_000_000_000 * value - total,
    ;
    assert((parts * total) * reward <= (1_000_000_000 * value) * reward) by (nonlinear_arith)
        requires
            0 <= reward,
            parts * total <= 1_000_000_000 * value,
    ;
    assert((1_000_000_000 * value - total) * reward == 1_000_000_000 * (value * reward) - total
        * reward) by (nonlinear_arith);
    assert((1_000_000_000 * value) * reward == 1_000_000_000 * (value * reward))
        by (nonlinear_arith);
}

/// One payment after the other, where there is one of each.
proof fn lemma_flatten_ones(pays: Seq<Seq<Payout>>)
    requires
        forall|i: int| 0 <= i < pays.len() ==> (#[trigger] pays[i]).len() == 1,
    ensures
        pays.flatten().len() == pays.len(),
        forall|i: int| 0 <= i < pays.len() ==> #[trigger] pays.flatten()[i] == pays[i][0],
    decreases pays.len(),
{
    if pays.len() > 0 {
        let rest = pays.drop_first();
        assert(forall|i: int| 0 <= i < rest.len() ==> #[trigger] rest[i] == pays[i + 1]);
        lemma_flatten_ones(rest);
        assert(pays[0].len() == 1);
        assert forall|i: int| 0 <= i < pays.len() implies #[trigger] pays.flatten()[i]
            == pays[i][0] by {
            if i > 0 {
                assert(pays.flatten()[i] == rest.flatten()[i - 1]);
                assert(rest[i - 1] == pays[i]);
            }
        }
    }
}

/// Whoever backs a validator is paid for it, however little it is: where everybody can be paid,
/// there is a payment for each nominator, in their order, and one for the validator at the end.
/// Each comes to the exact part of the stake in what is split, but for rounding.
pub proof fn every_backer_is_paid_its_part(
    state: State,
    stash: AccountId,
    reward: Balance,
    up_front: int,
)
    requires
        ({
            let ratio = if state.validators.contains_key(stash) {
                state.validators[stash].validator_payment_ratio as int
            } else {
                0
            };
            let percent = if ratio <= 100 {
                ratio
            } else {
                100
            };
            -50 < percent * reward - 100 * up_front <= 50
        }),
        up_front < reward,
        state.stakers.contains_key(stash),
        0 < state.stakers[stash].total <= 1_000_000_000,
        0 <= state.stakers[stash].own <= state.stakers[stash].total,
        paid_for(state, stash) is Some,
        forall|i: int|
            0 <= i < state.stakers[stash].others.len() ==> {
                &&& (#[trigger] state.stakers[stash].others[i]).value <= state.stakers[stash].total
                &&& paid_for(state, state.stakers[stash].others[i].who) is Some
            },
    ensures
        ({
            let payouts = state.reward_validator(stash, reward as int);
            let others = state.stakers[stash].others;
            let total = state.stakers[stash].total;
            let own = state.stakers[stash].own;
            let rest = reward - up_front;
            let own_cut = payouts.last().amount - up_front;
            &&& payouts.len() == others.len() + 1
            &&& forall|i: int|
                #![trigger others[i]]
                0 <= i < others.len() ==> {
                    let amount = payouts[i].amount as int;
                    let exact = others[i].value * rest;
                    &&& Some(payouts[i].who) == paid_for(state, others[i].who)
                    &&& 2_000_000_000 * (total * amount) >= 2_000_000_000 * exact - 2 * (total
                        * rest) - 1_000_000_000 * total
                    &&& 2 * (total * amount) <= 2 * exact + total
                }
            &&& Some(payouts.last().who) == paid_for(state, stash)
            &&& 2_000_000_000 * (total * own_cut) >= 2_000_000_000 * (own * rest) - 2 * (total
                * rest) - 1_000_000_000 * total
            &&& 2 * (total * own_cut) <= 2 * (own * rest) + total
        }),
{
    let others = state.stakers[stash].others;
    let total = state.stakers[stash].total;
    let rest = reward - up_front;
    let payouts = state.reward_validator(stash, reward as int);
    let pays = a_reward_is_split_by_stake(state, stash, reward, up_front);
    let n = others.len() as int;
    assert(pays[n] == pays.last());
    assert forall|i: int| 0 <= i < pays.len() implies (#[trigger] pays[i]).len() == 1 by {
        if i < n {
            assert(paid_for(state, others[i].who) is Some);
        }
    }
    lemma_flatten_ones(pays);
    assert(payouts[n] == pays[n][0]);
    assert forall|i: int| 0 <= i < others.len() implies {
        let amount = (#[trigger] payouts[i]).amount as int;
        let exact = others[i].value * rest;
        &&& Some(payouts[i].who) == paid_for(state, others[i].who)
        &&& 2_000_000_000 * (total * amount) >= 2_000_000_000 * exact - 2 * (total * rest)
            - 1_000_000_000 * total
        &&& 2 * (total * amount) <= 2 * exact + total
    } by {
        assert(others[i].value <= total);
        assert(payouts[i] == pays[i][0]);
        a_share_is_the_exact_part_but_for_rounding(
            payouts[i].amount as int,
            others[i].value as int,
            total,
            rest,
        );
    }
    a_share_is_the_exact_part_but_for_rounding(
        payouts.last().amount - up_front,
        state.stakers[stash].own,
        total,
        rest,
    );
}

/// The parts of the nominators and what they are paid, from below.
proof fn lemma_nominators_get_enough(
    state: State,
    others: Seq<IndividualExposure<AccountId, PowerBalance>>,
    total: int,
    rest: Balance,
)
    requires
        0 < total,
        backing(others) <= total,
        forall|i: int|
            0 <= i < others.len() ==> paid_for(state, (#[trigger] others[i]).who) is Some,
    ensures
        0 <= backing(others),
        total * parts_of(others, total) >= 1_000_000_000 * backing(others) - 2 * (total
            * others.len()),
        2_000_000_000 * paid(state.nominator_payouts(others, total, rest as int)) >= 2 * (parts_of(
            others,
            total,
        ) * rest) - 1_000_000_000 * others.len(),
    decreases others.len(),
{
    if others.len() > 0 {
        let before = others.drop_last();
        let one = others.last();
        let parts = ratio_parts(one.value as int, total);
        let share = State::share(one.value as int, total, rest as int);
        lemma_backing_nonneg(before);
        assert forall|i: int| 0 <= i < before.len() implies paid_for(
            state,
            (#[trigger] before[i]).who,
        ) is Some by {
            assert(before[i] == others[i]);
        }
        lemma_nominators_get_enough(state, before, total, rest);
        lemma_ratio_is_part(one.value as int, total);
        lemma_share_is_share(one.value as int, total, rest as int);
        lemma_fraction_rounds(parts, rest as int);
        assert(others[others.len() - 1] == one);
        lemma_paid_one(
            state.nominator_payouts(before, total, rest as int),
            state.make_payout(one.who, share),
        );
        assert((parts + 2) * total == total * parts + 2 * total) by (nonlinear_arith);
        assert(total * (parts_of(before, total) + parts) == total * parts_of(before, total) + total
            * parts) by (nonlinear_arith);
        assert(total * others.len() == total * before.len() + total) by (nonlinear_arith)
            requires
                others.len() == before.len() + 1,
        ;
        assert((parts_of(before, total) + parts) * rest == parts_of(before, total) * rest + parts
            * rest) by (nonlinear_arith);
        assert(2 * BILLION * share == 2_000_000_000 * share);
    } else {
        assert(total * parts_of(others, total) == 0) by (nonlinear_arith)
            requires
                parts_of(others, total) == 0,
        ;
        assert(total * others.len() == 0) by (nonlinear_arith)
            requires
                others.len() == 0,
        ;
        assert(parts_of(others, total) * rest == 0) by (nonlinear_arith)
            requires
                parts_of(others, total) == 0,
        ;
    }
}

/// What the nominators have at stake is no less than nothing.
proof fn lemma_backing_nonneg(others: Seq<IndividualExposure<AccountId, PowerBalance>>)
    ensures
        0 <= backing(others),
    decreases others.len(),
{
    if others.len() > 0 {
        lemma_backing_nonneg(others.drop_last());
    }
}

/// A reward is paid out but for rounding: where the backing of a validator makes up its total and
/// everybody can be paid, the payments fall short of the reward by no more than a half and two
/// billionths of the reward for each that is paid.
pub proof fn a_reward_is_paid_out(state: State, stash: AccountId, reward: Balance)
    requires
        0 <= state.exposure(stash).own,
        0 < state.exposure(stash).total,
        state.exposure(stash).own + backing(state.exposure(stash).others) == state.exposure(
            stash,
        ).total,
        paid_for(state, stash) is Some,
        forall|i: int|
            0 <= i < state.exposure(stash).others.len() ==> paid_for(
                state,
                (#[trigger] state.exposure(stash).others[i]).who,
            ) is Some,
    ensures
        ({
            let n = state.exposure(stash).others.len() + 1;
            2_000_000_000 * paid(state.reward_validator(stash, reward as int)) >= 2_000_000_000
                * reward - 1_000_000_000 * n - 4 * (n * reward)
        }),
{
    let exposure = state.exposure(stash);
    let others = exposure.others;
    let total = exposure.total;
    let ratio = min(state.prefs(stash).validator_payment_ratio as int, 100) * PARTS_PER_PERCENT;
    let up_front = state.off_the_table(stash, reward as int);
    lemma_fraction_bounded(ratio, reward as int);
    let rest = (reward - up_front) as Balance;
    let n = (others.len() + 1) as int;
    if rest == 0 {
        lemma_paid_one(Seq::empty(), state.make_payout(stash, up_front));
        assert(Seq::empty() + one_payout(state.make_payout(stash, up_front)) =~= one_payout(
            state.make_payout(stash, up_front),
        ));
        assert(0 <= n * reward) by (nonlinear_arith)
            requires
                0 <= n,
                0 <= reward,
        ;
    } else {
        let own_parts = ratio_parts(exposure.own, total);
        let share = State::share(exposure.own, total, rest as int);
        lemma_backing_nonneg(others);
        lemma_nominators_get_enough(state, others, total, rest);
        lemma_ratio_is_part(exposure.own, total);
        lemma_share_is_share(exposure.own, total, rest as int);
        lemma_fraction_rounds(own_parts, rest as int);
        lemma_paid_one(
            state.nominator_payouts(others, total, rest as int),
            state.make_payout(stash, share + up_front),
        );
        let all = parts_of(others, total) + own_parts;
        assert((own_parts + 2) * total == total * own_parts + 2 * total) by (nonlinear_arith);
        assert(total * all == total * parts_of(others, total) + total * own_parts)
            by (nonlinear_arith)
            requires
                all == parts_of(others, total) + own_parts,
        ;
        assert(total * n == total * others.len() + total) by (nonlinear_arith)
            requires
                n == others.len() + 1,
        ;
        assert(total * all >= 1_000_000_000 * total - 2 * (total * n));
        assert(all >= 1_000_000_000 - 2 * n) by (nonlinear_arith)
            requires
                0 < total,
                total * all >= 1_000_000_000 * total - 2 * (total * n),
        ;
        assert(all * rest >= 1_000_000_000 * rest - 2 * (n * rest)) by (nonlinear_arith)
            requires
                0 <= rest,
                all >= 1_000_000_000 - 2 * n,
        ;
        assert(all * rest == parts_of(others, total) * rest + own_parts * rest)
            by (nonlinear_arith)
            requires
                all == parts_of(others, total) + own_parts,
        ;
        assert(n * rest <= n * reward) by (nonlinear_arith)
            requires
                0 <= n,
                rest <= reward,
        ;
        assert(2 * BILLION * share == 2_000_000_000 * share);
    }
}

/// An era pays out the part of the accumulated reward that is set for it, in billionths and at most
/// all of it, to the nearest whole number. Each elected validator is rewarded with the same, as
/// much as can be given to so many, however many there should ideally be; the event tells how much.
/// An era that pays nothing rewards nobody and tells nothing.
pub proof fn elected_validators_share_alike(state: State)
    ensures
        ({
            let parts = if state.session_reward <= 1_000_000_000 {
                state.session_reward as int
            } else {
                1_000_000_000
            };
            let reward = state.era_reward();
            let elected = state.current_elected;
            let n = elected.len() as int;
            let payouts = state.era_payouts();
            &&& is_rounded(reward, parts, state.current_era_total_reward as int)
            &&& reward == 0 ==> payouts.len() == 0 && state.era_event() is None
            &&& reward != 0 && n > 0 ==> {
                &&& state.era_event() matches Some(Event::Reward(each))
                &&& n * each <= reward < n * (each + 1)
                &&& payouts.len() == n
                &&& forall|i: int|
                    0 <= i < n ==> #[trigger] payouts[i] == state.reward_validator(
                        elected[i],
                        each as int,
                    )
            }
        }),
{
    let parts = min(state.session_reward as int, BILLION as int);
    let amount = state.current_era_total_reward as int;
    let reward = state.era_reward();
    let n = state.current_elected.len() as int;
    let each = state.reward_per_validator();
    let product = parts * amount;
    lemma_fraction_bounded(parts, amount);
    assert(product == BILLION * (product / (BILLION as int)) + product % (BILLION as int));
    if n > 0 {
        assert(n * each <= reward < n * (each + 1) && 0 <= each <= reward) by (nonlinear_arith)
            requires
                0 < n,
                0 <= reward,
                each == reward / n,
        ;
    }
}

} // verus!
