//! RING under a promise.
use crate::laws::total;
use crate::ledger::{
    expired, left_after, lemma_left_bounded, lemma_released_bounded, promised_expired, released,
    staying, Item, LedgerView,
};
use crate::state::{lock_for, State};
use crate::types::{
    AccountId, Action, Balance, EraIndex, Error, Moment, RegularItem, StakingBalance,
};
use vstd::prelude::*;

verus! {

/// RING counts the same whether it is added under a promise or without one: the power, the RING at
/// stake and the total agree. The ledgers differ only in where the value goes, which is into one
/// more item under a promise.
pub proof fn a_promise_adds_the_same_stake(
    ledger: LedgerView,
    value: Balance,
    months: u32,
    now: Moment,
)
    requires
        months != 0,
    ensures
        ({
            let promised = ledger.with_ring(value, months, now);
            let normal = ledger.with_ring(value, 0, now);
            &&& promised.total_power == normal.total_power
            &&& promised.active_power == normal.active_power
            &&& promised.active_ring == normal.active_ring
            &&& promised.total_ring() == normal.total_ring()
            &&& normal.normal_ring == ledger.normal_ring + value
            &&& normal.regular_ring == ledger.regular_ring
            &&& normal.regular_items == ledger.regular_items
            &&& promised == (LedgerView {
                normal_ring: ledger.normal_ring,
                regular_ring: ledger.regular_ring + value,
                regular_items: promised.regular_items,
                ..normal
            })
            &&& promised.regular_items.len() == ledger.regular_items.len() + 1
            &&& promised.regular_items.drop_last() == ledger.regular_items
            &&& promised.regular_items.last().value == value
        }),
{
    let items = ledger.with_ring(value, months, now).regular_items;
    assert(items.drop_last() =~= ledger.regular_items);
}

/// Staking RING sets the same lock under a promise as without one, and only the promise earns KTON.
/// The states differ in the ledger of the controller alone.
pub proof fn only_a_promise_earns_kton(
    state: State,
    stash: AccountId,
    controller: AccountId,
    value: Balance,
    months: u32,
    now: Moment,
    ledger: LedgerView,
)
    requires
        months != 0,
    ensures
        ({
            let ring = StakingBalance::Ring(value);
            let promised = state.stake(stash, controller, ring, months, now, ledger);
            let normal = state.stake(stash, controller, ring, 0, now, ledger);
            let lock = lock_for(ledger.with_ring(value, 0, now), ring);
            let mint = Action::MintKton { who: stash, value, months };
            &&& normal.1 == Ok::<Seq<Action>, Error>(seq![lock])
            &&& promised.1 == Ok::<Seq<Action>, Error>(seq![mint, lock])
            &&& promised.0 == (State {
                ledger: normal.0.ledger.insert(controller, ledger.with_ring(value, months, now)),
                ..normal.0
            })
        }),
{
    let ring = StakingBalance::Ring(value);
    let after = ledger.with_ring(value, months, now);
    let promised = state.stake(stash, controller, ring, months, now, ledger).0;
    let normal = state.stake(stash, controller, ring, 0, now, ledger).0;
    a_promise_adds_the_same_stake(ledger, value, months, now);
    assert(promised.ledger =~= normal.ledger.insert(controller, after));
}

/// What is left of a request is at least what the expired items before could not have used up.
proof fn lemma_left_enough(items: Seq<Item>, wanted: Balance, now: Moment)
    ensures
        left_after(items, wanted, now) >= wanted - promised_expired(items, now),
        promised_expired(items, now) >= 0,
    decreases items.len(),
{
    if items.len() > 0 {
        lemma_left_enough(items.drop_last(), wanted, now);
    }
}

/// A request that is big enough for all RING whose promise has ended releases all of it, and
/// leaves just the other promises.
pub proof fn big_enough_request_releases_all_expired(
    items: Seq<Item>,
    wanted: Balance,
    now: Moment,
)
    requires
        promised_expired(items, now) <= wanted,
    ensures
        released(items, wanted, now) == promised_expired(items, now),
        staying(items, wanted, now) == items.filter(|item: Item| !expired(item, now)),
    decreases items.len(),
{
    reveal(Seq::filter);
    if items.len() > 0 {
        lemma_left_enough(items.drop_last(), wanted, now);
        lemma_left_enough(items, wanted, now);
        lemma_left_bounded(items.drop_last(), wanted, now);
        big_enough_request_releases_all_expired(items.drop_last(), wanted, now);
    }
}

/// A promise that lasts is kept: whatever is requested, the items whose promise has not ended stay
/// as they are and in their order, and what is released comes from the others.
pub proof fn lasting_promises_are_kept(items: Seq<Item>, wanted: Balance, now: Moment)
    ensures
        staying(items, wanted, now).filter(|item: Item| !expired(item, now)) == items.filter(
            |item: Item| !expired(item, now),
        ),
        0 <= released(items, wanted, now) <= promised_expired(items, now),
    decreases items.len(),
{
    reveal(Seq::filter);
    if items.len() > 0 {
        let lasts = |item: Item| !expired(item, now);
        let before = staying(items.drop_last(), wanted, now);
        let after = staying(items, wanted, now);
        lasting_promises_are_kept(items.drop_last(), wanted, now);
        lemma_left_bounded(items.drop_last(), wanted, now);
        if after != before {
            assert(after.drop_last() =~= before);
            assert(after.filter(lasts) == if lasts(after.last()) {
                before.filter(lasts).push(after.last())
            } else {
                before.filter(lasts)
            });
        }
    }
}

/// A sum over one amount more.
proof fn lemma_total_pushed(amounts: Seq<int>, amount: int)
    ensures
        total(amounts.push(amount)) == total(amounts) + amount,
{
    assert(amounts.push(amount).drop_last() =~= amounts);
}

/// What is left of the request at each item, what each item gives up, and what stays of each.
proof fn lemma_item_by_item(items: Seq<Item>, wanted: Balance, now: Moment) -> (r: (
    Seq<int>,
    Seq<int>,
    Seq<Seq<Item>>,
))
    ensures
        ({
            let (left, given, stays) = r;
            &&& left.len() == items.len() + 1
            &&& given.len() == items.len()
            &&& stays.len() == items.len()
            &&& left[0] == wanted
            &&& left.last() == left_after(items, wanted, now)
            &&& total(given) == released(items, wanted, now)
            &&& stays.flatten_alt() == staying(items, wanted, now)
            &&& forall|i: int|
                #![trigger items[i]]
                0 <= i < items.len() && items[i].expire_time > now ==> {
                    &&& given[i] == 0
                    &&& left[i + 1] == left[i]
                    &&& stays[i] == seq![items[i]]
                }
            &&& forall|i: int|
                #![trigger items[i]]
                0 <= i < items.len() && items[i].expire_time <= now ==> {
                    &&& 0 <= left[i] <= wanted
                    &&& left[i] <= items[i].value ==> given[i] == left[i]
                    &&& left[i] > items[i].value ==> given[i] == items[i].value
                    &&& left[i] == 0 ==> left[i + 1] == 0 && stays[i].len() == 0
                    &&& left[i] > 0 ==> left[i + 1] == wanted - given[i]
                    &&& left[i] > 0 && given[i] == items[i].value ==> stays[i].len() == 0
                    &&& left[i] > 0 && given[i] < items[i].value ==> stays[i] == seq![
                        RegularItem {
                            value: (items[i].value - given[i]) as Balance,
                            expire_time: items[i].expire_time,
                        },
                    ]
                }
        }),
    decreases items.len(),
{
    if items.len() == 0 {
        assert(seq![wanted as int].last() == wanted);
        (seq![wanted as int], Seq::empty(), Seq::empty())
    } else {
        let before = items.drop_last();
        let n = before.len() as int;
        let item = items.last();
        let (left, given, stays) = lemma_item_by_item(before, wanted, now);
        lemma_left_bounded(before, wanted, now);
        let next = left_after(items, wanted, now);
        let gives = released(items, wanted, now) - released(before, wanted, now);
        let rest = if item.expire_time > now {
            seq![item]
        } else if left[n] != 0 && left[n] < item.value {
            seq![RegularItem { value: (item.value - left[n]) as Balance, ..item }]
        } else {
            Seq::empty()
        };
        let r = (left.push(next), given.push(gives), stays.push(rest));
        lemma_total_pushed(given, gives);
        assert(r.2.drop_last() =~= stays);
        assert(r.2.flatten_alt() =~= staying(items, wanted, now));
        assert(forall|i: int| 0 <= i < n ==> #[trigger] items[i] == before[i]);
        assert(items[n] == item);
        r
    }
}

/// Promised RING is released item by item, in their order. An item whose promise lasts gives up
/// nothing and stays as it is. An expired one gives up what it has, but no more than is left of the
/// request when its turn comes: all of it at first, and the request less what the expired item
/// before gave up after that. What the items give up goes out in the chunk, all of it and no more,
/// and is normal RING from then on. What an item does not give up stays promised under it, except
/// that an expired item is struck off once nothing is left of the request.
///
/// The result is what is left of the request at each item, what each gives up, and what stays of
/// each.
pub proof fn promised_ring_is_released_item_by_item(
    ledger: LedgerView,
    wanted: Balance,
    now: Moment,
    era: EraIndex,
) -> (r: (Seq<int>, Seq<int>, Seq<Seq<Item>>))
    requires
        ledger.valid(),
        0 <= ledger.normal_ring,
        0 <= ledger.regular_ring,
        0 <= ledger.active_ring,
    ensures
        ({
            let (left, given, stays) = r;
            let items = ledger.regular_items;
            let after = ledger.unbonded(StakingBalance::Ring(wanted), true, now, era);
            let out = total(given);
            &&& left.len() == items.len() + 1
            &&& given.len() == items.len()
            &&& stays.len() == items.len()
            &&& left[0] == wanted
            &&& forall|i: int|
                #![trigger items[i]]
                0 <= i < items.len() && items[i].expire_time > now ==> {
                    &&& given[i] == 0
                    &&& left[i + 1] == left[i]
                    &&& stays[i] == seq![items[i]]
                }
            &&& forall|i: int|
                #![trigger items[i]]
                0 <= i < items.len() && items[i].expire_time <= now ==> {
                    &&& 0 <= left[i] <= wanted
                    &&& left[i] <= items[i].value ==> given[i] == left[i]
                    &&& left[i] > items[i].value ==> given[i] == items[i].value
                    &&& left[i] == 0 ==> left[i + 1] == 0 && stays[i].len() == 0
                    &&& left[i] > 0 ==> left[i + 1] == wanted - given[i]
                    &&& left[i] > 0 && given[i] == items[i].value ==> stays[i].len() == 0
                    &&& left[i] > 0 && given[i] < items[i].value ==> stays[i] == seq![
                        RegularItem {
                            value: (items[i].value - given[i]) as Balance,
                            expire_time: items[i].expire_time,
                        },
                    ]
                }
            &&& after.regular_items == stays.flatten()
            &&& after.unlocking.len() == ledger.unlocking.len() + 1
            &&& 0 <= out <= Balance::MAX
            &&& after.unlocking.last().value == StakingBalance::<Balance, Balance>::Ring(
                out as Balance,
            )
            &&& after.regular_ring == ledger.regular_ring - out
            &&& after.normal_ring == ledger.normal_ring + out
            &&& out <= ledger.active_ring ==> after.active_ring == ledger.active_ring - out
            &&& out > ledger.active_ring ==> after.active_ring == 0
        }),
{
    let r = lemma_item_by_item(ledger.regular_items, wanted, now);
    lemma_released_bounded(ledger.regular_items, wanted, now);
    r.2.lemma_flatten_and_flatten_alt_are_equivalent();
    r
}

/// Two expired items answer a request that is more than the first and less than both: exactly what
/// was asked for goes out, and the second keeps what is left of both.
pub proof fn two_expired_items_release_what_was_asked_for(
    ledger: LedgerView,
    first: Item,
    second: Item,
    wanted: Balance,
    now: Moment,
    era: EraIndex,
)
    requires
        ledger.regular_items == seq![first, second],
        ledger.valid(),
        0 <= ledger.normal_ring,
        0 <= ledger.regular_ring,
        0 <= ledger.active_ring,
        first.expire_time <= now,
        second.expire_time <= now,
        first.value < wanted < first.value + second.value,
    ensures
        ({
            let after = ledger.unbonded(StakingBalance::Ring(wanted), true, now, era);
            &&& after.unlocking.last().value == StakingBalance::<Balance, Balance>::Ring(wanted)
            &&& after.regular_items.len() == 1
            &&& after.regular_items[0].value == first.value + second.value - wanted
            &&& after.regular_items[0].expire_time == second.expire_time
            &&& after.regular_ring == ledger.regular_ring - wanted
            &&& after.normal_ring == ledger.normal_ring + wanted
        }),
{
    let (left, given, stays) = promised_ring_is_released_item_by_item(ledger, wanted, now, era);
    let items = ledger.regular_items;
    assert(items[0] == first && items[1] == second);
    assert(given.drop_last().drop_last() =~= Seq::empty());
    assert(given.drop_last().last() == given[0]);
    reveal_with_fuel(total, 3);
    assert(stays.drop_first().drop_first() =~= Seq::empty());
    assert(stays.drop_first().first() == stays[1]);
    reveal_with_fuel(Seq::flatten, 3);
    assert(stays.flatten() =~= stays[1]);
}

/// One expired item among promises that last gives up what was asked for, or all it has where that
/// is less. The others stay as they are.
pub proof fn a_lone_expired_item_releases_what_was_asked_for(
    ledger: LedgerView,
    at: int,
    wanted: Balance,
    now: Moment,
    era: EraIndex,
)
    requires
        0 <= at < ledger.regular_items.len(),
        ledger.valid(),
        0 <= ledger.normal_ring,
        0 <= ledger.regular_ring,
        0 <= ledger.active_ring,
        forall|i: int|
            0 <= i < ledger.regular_items.len() ==> (
            (#[trigger] ledger.regular_items[i]).expire_time <= now <==> i == at),
    ensures
        ({
            let after = ledger.unbonded(StakingBalance::Ring(wanted), true, now, era);
            let item = ledger.regular_items[at];
            &&& wanted <= item.value ==> after.unlocking.last().value == StakingBalance::<
                Balance,
                Balance,
            >::Ring(wanted)
            &&& wanted > item.value ==> after.unlocking.last().value == StakingBalance::<
                Balance,
                Balance,
            >::Ring(item.value)
        }),
{
    let (left, given, _) = promised_ring_is_released_item_by_item(ledger, wanted, now, era);
    let items = ledger.regular_items;
    assert(items[at].expire_time <= now);
    lemma_left_unchanged(items, left, now, at);
    assert forall|i: int| 0 <= i < given.len() && i != at implies #[trigger] given[i] == 0 by {
        assert(items[i].expire_time > now);
    }
    lemma_total_of_one(given, at);
}

/// Items whose promise lasts leave the request as it is.
proof fn lemma_left_unchanged(items: Seq<Item>, left: Seq<int>, now: Moment, upto: int)
    requires
        0 <= upto < items.len(),
        left.len() == items.len() + 1,
        forall|i: int|
            #![trigger items[i]]
            0 <= i < upto ==> items[i].expire_time > now && left[i + 1] == left[i],
    ensures
        left[upto] == left[0],
    decreases upto,
{
    if upto > 0 {
        lemma_left_unchanged(items, left, now, upto - 1);
        assert(items[upto - 1].expire_time > now);
    }
}

/// A sum in which one amount counts.
proof fn lemma_total_of_one(amounts: Seq<int>, at: int)
    requires
        forall|i: int| 0 <= i < amounts.len() && i != at ==> #[trigger] amounts[i] == 0,
    ensures
        total(amounts) == if 0 <= at < amounts.len() {
            amounts[at]
        } else {
            0
        },
    decreases amounts.len(),
{
    if amounts.len() > 0 {
        let before = amounts.drop_last();
        assert(forall|i: int| 0 <= i < before.len() ==> #[trigger] before[i] == amounts[i]);
        lemma_total_of_one(before, at);
        assert(amounts[amounts.len() - 1] == amounts.last());
    }
}

/// A request that is big enough for all RING whose promise has ended sends all of it out, and the
/// promises that last are what stays.
pub proof fn a_big_enough_request_sends_all_expired_out(
    ledger: LedgerView,
    wanted: Balance,
    now: Moment,
    era: EraIndex,
)
    requires
        ledger.valid(),
        0 <= ledger.normal_ring,
        0 <= ledger.regular_ring,
        total(ended(ledger.regular_items, now)) <= wanted,
    ensures
        ({
            let after = ledger.unbonded(StakingBalance::Ring(wanted), true, now, era);
            let all = total(ended(ledger.regular_items, now));
            &&& after.unlocking.last().value == StakingBalance::<Balance, Balance>::Ring(
                all as Balance,
            )
            &&& 0 <= all <= Balance::MAX
            &&& after.regular_ring == ledger.regular_ring - all
            &&& after.regular_items == ledger.regular_items.filter(
                |item: Item| item.expire_time > now,
            )
        }),
{
    lemma_ended_is_expired(ledger.regular_items, now);
    big_enough_request_releases_all_expired(ledger.regular_items, wanted, now);
    lemma_released_bounded(ledger.regular_items, wanted, now);
    assert((|item: Item| !expired(item, now)) =~= (|item: Item| item.expire_time > now));
}

/// The value of each item, nothing for one whose promise lasts.
pub open spec fn ended(items: Seq<Item>, now: Moment) -> Seq<int> {
    Seq::new(
        items.len(),
        |i: int|
            if items[i].expire_time <= now {
                items[i].value as int
            } else {
                0
            },
    )
}

/// The sum of the items whose promise has ended.
proof fn lemma_ended_is_expired(items: Seq<Item>, now: Moment)
    ensures
        total(ended(items, now)) == promised_expired(items, now),
    decreases items.len(),
{
    if items.len() > 0 {
        lemma_ended_is_expired(items.drop_last(), now);
        assert(ended(items, now).drop_last() =~= ended(items.drop_last(), now));
    }
}

} // verus!
