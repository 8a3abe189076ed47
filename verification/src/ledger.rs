//! The ledger of one controller.
use crate::perbill::{max, min};
use crate::types::{
    AccountId, Balance, Distinguish, EraIndex, Moment, PowerBalance, RegularItem, StakingBalance,
    StakingLedgers, UnlockChunk,
};
use vstd::prelude::*;

verus! {

/// An amount of RING or KTON.
pub type Amount = StakingBalance<Balance, Balance>;

/// Funds on their way out.
pub type Chunk = UnlockChunk<Amount, PowerBalance>;

/// RING under a promise.
pub type Item = RegularItem<Balance, Moment>;

/// The ledger of one controller.
pub type Ledger = StakingLedgers<AccountId, Balance, Balance, Amount, PowerBalance, Moment>;

/// How many chunks may be on their way out at a time.
pub const MAX_UNLOCKING_CHUNKS: usize = 32;

/// A month of promise, in seconds.
pub const MONTH_IN_SECONDS: u32 = 2_592_000;

/// How much RING weighs as much as one unit of power.
pub const RING_PER_POWER: u128 = 10_000;

/// A ledger as mathematical values.
#[verifier::ext_equal]
pub struct LedgerView {
    pub stash: AccountId,
    pub total_power: int,
    pub active_power: int,
    pub normal_ring: int,
    pub regular_ring: int,
    pub active_ring: int,
    pub normal_kton: int,
    pub active_kton: int,
    pub regular_items: Seq<Item>,
    pub unlocking: Seq<Chunk>,
}

impl View for Ledger {
    type V = LedgerView;

    open spec fn view(&self) -> LedgerView {
        LedgerView {
            stash: self.stash,
            total_power: self.total_power as int,
            active_power: self.active_power as int,
            normal_ring: self.normal_ring as int,
            regular_ring: self.regular_ring as int,
            active_ring: self.active_ring as int,
            normal_kton: self.normal_kton as int,
            active_kton: self.active_kton as int,
            regular_items: self.regular_items@,
            unlocking: self.unlocking@,
        }
    }
}

/// `a - b`, but never below zero.
pub open spec fn monus(a: int, b: int) -> int {
    max(a - b, 0)
}

/// Whether the promise on an item has ended.
pub open spec fn expired(item: Item, now: Moment) -> bool {
    item.expire_time <= now
}

/// The sum of the values of the items.
pub open spec fn promised(items: Seq<Item>) -> int
    decreases items.len(),
{
    if items.len() == 0 {
        0
    } else {
        promised(items.drop_last()) + items.last().value
    }
}

/// The sum of the values of the items whose promise has ended.
pub open spec fn promised_expired(items: Seq<Item>, now: Moment) -> int
    decreases items.len(),
{
    if items.len() == 0 {
        0
    } else {
        promised_expired(items.drop_last(), now) + if expired(items.last(), now) {
            items.last().value as int
        } else {
            0
        }
    }
}

/// What a request to release `wanted` has left for the item that comes after `items`: all of it
/// before the first expired item, and `wanted` less what the last expired item gave up after that.
/// Once nothing is left it stays so.
pub open spec fn left_after(items: Seq<Item>, wanted: Balance, now: Moment) -> int
    decreases items.len(),
{
    if items.len() == 0 {
        wanted as int
    } else {
        let left = left_after(items.drop_last(), wanted, now);
        if !expired(items.last(), now) || left == 0 {
            left
        } else {
            wanted - min(left, items.last().value as int)
        }
    }
}

/// What `item` gives up when `left` is left of the request.
pub open spec fn given_up(item: Item, left: int, now: Moment) -> int {
    if expired(item, now) {
        min(left, item.value as int)
    } else {
        0
    }
}

/// All that the items give up to a request to release `wanted`.
pub open spec fn released(items: Seq<Item>, wanted: Balance, now: Moment) -> int
    decreases items.len(),
{
    if items.len() == 0 {
        0
    } else {
        released(items.drop_last(), wanted, now) + given_up(
            items.last(),
            left_after(items.drop_last(), wanted, now),
            now,
        )
    }
}

/// The items that stay after a request to release `wanted`: those whose promise lasts, and those
/// expired ones that gave something up and have some value left. An expired item that is met
/// when nothing is left of the request is struck off, whatever its value.
pub open spec fn staying(items: Seq<Item>, wanted: Balance, now: Moment) -> Seq<Item>
    decreases items.len(),
{
    if items.len() == 0 {
        items
    } else {
        let before = staying(items.drop_last(), wanted, now);
        let left = left_after(items.drop_last(), wanted, now);
        let item = items.last();
        if !expired(item, now) {
            before.push(item)
        } else if left != 0 && left < item.value {
            before.push(RegularItem { value: (item.value - left) as Balance, ..item })
        } else {
            before
        }
    }
}

/// Whether a chunk is free to be withdrawn in the era.
pub open spec fn due(chunk: Chunk, era: EraIndex) -> bool {
    chunk.era <= era
}

/// The RING in a chunk.
pub open spec fn ring_in(chunk: Chunk) -> int {
    match chunk.value {
        StakingBalance::Ring(r) => r as int,
        StakingBalance::Kton(_) => 0,
    }
}

/// The KTON in a chunk.
pub open spec fn kton_in(chunk: Chunk) -> int {
    match chunk.value {
        StakingBalance::Ring(_) => 0,
        StakingBalance::Kton(k) => k as int,
    }
}

/// The sum of `amount` over the chunks that are due.
pub open spec fn sum_due(chunks: Seq<Chunk>, era: EraIndex, amount: spec_fn(Chunk) -> int) -> int
    decreases chunks.len(),
{
    if chunks.len() == 0 {
        0
    } else {
        sum_due(chunks.drop_last(), era, amount) + if due(chunks.last(), era) {
            amount(chunks.last())
        } else {
            0
        }
    }
}

/// Whether a chunk of RING is due.
pub open spec fn ring_due(chunks: Seq<Chunk>, era: EraIndex) -> bool {
    exists|i: int| 0 <= i < chunks.len() && due(#[trigger] chunks[i], era) && chunks[i].value is Ring
}

/// Whether a chunk of KTON is due.
pub open spec fn kton_due(chunks: Seq<Chunk>, era: EraIndex) -> bool {
    exists|i: int| 0 <= i < chunks.len() && due(#[trigger] chunks[i], era) && chunks[i].value is Kton
}

impl LedgerView {
    /// A ledger that holds nothing.
    pub open spec fn empty(stash: AccountId) -> LedgerView {
        LedgerView {
            stash,
            total_power: 0,
            active_power: 0,
            normal_ring: 0,
            regular_ring: 0,
            active_ring: 0,
            normal_kton: 0,
            active_kton: 0,
            regular_items: Seq::empty(),
            unlocking: Seq::empty(),
        }
    }

    /// The RING in the ledger.
    pub open spec fn total_ring(self) -> int {
        self.normal_ring + self.regular_ring
    }

    /// The total RING can be expressed as a balance, and the promises are on RING that the ledger
    /// holds.
    pub open spec fn valid(self) -> bool {
        &&& self.total_ring() <= Balance::MAX
        &&& promised(self.regular_items) <= self.regular_ring
    }

    /// The ledger after `value` RING was added, under a promise of `months` months from `now` on
    /// if there are any.
    pub open spec fn with_ring(self, value: Balance, months: u32, now: Moment) -> LedgerView {
        let power = value as int / RING_PER_POWER as int;
        let added = LedgerView {
            active_ring: self.active_ring + value,
            total_power: self.total_power + power,
            active_power: self.active_power + power,
            ..self
        };
        if months != 0 {
            LedgerView {
                regular_ring: self.regular_ring + value,
                regular_items: self.regular_items.push(
                    RegularItem {
                        value,
                        expire_time: (now + MONTH_IN_SECONDS * months) as Moment,
                    },
                ),
                ..added
            }
        } else {
            LedgerView { normal_ring: self.normal_ring + value, ..added }
        }
    }

    /// The ledger after `value` KTON was added.
    pub open spec fn with_kton(self, value: Balance) -> LedgerView {
        LedgerView {
            total_power: self.total_power + value,
            active_power: self.active_power + value,
            normal_kton: self.normal_kton + value,
            active_kton: self.active_kton + value,
            ..self
        }
    }

    /// The sums that [`with_ring`](LedgerView::with_ring) forms can be expressed.
    pub open spec fn ring_fits(self, value: Balance, months: u32, now: Moment) -> bool {
        &&& self.total_ring() + value <= Balance::MAX
        &&& self.active_ring + value <= Balance::MAX
        &&& self.total_power + value as int / RING_PER_POWER as int <= PowerBalance::MAX
        &&& self.active_power + value as int / RING_PER_POWER as int <= PowerBalance::MAX
        &&& months != 0 ==> now + MONTH_IN_SECONDS * months <= Moment::MAX
    }

    /// The sums that [`with_kton`](LedgerView::with_kton) forms can be expressed.
    pub open spec fn kton_fits(self, value: Balance) -> bool {
        &&& self.normal_kton + value <= Balance::MAX
        &&& self.active_kton + value <= Balance::MAX
        &&& self.total_power + value <= PowerBalance::MAX
        &&& self.active_power + value <= PowerBalance::MAX
    }

    /// The ledger after `power`, or what is active if that is less, went on its way out with
    /// `value`, to be unlocked in `era`.
    pub open spec fn with_chunk(self, value: Amount, power: int, era: EraIndex) -> LedgerView {
        let dt_power = min(power, self.active_power);
        LedgerView {
            active_power: self.active_power - dt_power,
            unlocking: self.unlocking.push(
                UnlockChunk { value, era, dt_power: dt_power as PowerBalance },
            ),
            ..self
        }
    }

    /// The ledger after a request to unbond `value`, to be unlocked in `era`. Of promised RING
    /// only what has expired at `now` is released; it becomes normal RING.
    pub open spec fn unbonded(
        self,
        value: Amount,
        is_regular: bool,
        now: Moment,
        era: EraIndex,
    ) -> LedgerView {
        match value {
            StakingBalance::Ring(r) if is_regular => {
                let moved = released(self.regular_items, r, now);
                LedgerView {
                    regular_ring: monus(self.regular_ring, moved),
                    normal_ring: min(self.normal_ring + moved, Balance::MAX as int),
                    active_ring: monus(self.active_ring, moved),
                    regular_items: staying(self.regular_items, r, now),
                    ..self
                }.with_chunk(
                    StakingBalance::Ring(moved as Balance),
                    moved / RING_PER_POWER as int,
                    era,
                )
            },
            StakingBalance::Ring(r) => {
                let value = min(r as int, self.normal_ring);
                self.with_chunk(
                    StakingBalance::Ring(value as Balance),
                    value / RING_PER_POWER as int,
                    era,
                )
            },
            StakingBalance::Kton(k) => {
                let value = min(k as int, self.normal_kton);
                self.with_chunk(StakingBalance::Kton(value as Balance), value, era)
            },
        }
    }

    /// The ledger after everything that is due in the era has left it.
    pub open spec fn consolidated(self, era: EraIndex) -> LedgerView {
        LedgerView {
            total_power: monus(
                self.total_power,
                sum_due(self.unlocking, era, |c: Chunk| c.dt_power as int),
            ),
            normal_ring: monus(
                self.normal_ring,
                sum_due(self.unlocking, era, |c: Chunk| ring_in(c)),
            ),
            normal_kton: monus(
                self.normal_kton,
                sum_due(self.unlocking, era, |c: Chunk| kton_in(c)),
            ),
            unlocking: self.unlocking.filter(|c: Chunk| !due(c, era)),
            ..self
        }
    }
}

/// What is due is no less than nothing.
pub proof fn lemma_sum_due_nonneg(
    chunks: Seq<Chunk>,
    era: EraIndex,
    amount: spec_fn(Chunk) -> int,
)
    requires
        forall|c: Chunk| #[trigger] amount(c) >= 0,
    ensures
        sum_due(chunks, era, amount) >= 0,
    decreases chunks.len(),
{
    if chunks.len() > 0 {
        lemma_sum_due_nonneg(chunks.drop_last(), era, amount);
    }
}

/// Where nothing is due, a sum over what is due is nothing, and every chunk stays.
proof fn lemma_none_due(chunks: Seq<Chunk>, era: EraIndex, amount: spec_fn(Chunk) -> int)
    requires
        forall|i: int| 0 <= i < chunks.len() ==> !due(#[trigger] chunks[i], era),
    ensures
        sum_due(chunks, era, amount) == 0,
        chunks.filter(|c: Chunk| !due(c, era)) == chunks,
    decreases chunks.len(),
{
    reveal(Seq::filter);
    if chunks.len() > 0 {
        assert(!due(chunks[chunks.len() - 1], era));
        assert forall|i: int| 0 <= i < chunks.drop_last().len() implies !due(
            #[trigger] chunks.drop_last()[i],
            era,
        ) by {
            assert(!due(chunks[i], era));
        }
        lemma_none_due(chunks.drop_last(), era, amount);
        assert(chunks.drop_last().push(chunks.last()) =~= chunks);
    }
}

/// A ledger in which nothing is due is not changed by consolidating it.
pub proof fn lemma_consolidated_unchanged(ledger: LedgerView, era: EraIndex)
    requires
        !ring_due(ledger.unlocking, era),
        !kton_due(ledger.unlocking, era),
        0 <= ledger.total_power,
        0 <= ledger.normal_ring,
        0 <= ledger.normal_kton,
    ensures
        ledger.consolidated(era) == ledger,
{
    let chunks = ledger.unlocking;
    assert forall|i: int| 0 <= i < chunks.len() implies !due(#[trigger] chunks[i], era) by {
        assert(chunks[i].value is Ring || chunks[i].value is Kton);
    }
    lemma_none_due(chunks, era, |c: Chunk| c.dt_power as int);
    lemma_none_due(chunks, era, |c: Chunk| ring_in(c));
    lemma_none_due(chunks, era, |c: Chunk| kton_in(c));
    assert(ledger.consolidated(era) =~= ledger);
}

/// The items of a prefix promise no more than all of them.
proof fn lemma_promised_prefix(items: Seq<Item>, n: int)
    requires
        0 <= n <= items.len(),
    ensures
        0 <= promised(items.take(n)) <= promised(items),
    decreases items.len(),
{
    if n == items.len() {
        assert(items.take(n) =~= items);
        if n > 0 {
            lemma_promised_prefix(items.drop_last(), n - 1);
        }
    } else {
        lemma_promised_prefix(items.drop_last(), n);
        assert(items.drop_last().take(n) =~= items.take(n));
    }
}

/// What is left of a request lies between nothing and the request.
pub proof fn lemma_left_bounded(items: Seq<Item>, wanted: Balance, now: Moment)
    ensures
        0 <= left_after(items, wanted, now) <= wanted,
    decreases items.len(),
{
    if items.len() > 0 {
        lemma_left_bounded(items.drop_last(), wanted, now);
    }
}

/// What is released was promised, and what stays is promised of the rest.
pub proof fn lemma_released_bounded(items: Seq<Item>, wanted: Balance, now: Moment)
    ensures
        0 <= released(items, wanted, now),
        0 <= promised(staying(items, wanted, now)),
        promised(staying(items, wanted, now)) + released(items, wanted, now) <= promised(items),
    decreases items.len(),
{
    if items.len() > 0 {
        let before = staying(items.drop_last(), wanted, now);
        let left = left_after(items.drop_last(), wanted, now);
        let item = items.last();
        lemma_released_bounded(items.drop_last(), wanted, now);
        lemma_left_bounded(items.drop_last(), wanted, now);
        let after = staying(items, wanted, now);
        if after != before {
            assert(after.drop_last() =~= before);
        }
    }
}

/// A valid ledger to which RING is added stays valid while its total can be expressed.
pub proof fn lemma_with_ring_valid(ledger: LedgerView, value: Balance, months: u32, now: Moment)
    requires
        ledger.valid(),
        ledger.total_ring() + value <= Balance::MAX,
    ensures
        ledger.with_ring(value, months, now).valid(),
{
    let after = ledger.with_ring(value, months, now);
    if months != 0 {
        assert(after.regular_items.drop_last() =~= ledger.regular_items);
    }
}

/// A valid ledger from which funds are unbonded stays valid, and holds as much RING as before.
pub proof fn lemma_unbonded_valid(
    ledger: LedgerView,
    value: Amount,
    is_regular: bool,
    now: Moment,
    era: EraIndex,
)
    requires
        ledger.valid(),
    ensures
        ledger.unbonded(value, is_regular, now, era).valid(),
        ledger.unbonded(value, is_regular, now, era).total_ring() == ledger.total_ring(),
{
    if let StakingBalance::Ring(r) = value {
        lemma_released_bounded(ledger.regular_items, r, now);
    }
}

/// A valid ledger that is consolidated stays valid.
pub proof fn lemma_consolidated_valid(ledger: LedgerView, era: EraIndex)
    requires
        ledger.valid(),
        0 <= ledger.normal_ring,
    ensures
        ledger.consolidated(era).valid(),
{
    lemma_sum_due_nonneg(ledger.unlocking, era, |c: Chunk| ring_in(c));
}

/// A copy of a vector.
pub(crate) fn copied<T: Copy>(v: &Vec<T>) -> (copy: Vec<T>)
    ensures
        copy@ == v@,
{
    let mut copy: Vec<T> = Vec::new();
    let mut i: usize = 0;
    while i < v.len()
        invariant
            i <= v@.len(),
            copy@ == v@.take(i as int),
        decreases v@.len() - i,
    {
        copy.push(v[i]);
        i = i + 1;
    }
    assert(v@.take(i as int) =~= v@);
    copy
}

impl Ledger {
    /// A copy of the ledger.
    pub(crate) fn duplicate(&self) -> (copy: Ledger)
        ensures
            copy@ == self@,
    {
        StakingLedgers {
            stash: self.stash,
            total_power: self.total_power,
            active_power: self.active_power,
            normal_ring: self.normal_ring,
            regular_ring: self.regular_ring,
            active_ring: self.active_ring,
            normal_kton: self.normal_kton,
            active_kton: self.active_kton,
            regular_items: copied(&self.regular_items),
            unlocking: copied(&self.unlocking),
        }
    }

    /// Adds `value` RING, under a promise if `months` is not zero.
    pub(crate) fn add_ring(self, value: Balance, months: u32, now: Moment) -> (ledger: Ledger)
        requires
            months <= 36,
            self@.ring_fits(value, months, now),
        ensures
            ledger@ == self@.with_ring(value, months, now),
    {
        let mut ledger = self;
        let power: PowerBalance = value / RING_PER_POWER;
        if months != 0 {
            ledger.regular_ring = ledger.regular_ring + value;
            let expire_time: Moment = now + (MONTH_IN_SECONDS * months) as Moment;
            ledger.regular_items.push(RegularItem { value, expire_time });
        } else {
            ledger.normal_ring = ledger.normal_ring + value;
        }
        ledger.active_ring = ledger.active_ring + value;
        ledger.total_power = ledger.total_power + power;
        ledger.active_power = ledger.active_power + power;
        ledger
    }

    /// Adds `value` KTON.
    pub(crate) fn add_kton(self, value: Balance) -> (ledger: Ledger)
        requires
            self@.kton_fits(value),
        ensures
            ledger@ == self@.with_kton(value),
    {
        let mut ledger = self;
        ledger.total_power = ledger.total_power + value;
        ledger.active_power = ledger.active_power + value;
        ledger.normal_kton = ledger.normal_kton + value;
        ledger.active_kton = ledger.active_kton + value;
        ledger
    }

    /// Sends `value` on its way out, with `power` or what is active of it.
    fn add_chunk(self, value: Amount, power: PowerBalance, era: EraIndex) -> (ledger: Ledger)
        ensures
            ledger@ == self@.with_chunk(value, power as int, era),
    {
        let mut ledger = self;
        let dt_power: PowerBalance = if power <= ledger.active_power {
            power
        } else {
            ledger.active_power
        };
        ledger.active_power = ledger.active_power - dt_power;
        ledger.unlocking.push(UnlockChunk { value, era, dt_power });
        ledger
    }

    /// Turns promised RING that has expired into normal RING, and sends it on its way out.
    fn unbond_regular(self, wanted: Balance, now: Moment, era: EraIndex) -> (ledger: Ledger)
        requires
            self@.valid(),
        ensures
            ledger@ == self@.unbonded(StakingBalance::Ring(wanted), true, now, era),
    {
        let mut ledger = self;
        let ghost items = ledger.regular_items@;
        let mut kept: Vec<Item> = Vec::new();
        let mut left: Balance = wanted;
        let mut moved: Balance = 0;
        let mut i: usize = 0;
        while i < ledger.regular_items.len()
            invariant
                i <= items.len(),
                items == self.regular_items@,
                self@.valid(),
                ledger.regular_items@ == items,
                ledger.stash == self.stash,
                ledger.total_power == self.total_power,
                ledger.active_power == self.active_power,
                ledger.normal_kton == self.normal_kton,
                ledger.active_kton == self.active_kton,
                ledger.unlocking@ == self.unlocking@,
                left == left_after(items.take(i as int), wanted, now),
                moved == released(items.take(i as int), wanted, now),
                kept@ == staying(items.take(i as int), wanted, now),
                ledger.regular_ring == monus(self.regular_ring as int, moved as int),
                ledger.normal_ring == min(self.normal_ring + moved, Balance::MAX as int),
                ledger.active_ring == monus(self.active_ring as int, moved as int),
            decreases items.len() - i,
        {
            let mut item: Item = ledger.regular_items[i];
            proof {
                let next = items.take(i + 1);
                assert(next.drop_last() =~= items.take(i as int));
                assert(next.last() == item);
                lemma_promised_prefix(items, i + 1);
                lemma_released_bounded(next, wanted, now);
                lemma_left_bounded(items.take(i as int), wanted, now);
            }
            if item.expire_time > now {
                kept.push(item);
            } else if left != 0 {
                let value: Balance = if left <= item.value {
                    left
                } else {
                    item.value
                };
                left = wanted.saturating_sub(value);
                ledger.regular_ring = ledger.regular_ring.saturating_sub(value);
                ledger.normal_ring = ledger.normal_ring.saturating_add(value);
                ledger.active_ring = ledger.active_ring.saturating_sub(value);
                moved = moved + value;
                item.value = item.value - value;
                if item.value != 0 {
                    kept.push(item);
                }
            }
            i = i + 1;
        }
        assert(items.take(i as int) =~= items);
        ledger.regular_items = kept;
        ledger.add_chunk(StakingBalance::Ring(moved), moved / RING_PER_POWER, era)
    }

    /// Sends funds on their way out.
    pub(crate) fn unbond(
        self,
        value: Amount,
        is_regular: bool,
        now: Moment,
        era: EraIndex,
    ) -> (ledger: Ledger)
        requires
            self@.valid(),
        ensures
            ledger@ == self@.unbonded(value, is_regular, now, era),
    {
        match value {
            StakingBalance::Ring(r) => {
                if is_regular {
                    self.unbond_regular(r, now, era)
                } else {
                    let value: Balance = if r <= self.normal_ring {
                        r
                    } else {
                        self.normal_ring
                    };
                    self.add_chunk(StakingBalance::Ring(value), value / RING_PER_POWER, era)
                }
            },
            StakingBalance::Kton(k) => {
                let value: Balance = if k <= self.normal_kton {
                    k
                } else {
                    self.normal_kton
                };
                self.add_chunk(StakingBalance::Kton(value), value, era)
            },
        }
    }

    /// Takes what is due in the era out of the ledger. The number is one if there was RING among
    /// it, two if there was KTON, three if there was both, and zero if there was nothing.
    pub fn consolidate_unlocked(self, current_era: EraIndex) -> (r: (Ledger, u32))
        ensures
            r.0@ == self@.consolidated(current_era),
            r.1 == (if ring_due(self.unlocking@, current_era) {
                1int
            } else {
                0
            }) + (if kton_due(self.unlocking@, current_era) {
                2int
            } else {
                0
            }),
    {
        let mut ledger = self;
        let ghost chunks = ledger.unlocking@;
        let ghost power = |c: Chunk| c.dt_power as int;
        let ghost ring = |c: Chunk| ring_in(c);
        let ghost kton = |c: Chunk| kton_in(c);
        let ghost stays = |c: Chunk| !due(c, current_era);
        let mut unlocking: Vec<Chunk> = Vec::new();
        let mut unlock_ring: u32 = 0;
        let mut unlock_kton: u32 = 0;
        let mut i: usize = 0;
        proof {
            assert(chunks.take(0).filter(stays) =~= Seq::empty()) by {
                reveal(Seq::filter);
            }
        }
        while i < ledger.unlocking.len()
            invariant
                i <= chunks.len(),
                chunks == self.unlocking@,
                ledger.unlocking@ == chunks,
                ledger.stash == self.stash,
                ledger.active_power == self.active_power,
                ledger.regular_ring == self.regular_ring,
                ledger.active_ring == self.active_ring,
                ledger.active_kton == self.active_kton,
                ledger.regular_items@ == self.regular_items@,
                power == (|c: Chunk| c.dt_power as int),
                ring == (|c: Chunk| ring_in(c)),
                kton == (|c: Chunk| kton_in(c)),
                stays == (|c: Chunk| !due(c, current_era)),
                ledger.total_power == monus(
                    self.total_power as int,
                    sum_due(chunks.take(i as int), current_era, power),
                ),
                ledger.normal_ring == monus(
                    self.normal_ring as int,
                    sum_due(chunks.take(i as int), current_era, ring),
                ),
                ledger.normal_kton == monus(
                    self.normal_kton as int,
                    sum_due(chunks.take(i as int), current_era, kton),
                ),
                unlocking@ == chunks.take(i as int).filter(stays),
                unlock_ring == 0 || unlock_ring == 1,
                unlock_ring == 1 <==> ring_due(chunks.take(i as int), current_era),
                unlock_kton == 0 || unlock_kton == 2,
                unlock_kton == 2 <==> kton_due(chunks.take(i as int), current_era),
            decreases chunks.len() - i,
        {
            let chunk: Chunk = ledger.unlocking[i];
            proof {
                let before = chunks.take(i as int);
                let next = chunks.take(i + 1);
                assert(next.drop_last() =~= before);
                assert(next.last() == chunk);
                lemma_sum_due_nonneg(before, current_era, power);
                lemma_sum_due_nonneg(before, current_era, ring);
                lemma_sum_due_nonneg(before, current_era, kton);
                reveal(Seq::filter);
                assert(forall|j: int| 0 <= j < i ==> next[j] == before[j]);
                assert(next[i as int] == chunk);
            }
            if chunk.era > current_era {
                unlocking.push(chunk);
            } else {
                if let (true, Some(ring)) = chunk.value.is_ring() {
                    ledger.total_power = ledger.total_power.saturating_sub(chunk.dt_power);
                    ledger.normal_ring = ledger.normal_ring.saturating_sub(ring);
                    unlock_ring = 1;
                } else if let (true, Some(kton)) = chunk.value.is_kton() {
                    ledger.total_power = ledger.total_power.saturating_sub(chunk.dt_power);
                    ledger.normal_kton = ledger.normal_kton.saturating_sub(kton);
                    unlock_kton = 2;
                }
            }
            i = i + 1;
        }
        assert(chunks.take(i as int) =~= chunks);
        ledger.unlocking = unlocking;
        (ledger, unlock_ring + unlock_kton)
    }
}

} // verus!
