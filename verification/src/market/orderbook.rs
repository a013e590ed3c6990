//! Order books: price levels keyed by fixed-point price.
//!
//! A price is keyed by `price × 10^8`, truncated, so the levels are ordered
//! by integer keys. An amount is kept as the IEEE 754 bit pattern of the
//! `f64` the exchange sent, so the book stores it unchanged and tells zero
//! and positive amounts apart exactly as `f64` comparison does.
use vstd::prelude::*;
use std::collections::BTreeMap;

verus! {

/// Keys per unit of price: a price `p` has key `p × PRICE_KEY_SCALE`.
pub const PRICE_KEY_SCALE: u64 = 100_000_000;

/// Bit pattern of `-0.0`.
pub const NEG_ZERO_BITS: u64 = 0x8000_0000_0000_0000;

/// Bit pattern of `+∞`, the largest pattern of a positive `f64`.
pub const POS_INFINITY_BITS: u64 = 0x7FF0_0000_0000_0000;

/// An amount, held by the bit pattern of its `f64`.
#[derive(Debug, Clone, Copy, PartialEq, Eq, Structural)]
pub struct Amount {
    pub bits: u64,
}

/// `amount == 0.0` as `f64` compares: `+0.0` and `-0.0`.
pub open spec fn is_zero_amount(a: Amount) -> bool {
    a.bits == 0 || a.bits == NEG_ZERO_BITS
}

/// `amount > 0.0` as `f64` compares: sign bit clear, not zero, not NaN.
pub open spec fn is_positive_amount(a: Amount) -> bool {
    0 < a.bits <= POS_INFINITY_BITS
}

impl Amount {
    /// Whether the amount compares equal to `0.0`.
    pub fn is_zero(&self) -> (r: bool)
        ensures
            r == is_zero_amount(*self),
    {
        self.bits == 0 || self.bits == NEG_ZERO_BITS
    }

    /// Whether the amount compares greater than `0.0`.
    pub fn is_positive(&self) -> (r: bool)
        ensures
            r == is_positive_amount(*self),
    {
        0 < self.bits && self.bits <= POS_INFINITY_BITS
    }
}

/// One price level of an update: its price key and its amount.
#[derive(Debug, Clone, Copy, PartialEq, Eq, Structural)]
pub struct Level {
    pub price_key: u64,
    pub amount: Amount,
}

/// One side of the book after a snapshot of `levels`: the levels with a
/// positive amount, a later level of the same price replacing an earlier one.
pub open spec fn snapshot_side(levels: Seq<Level>) -> Map<u64, Amount>
    decreases levels.len(),
{
    if levels.len() == 0 {
        Map::empty()
    } else {
        let m = snapshot_side(levels.drop_last());
        let l = levels.last();
        if is_positive_amount(l.amount) {
            m.insert(l.price_key, l.amount)
        } else {
            m
        }
    }
}

/// One side `side` of the book after an incremental update of `levels`: a
/// zero amount removes the level, any other amount sets it.
pub open spec fn updated_side(side: Map<u64, Amount>, levels: Seq<Level>) -> Map<u64, Amount>
    decreases levels.len(),
{
    if levels.len() == 0 {
        side
    } else {
        let m = updated_side(side, levels.drop_last());
        let l = levels.last();
        if is_zero_amount(l.amount) {
            m.remove(l.price_key)
        } else {
            m.insert(l.price_key, l.amount)
        }
    }
}

/// The greatest key of a side, if it has one.
pub open spec fn is_max_key(side: Map<u64, Amount>, r: Option<u64>) -> bool {
    match r {
        Some(k) => side.contains_key(k) && forall|j: u64| side.contains_key(j) ==> j <= k,
        None => side.dom().is_empty(),
    }
}

/// The least key of a side, if it has one.
pub open spec fn is_min_key(side: Map<u64, Amount>, r: Option<u64>) -> bool {
    match r {
        Some(k) => side.contains_key(k) && forall|j: u64| side.contains_key(j) ==> k <= j,
        None => side.dom().is_empty(),
    }
}

/// No level of the side holds a zero amount.
pub open spec fn no_zero_levels(side: Map<u64, Amount>) -> bool {
    forall|k: u64| side.contains_key(k) ==> !is_zero_amount(#[trigger] side[k])
}

/// The largest key of the map, through `BTreeMap::last_key_value`, which
/// returns the entry of the maximum key, or `None` for an empty map.
#[verifier::external_body]
fn last_key(m: &BTreeMap<u64, Amount>) -> (r: Option<u64>)
    ensures
        is_max_key(m@, r),
{
    m.last_key_value().map(|(k, _)| *k)
}

/// The smallest key of the map, through `BTreeMap::first_key_value`, which
/// returns the entry of the minimum key, or `None` for an empty map.
#[verifier::external_body]
fn first_key(m: &BTreeMap<u64, Amount>) -> (r: Option<u64>)
    ensures
        is_min_key(m@, r),
{
    m.first_key_value().map(|(k, _)| *k)
}

/// Bids and asks of one instrument.
pub struct OrderBook {
    pub bids: BTreeMap<u64, Amount>,
    pub asks: BTreeMap<u64, Amount>,
    pub change_id: Option<u64>,
    pub prev_change_id: Option<u64>,
}

impl OrderBook {
    /// An empty book.
    pub fn new() -> (b: Self)
        ensures
            b.bids@ == Map::<u64, Amount>::empty(),
            b.asks@ == Map::<u64, Amount>::empty(),
            b.change_id is None,
            b.prev_change_id is None,
    {
        OrderBook {
            bids: BTreeMap::new(),
            asks: BTreeMap::new(),
            change_id: None,
            prev_change_id: None,
        }
    }

    /// Replaces a side with the positive levels of a snapshot.
    fn load_side(side: &mut BTreeMap<u64, Amount>, levels: &[Level])
        ensures
            final(side)@ == snapshot_side(levels@),
    {
        side.clear();
        let mut i: usize = 0;
        while i < levels.len()
            invariant
                0 <= i <= levels@.len(),
                side@ == snapshot_side(levels@.take(i as int)),
            decreases levels@.len() - i,
        {
            let l = levels[i];
            assert(levels@.take(i + 1).drop_last() =~= levels@.take(i as int));
            if l.amount.is_positive() {
                side.insert(l.price_key, l.amount);
            }
            i += 1;
        }
        assert(levels@.take(levels@.len() as int) =~= levels@);
    }

    /// Applies an incremental update of levels to a side.
    fn update_side(side: &mut BTreeMap<u64, Amount>, levels: &[Level])
        ensures
            final(side)@ == updated_side(old(side)@, levels@),
    {
        let ghost start = side@;
        let mut i: usize = 0;
        while i < levels.len()
            invariant
                0 <= i <= levels@.len(),
                side@ == updated_side(start, levels@.take(i as int)),
            decreases levels@.len() - i,
        {
            let l = levels[i];
            assert(levels@.take(i + 1).drop_last() =~= levels@.take(i as int));
            if l.amount.is_zero() {
                side.remove(&l.price_key);
            } else {
                side.insert(l.price_key, l.amount);
            }
            i += 1;
        }
        assert(levels@.take(levels@.len() as int) =~= levels@);
    }

    /// Full replacement: each side holds the positive levels of the snapshot.
    pub fn apply_snapshot(&mut self, bids: &[Level], asks: &[Level])
        ensures
            final(self).bids@ == snapshot_side(bids@),
            final(self).asks@ == snapshot_side(asks@),
            final(self).change_id == old(self).change_id,
            final(self).prev_change_id == old(self).prev_change_id,
    {
        Self::load_side(&mut self.bids, bids);
        Self::load_side(&mut self.asks, asks);
    }

    /// Incremental update: a zero amount removes its level, any other
    /// amount sets it.
    pub fn apply_update(&mut self, bids: &[Level], asks: &[Level])
        ensures
            final(self).bids@ == updated_side(old(self).bids@, bids@),
            final(self).asks@ == updated_side(old(self).asks@, asks@),
            final(self).change_id == old(self).change_id,
            final(self).prev_change_id == old(self).prev_change_id,
    {
        Self::update_side(&mut self.bids, bids);
        Self::update_side(&mut self.asks, asks);
    }

    /// Key of the highest bid.
    pub fn best_bid(&self) -> (r: Option<u64>)
        ensures
            is_max_key(self.bids@, r),
    {
        last_key(&self.bids)
    }

    /// Key of the lowest ask.
    pub fn best_ask(&self) -> (r: Option<u64>)
        ensures
            is_min_key(self.asks@, r),
    {
        first_key(&self.asks)
    }
}

/// After an update, a price that no level of the update names keeps the
/// amount it had (or stays absent).
pub proof fn update_keeps_untouched_levels(side: Map<u64, Amount>, levels: Seq<Level>, k: u64)
    requires
        forall|j: int| 0 <= j < levels.len() ==> (#[trigger] levels[j]).price_key != k,
    ensures
        updated_side(side, levels).contains_key(k) == side.contains_key(k),
        side.contains_key(k) ==> updated_side(side, levels)[k] == side[k],
    decreases levels.len(),
{
    if levels.len() > 0 {
        let init = levels.drop_last();
        assert forall|j: int| 0 <= j < init.len() implies (#[trigger] init[j]).price_key != k by {
            assert(init[j] == levels[j]);
        }
        update_keeps_untouched_levels(side, init, k);
        assert(levels.last() == levels[levels.len() - 1]);
    }
}

/// After an update, the last level of the update at a price decides that
/// price: a zero amount removes the level, any other amount is what the side
/// then holds.
pub proof fn update_last_level_wins(side: Map<u64, Amount>, levels: Seq<Level>, i: int)
    requires
        0 <= i < levels.len(),
        forall|j: int| i < j < levels.len() ==> (#[trigger] levels[j]).price_key != levels[i].price_key,
    ensures
        updated_side(side, levels).contains_key(levels[i].price_key) == !is_zero_amount(levels[i].amount),
        !is_zero_amount(levels[i].amount) ==> updated_side(side, levels)[levels[i].price_key]
            == levels[i].amount,
    decreases levels.len(),
{
    let k = levels[i].price_key;
    if i == levels.len() - 1 {
        assert(levels.last() == levels[i]);
    } else {
        let init = levels.drop_last();
        assert(init[i] == levels[i]);
        assert forall|j: int| i < j < init.len() implies (#[trigger] init[j]).price_key != init[i].price_key by {
            assert(init[j] == levels[j]);
        }
        update_last_level_wins(side, init, i);
        assert(levels.last() == levels[levels.len() - 1]);
    }
}

/// A snapshot side holds the amount of the last positive level at a price.
pub proof fn snapshot_last_positive_level_wins(levels: Seq<Level>, i: int)
    requires
        0 <= i < levels.len(),
        is_positive_amount(levels[i].amount),
        forall|j: int|
            i < j < levels.len() && (#[trigger] levels[j]).price_key == levels[i].price_key
                ==> !is_positive_amount(levels[j].amount),
    ensures
        snapshot_side(levels).contains_key(levels[i].price_key),
        snapshot_side(levels)[levels[i].price_key] == levels[i].amount,
    decreases levels.len(),
{
    assert(levels.last() == levels[levels.len() - 1]);
    if i < levels.len() - 1 {
        let init = levels.drop_last();
        assert(init[i] == levels[i]);
        assert forall|j: int|
            i < j < init.len() && (#[trigger] init[j]).price_key == init[i].price_key
                implies !is_positive_amount(init[j].amount) by {
            assert(init[j] == levels[j]);
        }
        snapshot_last_positive_level_wins(init, i);
    }
}

/// A snapshot side holds no price at which the snapshot has no positive level.
pub proof fn snapshot_without_positive_level(levels: Seq<Level>, k: u64)
    requires
        forall|j: int|
            0 <= j < levels.len() && (#[trigger] levels[j]).price_key == k
                ==> !is_positive_amount(levels[j].amount),
    ensures
        !snapshot_side(levels).contains_key(k),
    decreases levels.len(),
{
    if levels.len() > 0 {
        let init = levels.drop_last();
        assert forall|j: int| 0 <= j < init.len() && (#[trigger] init[j]).price_key == k
            implies !is_positive_amount(init[j].amount) by {
            assert(init[j] == levels[j]);
        }
        snapshot_without_positive_level(init, k);
        assert(levels.last() == levels[levels.len() - 1]);
    }
}

/// Every level of a snapshot side has a positive amount.
pub proof fn snapshot_levels_are_positive(levels: Seq<Level>)
    ensures
        forall|k: u64| #[trigger] snapshot_side(levels).contains_key(k) ==> is_positive_amount(
            snapshot_side(levels)[k],
        ),
    decreases levels.len(),
{
    if levels.len() > 0 {
        let init = levels.drop_last();
        snapshot_levels_are_positive(init);
        assert forall|k: u64| #[trigger] snapshot_side(levels).contains_key(k) implies is_positive_amount(
            snapshot_side(levels)[k],
        ) by {
            let l = levels.last();
            if !(is_positive_amount(l.amount) && k == l.price_key) {
                assert(snapshot_side(init).contains_key(k));
                assert(snapshot_side(levels)[k] == snapshot_side(init)[k]);
            }
        }
    }
}

/// An update never leaves a zero level in a side that had none.
pub proof fn update_keeps_no_zero_levels(side: Map<u64, Amount>, levels: Seq<Level>)
    requires
        no_zero_levels(side),
    ensures
        no_zero_levels(updated_side(side, levels)),
    decreases levels.len(),
{
    if levels.len() > 0 {
        update_keeps_no_zero_levels(side, levels.drop_last());
    }
}

} // verus!
