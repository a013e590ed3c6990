use deribit::market::orderbook::{Amount, Level, OrderBook, PRICE_KEY_SCALE};

fn lvl(price_key: u64, amount: f64) -> Level {
    Level { price_key, amount: Amount { bits: amount.to_bits() } }
}

#[test]
fn amount_comparisons_follow_f64() {
    for a in [0.0f64, -0.0, 1.5, -1.5, f64::INFINITY, f64::NEG_INFINITY, f64::NAN, f64::MIN_POSITIVE, 5e-324] {
        let amt = Amount { bits: a.to_bits() };
        assert_eq!(amt.is_zero(), a == 0.0, "{}", a);
        assert_eq!(amt.is_positive(), a > 0.0, "{}", a);
    }
}

#[test]
fn new_book_is_empty() {
    let b = OrderBook::new();
    assert_eq!(b.best_bid(), None);
    assert_eq!(b.best_ask(), None);
    assert!(b.change_id.is_none());
    assert!(b.prev_change_id.is_none());
}

#[test]
fn snapshot_keeps_positive_levels() {
    let mut b = OrderBook::new();
    b.apply_snapshot(
        &[lvl(5 * PRICE_KEY_SCALE, 1.0), lvl(6 * PRICE_KEY_SCALE, 0.0), lvl(4 * PRICE_KEY_SCALE, 2.0)],
        &[lvl(7 * PRICE_KEY_SCALE, 3.0), lvl(8 * PRICE_KEY_SCALE, -1.0)],
    );
    assert_eq!(b.bids.len(), 2);
    assert_eq!(b.asks.len(), 1);
    assert_eq!(b.best_bid(), Some(5 * PRICE_KEY_SCALE));
    assert_eq!(b.best_ask(), Some(7 * PRICE_KEY_SCALE));
}

#[test]
fn snapshot_replaces_previous_book() {
    let mut b = OrderBook::new();
    b.apply_snapshot(&[lvl(10, 1.0)], &[lvl(20, 1.0)]);
    b.apply_snapshot(&[lvl(11, 1.0)], &[]);
    assert_eq!(b.best_bid(), Some(11));
    assert_eq!(b.bids.len(), 1);
    assert_eq!(b.best_ask(), None);
}

#[test]
fn snapshot_keeps_last_positive_level_of_a_price() {
    let mut b = OrderBook::new();
    b.apply_snapshot(&[lvl(10, 1.0), lvl(10, 2.0), lvl(10, 0.0)], &[]);
    assert_eq!(b.bids.get(&10), Some(&Amount { bits: 2.0f64.to_bits() }));
}

#[test]
fn update_removes_zero_levels_and_sets_others() {
    let mut b = OrderBook::new();
    b.apply_snapshot(&[lvl(10, 1.0), lvl(12, 1.0)], &[lvl(15, 1.0)]);
    b.apply_update(&[lvl(12, 0.0), lvl(9, 4.0), lvl(10, 3.0)], &[lvl(14, -0.0), lvl(16, 2.0)]);
    assert_eq!(b.best_bid(), Some(10));
    assert_eq!(b.bids.get(&10), Some(&Amount { bits: 3.0f64.to_bits() }));
    assert_eq!(b.bids.len(), 2);
    assert_eq!(b.best_ask(), Some(15));
    assert_eq!(b.asks.len(), 2);
}

#[test]
fn update_last_level_wins() {
    let mut b = OrderBook::new();
    b.apply_update(&[lvl(10, 1.0), lvl(10, 0.0)], &[lvl(20, 0.0), lvl(20, 5.0)]);
    assert_eq!(b.best_bid(), None);
    assert_eq!(b.asks.get(&20), Some(&Amount { bits: 5.0f64.to_bits() }));
}
