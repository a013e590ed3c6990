use deribit::ws::rate_limiter::{CreditPool, RateLimitCategory, RateLimiter, NANO_PER_CREDIT};

#[test]
fn categorize_methods() {
    assert_eq!(RateLimiter::categorize("public/subscribe"), RateLimitCategory::Subscribe);
    assert_eq!(RateLimiter::categorize("private/subscribe"), RateLimitCategory::Subscribe);
    assert_eq!(RateLimiter::categorize("public/get_instruments"), RateLimitCategory::GetInstruments);
    assert_eq!(RateLimiter::categorize("public/auth"), RateLimitCategory::NonMatching);
    assert_eq!(RateLimiter::categorize("public/subscribe2"), RateLimitCategory::NonMatching);
    assert_eq!(RateLimiter::categorize(""), RateLimitCategory::NonMatching);
}

#[test]
fn category_costs() {
    assert_eq!(RateLimitCategory::NonMatching.cost(), 500);
    assert_eq!(RateLimitCategory::Subscribe.cost(), 3000);
    assert_eq!(RateLimitCategory::GetInstruments.cost(), 10000);
}

#[test]
fn new_pools_are_full() {
    let l = RateLimiter::new();
    let nm = l.pool_of(RateLimitCategory::NonMatching);
    assert_eq!(nm.capacity(), 50_000 * NANO_PER_CREDIT);
    assert_eq!(nm.balance(), 50_000 * NANO_PER_CREDIT);
    assert_eq!(nm.refill_rate(), 10_000);
    assert_eq!(l.pool_of(RateLimitCategory::Subscribe).capacity(), 30_000 * NANO_PER_CREDIT);
    assert_eq!(l.pool_of(RateLimitCategory::GetInstruments).capacity(), 500_000 * NANO_PER_CREDIT);
}

#[test]
fn consume_takes_cost_when_available() {
    let mut p = CreditPool::new(1_000, 100);
    assert_eq!(p.consume(400), None);
    assert_eq!(p.balance(), 600 * NANO_PER_CREDIT);
    assert_eq!(p.consume(600), None);
    assert_eq!(p.balance(), 0);
}

#[test]
fn consume_quotes_least_wait() {
    let mut p = CreditPool::new(1_000, 100);
    assert_eq!(p.consume(900), None);
    // 100 credits left, 250 needed: 150 credits at 100 credits/s = 1.5 s.
    assert_eq!(p.consume(250), Some(1_500_000_000));
    assert_eq!(p.balance(), 100 * NANO_PER_CREDIT);
}

#[test]
fn consume_rounds_wait_up() {
    let mut p = CreditPool::new(10, 3);
    assert_eq!(p.consume(10), None);
    // 1 credit at 3 credits/s: 333,333,333.3 ns, rounded up to whole nanoseconds.
    assert_eq!(p.consume(1), Some(333_333_334));
}

#[test]
fn refill_is_capped_at_capacity() {
    let mut p = CreditPool::new(1_000, 100);
    p.consume(500);
    p.refill_for(2_000_000_000);
    assert_eq!(p.balance(), 700 * NANO_PER_CREDIT);
    p.refill_for(u64::MAX);
    assert_eq!(p.balance(), 1_000 * NANO_PER_CREDIT);
}

#[test]
fn waiting_the_quoted_time_covers_the_cost() {
    let mut p = CreditPool::new(1_000, 100);
    p.consume(900);
    let w = p.consume(250).unwrap();
    assert_eq!(w, 1_500_000_000);
    p.refill_for(w - 1);
    assert!(p.balance() < 250 * NANO_PER_CREDIT);
    p.refill_for(1);
    p.charge(250);
    assert_eq!(p.balance(), 0);
}

#[test]
fn charge_may_go_negative() {
    let mut p = CreditPool::new(10, 1);
    p.charge(25);
    assert_eq!(p.balance(), -15 * NANO_PER_CREDIT);
    assert_eq!(p.consume(1), Some(16_000_000_000));
}

#[test]
fn charge_stops_at_least_balance() {
    let mut p = CreditPool::new(0, 1);
    for _ in 0..20 {
        p.charge(1_000_000_000);
    }
    assert_eq!(p.balance(), i64::MIN);
}

#[test]
fn acquire_draws_from_method_pool_only() {
    let mut l = RateLimiter::new();
    assert_eq!(l.begin_acquire("public/subscribe"), None);
    assert_eq!(l.pool_of(RateLimitCategory::Subscribe).balance(), 27_000 * NANO_PER_CREDIT);
    assert_eq!(l.pool_of(RateLimitCategory::NonMatching).balance(), 50_000 * NANO_PER_CREDIT);
    assert_eq!(l.pool_of(RateLimitCategory::GetInstruments).balance(), 500_000 * NANO_PER_CREDIT);
}

#[test]
fn acquire_asks_to_wait_when_pool_is_drained() {
    let mut l = RateLimiter::new();
    let mut waits = 0;
    for _ in 0..11 {
        if let Some(w) = l.begin_acquire("public/subscribe") {
            assert!(w > 0);
            waits += 1;
            l.finish_acquire("public/subscribe");
        }
    }
    assert!(waits >= 1);
}
