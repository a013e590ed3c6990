//! Credit-based limiting of the requests sent to the exchange.
//!
//! Each category of request draws credits from a pool that refills at a
//! constant rate up to its capacity. Credits are counted exactly, in
//! nano-credits, against a clock read in whole nanoseconds: a pool that
//! refills at `r` credits per second gains `r` nano-credits per nanosecond.
use vstd::prelude::*;
use vstd::string::*;
use crate::clock::{instant_now, nanos_between};
use crate::text::str_equals;

verus! {

/// Nano-credits in one credit.
pub const NANO_PER_CREDIT: i64 = 1_000_000_000;

/// Largest capacity, refill rate or cost of a pool, in credits: a pool of
/// this size still counts its nano-credits in an `i64`.
pub const MAX_POOL_CREDITS: u64 = 1_000_000_000;

/// Rate limit categories of the exchange's API, each with its own pool.
#[derive(Debug, Clone, Copy, PartialEq, Eq, Hash, Structural)]
pub enum RateLimitCategory {
    /// Non-matching engine requests: 500 credits, pool 50,000, refill 10,000/s
    NonMatching,
    /// Subscribe requests: 3,000 credits, pool 30,000, refill 10,000/s
    Subscribe,
    /// Get instruments: 10,000 credits, pool 500,000, refill 10,000/s
    GetInstruments,
}

impl RateLimitCategory {
    /// Credits that one request of the category costs.
    pub open spec fn cost_credits(self) -> u64 {
        match self {
            RateLimitCategory::NonMatching => 500,
            RateLimitCategory::Subscribe => 3000,
            RateLimitCategory::GetInstruments => 10000,
        }
    }

    /// Credits that one request of the category costs.
    pub fn cost(&self) -> (c: u64)
        ensures
            c == self.cost_credits(),
    {
        match self {
            RateLimitCategory::NonMatching => 500,
            RateLimitCategory::Subscribe => 3000,
            RateLimitCategory::GetInstruments => 10000,
        }
    }
}

/// The category of a JSON-RPC method.
pub open spec fn category_of(method: Seq<char>) -> RateLimitCategory {
    if method == "public/subscribe"@ || method == "private/subscribe"@ {
        RateLimitCategory::Subscribe
    } else if method == "public/get_instruments"@ {
        RateLimitCategory::GetInstruments
    } else {
        RateLimitCategory::NonMatching
    }
}

/// Balance after refilling `elapsed` nanoseconds at `rate`, capped at `max`.
pub open spec fn refilled(credits: int, max: int, rate: int, elapsed: int) -> int {
    if credits + elapsed * rate >= max {
        max
    } else {
        credits + elapsed * rate
    }
}

/// Balance after charging `need`, floored at the least `i64`.
pub open spec fn charged(credits: int, need: int) -> int {
    if credits - need < i64::MIN {
        i64::MIN as int
    } else {
        credits - need
    }
}

/// `w` is the least number of nanoseconds in which `rate` covers `deficit`.
pub open spec fn is_least_wait(w: int, deficit: int, rate: int) -> bool {
    w * rate >= deficit && (w - 1) * rate < deficit
}

/// A pool of credits (in nano-credits) refilled at a constant rate.
pub struct CreditPool {
    credits: i64,
    max_credits: i64,
    refill_rate: i64,
    last_update: std::time::Instant,
}

impl CreditPool {
    /// Current balance in nano-credits; negative after a charge beyond it.
    pub closed spec fn credits(&self) -> int {
        self.credits as int
    }

    /// Capacity in nano-credits.
    pub closed spec fn max(&self) -> int {
        self.max_credits as int
    }

    /// Refill rate in nano-credits per nanosecond (credits per second).
    pub closed spec fn rate(&self) -> int {
        self.refill_rate as int
    }

    /// The balance never exceeds the capacity, and the rate is positive.
    pub closed spec fn wf(&self) -> bool {
        &&& 0 < self.refill_rate <= MAX_POOL_CREDITS
        &&& 0 <= self.max_credits <= MAX_POOL_CREDITS * NANO_PER_CREDIT
        &&& self.credits <= self.max_credits
    }

    /// Current balance in nano-credits.
    pub fn balance(&self) -> (c: i64)
        ensures
            c == self.credits(),
    {
        self.credits
    }

    /// Capacity in nano-credits.
    pub fn capacity(&self) -> (m: i64)
        ensures
            m == self.max(),
    {
        self.max_credits
    }

    /// Refill rate in credits per second.
    pub fn refill_rate(&self) -> (r: i64)
        ensures
            r == self.rate(),
    {
        self.refill_rate
    }

    /// A full pool of `max_credits` credits that refills `refill_rate` credits
    /// per second.
    pub fn new(max_credits: u64, refill_rate: u64) -> (p: Self)
        requires
            max_credits <= MAX_POOL_CREDITS,
            0 < refill_rate <= MAX_POOL_CREDITS,
        ensures
            p.wf(),
            p.credits() == max_credits * NANO_PER_CREDIT,
            p.max() == max_credits * NANO_PER_CREDIT,
            p.rate() == refill_rate,
    {
        let max = max_credits as i64 * NANO_PER_CREDIT;
        CreditPool {
            credits: max,
            max_credits: max,
            refill_rate: refill_rate as i64,
            last_update: instant_now(),
        }
    }

    /// Adds what `elapsed_ns` nanoseconds refill, up to the capacity.
    pub fn refill_for(&mut self, elapsed_ns: u64)
        requires
            old(self).wf(),
        ensures
            final(self).wf(),
            final(self).max() == old(self).max(),
            final(self).rate() == old(self).rate(),
            final(self).credits() == refilled(
                old(self).credits(),
                old(self).max(),
                old(self).rate(),
                elapsed_ns as int,
            ),
    {
        let rate = self.refill_rate;
        assert(elapsed_ns as int * rate as int <= u64::MAX as int * MAX_POOL_CREDITS as int)
            by (nonlinear_arith)
            requires
                0 < rate <= MAX_POOL_CREDITS,
                elapsed_ns <= u64::MAX,
        ;
        let room: i128 = self.max_credits as i128 - self.credits as i128;
        let gain: i128 = elapsed_ns as i128 * rate as i128;
        if gain >= room {
            self.credits = self.max_credits;
        } else {
            self.credits = (self.credits as i128 + gain) as i64;
        }
    }

    /// Refills for the time elapsed since the last refill.
    pub fn refill(&mut self)
        requires
            old(self).wf(),
        ensures
            final(self).wf(),
            final(self).max() == old(self).max(),
            final(self).rate() == old(self).rate(),
            exists|elapsed: int|
                0 <= elapsed <= u64::MAX && final(self).credits() == #[trigger] refilled(
                    old(self).credits(),
                    old(self).max(),
                    old(self).rate(),
                    elapsed,
                ),
    {
        let now = instant_now();
        let elapsed = nanos_between(&self.last_update, &now);
        self.refill_for(elapsed);
        self.last_update = now;
    }

    /// Takes `cost` credits if the balance holds them (`None`); otherwise
    /// leaves the balance and returns the least whole number of nanoseconds
    /// after which the refill covers the deficit. That wait is never shorter
    /// than the exact quotient of deficit by rate and exceeds it by less
    /// than a nanosecond.
    pub fn consume(&mut self, cost: u64) -> (wait: Option<u64>)
        requires
            old(self).wf(),
            cost <= MAX_POOL_CREDITS,
        ensures
            final(self).wf(),
            final(self).max() == old(self).max(),
            final(self).rate() == old(self).rate(),
            old(self).credits() >= cost * NANO_PER_CREDIT ==> {
                &&& wait is None
                &&& final(self).credits() == old(self).credits() - cost * NANO_PER_CREDIT
            },
            old(self).credits() < cost * NANO_PER_CREDIT ==> {
                &&& wait is Some
                &&& final(self).credits() == old(self).credits()
                &&& is_least_wait(
                    wait->0 as int,
                    cost * NANO_PER_CREDIT - old(self).credits(),
                    old(self).rate(),
                )
            },
    {
        let need: i64 = cost as i64 * NANO_PER_CREDIT;
        if self.credits >= need {
            self.credits = self.credits - need;
            None
        } else {
            let deficit: i128 = need as i128 - self.credits as i128;
            let rate: i128 = self.refill_rate as i128;
            let w: i128 = (deficit + rate - 1) / rate;
            assert(is_least_wait(w as int, deficit as int, rate as int)) by (nonlinear_arith)
                requires
                    deficit > 0,
                    rate > 0,
                    w as int == (deficit + rate - 1) as int / (rate as int),
            ;
            assert(w <= deficit) by (nonlinear_arith)
                requires
                    deficit > 0,
                    rate > 0,
                    w as int == (deficit + rate - 1) as int / (rate as int),
            ;
            Some(w as u64)
        }
    }

    /// Refills for the time elapsed and then consumes `cost` credits, as
    /// `consume` does.
    pub fn try_consume(&mut self, cost: u64) -> (wait: Option<u64>)
        requires
            old(self).wf(),
            cost <= MAX_POOL_CREDITS,
        ensures
            final(self).wf(),
            final(self).max() == old(self).max(),
            final(self).rate() == old(self).rate(),
            exists|elapsed: int|
                0 <= elapsed <= u64::MAX && #[trigger] consumed_after(
                    old(self).credits(),
                    old(self).max(),
                    old(self).rate(),
                    elapsed,
                    cost as int,
                    wait,
                    final(self).credits(),
                ),
    {
        let ghost c0 = self.credits();
        let ghost m = self.max();
        let ghost r = self.rate();
        self.refill();
        let ghost e = choose|e: int| 0 <= e <= u64::MAX && self.credits() == refilled(c0, m, r, e);
        let w = self.consume(cost);
        assert(consumed_after(c0, m, r, e, cost as int, w, self.credits()));
        w
    }

    /// Takes `cost` credits unconditionally; the balance may go negative and
    /// stops at the least `i64`.
    pub fn charge(&mut self, cost: u64)
        requires
            old(self).wf(),
            cost <= MAX_POOL_CREDITS,
        ensures
            final(self).wf(),
            final(self).max() == old(self).max(),
            final(self).rate() == old(self).rate(),
            final(self).credits() == charged(old(self).credits(), cost * NANO_PER_CREDIT),
    {
        let need: i128 = cost as i128 * NANO_PER_CREDIT as i128;
        let c: i128 = self.credits as i128 - need;
        if c < i64::MIN as i128 {
            self.credits = i64::MIN;
        } else {
            self.credits = c as i64;
        }
    }
}

/// The outcome of refilling for `elapsed` nanoseconds and then consuming
/// `cost` credits: the balance `after` and the returned wait.
pub open spec fn consumed_after(
    credits: int,
    max: int,
    rate: int,
    elapsed: int,
    cost: int,
    wait: Option<u64>,
    after: int,
) -> bool {
    let c = refilled(credits, max, rate, elapsed);
    let need = cost * NANO_PER_CREDIT;
    if c >= need {
        wait is None && after == c - need
    } else {
        wait is Some && after == c && is_least_wait(wait->0 as int, need - c, rate)
    }
}

/// A quoted wait is enough: a pool that lacked `cost` credits and was quoted
/// the least wait `w` holds the cost once it has refilled for `w` or more
/// nanoseconds (when the cost fits in the pool), so the charge that follows
/// the wait leaves a balance that is not negative.
pub proof fn waiting_covers_cost(
    credits: int,
    max: int,
    rate: int,
    cost: int,
    w: int,
    elapsed: int,
)
    requires
        0 < rate,
        0 <= cost * NANO_PER_CREDIT <= max,
        credits < cost * NANO_PER_CREDIT,
        is_least_wait(w, cost * NANO_PER_CREDIT - credits, rate),
        elapsed >= w,
    ensures
        refilled(credits, max, rate, elapsed) >= cost * NANO_PER_CREDIT,
        charged(refilled(credits, max, rate, elapsed), cost * NANO_PER_CREDIT) >= 0,
{
    assert(elapsed * rate >= w * rate) by (nonlinear_arith)
        requires
            elapsed >= w,
            rate > 0,
    ;
}

/// Refilling adds exactly `elapsed * rate` nano-credits to a balance within
/// the capacity, and stops at the capacity only when that sum reaches it:
/// the result is the smaller of the two.
pub proof fn refill_adds_elapsed_times_rate(credits: int, max: int, rate: int, elapsed: int)
    requires
        credits <= max,
        0 < rate,
        0 <= elapsed,
    ensures
        credits + elapsed * rate <= max ==> refilled(credits, max, rate, elapsed) == credits
            + elapsed * rate,
        credits + elapsed * rate >= max ==> refilled(credits, max, rate, elapsed) == max,
        credits <= refilled(credits, max, rate, elapsed) <= max,
{
    assert(elapsed * rate >= 0) by (nonlinear_arith)
        requires
            0 < rate,
            0 <= elapsed,
    ;
}

/// Refilling for one span and then for another gives what refilling for
/// both at once gives, so how often the pool is refilled does not matter.
pub proof fn refills_compose(credits: int, max: int, rate: int, e1: int, e2: int)
    requires
        credits <= max,
        0 < rate,
        0 <= e1,
        0 <= e2,
    ensures
        refilled(refilled(credits, max, rate, e1), max, rate, e2) == refilled(
            credits,
            max,
            rate,
            e1 + e2,
        ),
{
    assert((e1 + e2) * rate == e1 * rate + e2 * rate) by (nonlinear_arith);
    assert(e1 * rate >= 0 && e2 * rate >= 0) by (nonlinear_arith)
        requires
            0 < rate,
            0 <= e1,
            0 <= e2,
    ;
}

/// The quoted wait is the deficit divided by the rate, rounded up to whole
/// nanoseconds: exactly one wait is the least, and it is that quotient.
pub proof fn least_wait_is_rounded_quotient(w: int, deficit: int, rate: int)
    requires
        0 < rate,
        0 < deficit,
        is_least_wait(w, deficit, rate),
    ensures
        w == (deficit + rate - 1) / rate,
        w * rate >= deficit,
        w * rate < deficit + rate,
{
    let q = (deficit + rate - 1) / rate;
    assert(q * rate >= deficit && (q - 1) * rate < deficit) by (nonlinear_arith)
        requires
            0 < rate,
            0 < deficit,
            q == (deficit + rate - 1) / rate,
    ;
    assert(w == q) by (nonlinear_arith)
        requires
            0 < rate,
            w * rate >= deficit,
            (w - 1) * rate < deficit,
            q * rate >= deficit,
            (q - 1) * rate < deficit,
    ;
    assert(w * rate == (w - 1) * rate + rate) by (nonlinear_arith);
}

/// Charging takes exactly the cost from the balance, unless that would go
/// below the least `i64`, where the balance stops.
pub proof fn charge_takes_the_cost(credits: int, need: int)
    ensures
        credits - need >= i64::MIN ==> charged(credits, need) == credits - need,
        credits - need < i64::MIN ==> charged(credits, need) == i64::MIN,
{
}

/// The categories of the methods: the two subscribe methods are subscribe
/// requests, `public/get_instruments` is an instruments request, and every
/// other method is a non-matching request; each category costs its credits.
pub proof fn method_categories(method: Seq<char>)
    ensures
        method == "public/subscribe"@ ==> category_of(method) == RateLimitCategory::Subscribe,
        method == "private/subscribe"@ ==> category_of(method) == RateLimitCategory::Subscribe,
        method == "public/get_instruments"@ ==> category_of(method)
            == RateLimitCategory::GetInstruments,
        method != "public/subscribe"@ && method != "private/subscribe"@ && method
            != "public/get_instruments"@ ==> category_of(method) == RateLimitCategory::NonMatching,
        RateLimitCategory::NonMatching.cost_credits() == 500,
        RateLimitCategory::Subscribe.cost_credits() == 3000,
        RateLimitCategory::GetInstruments.cost_credits() == 10000,
{
    reveal_strlit("public/subscribe");
    reveal_strlit("private/subscribe");
    reveal_strlit("public/get_instruments");
    assert("public/subscribe"@.len() != "public/get_instruments"@.len());
    assert("private/subscribe"@.len() != "public/get_instruments"@.len());
}

/// A pool never holds more than its capacity.
pub proof fn credits_within_capacity(p: &CreditPool)
    requires
        p.wf(),
    ensures
        p.credits() <= p.max(),
        p.rate() > 0,
{
}

/// One credit pool per category of request.
pub struct RateLimiter {
    non_matching: CreditPool,
    subscribe: CreditPool,
    get_instruments: CreditPool,
}

impl RateLimiter {
    /// The pool of a category.
    pub closed spec fn pool(&self, c: RateLimitCategory) -> CreditPool {
        match c {
            RateLimitCategory::NonMatching => self.non_matching,
            RateLimitCategory::Subscribe => self.subscribe,
            RateLimitCategory::GetInstruments => self.get_instruments,
        }
    }

    /// Every pool is well formed and can hold the cost of its category.
    pub open spec fn wf(&self) -> bool {
        forall|c: RateLimitCategory|
            #![trigger self.pool(c)]
            {
                &&& self.pool(c).wf()
                &&& c.cost_credits() * NANO_PER_CREDIT <= self.pool(c).max()
            }
    }

    /// The pool of a category.
    pub fn pool_of(&self, c: RateLimitCategory) -> (p: &CreditPool)
        ensures
            *p == self.pool(c),
    {
        match c {
            RateLimitCategory::NonMatching => &self.non_matching,
            RateLimitCategory::Subscribe => &self.subscribe,
            RateLimitCategory::GetInstruments => &self.get_instruments,
        }
    }

    /// Full pools: non-matching 50,000 credits, subscribe 30,000, get
    /// instruments 500,000; each refills 10,000 credits per second.
    pub fn new() -> (l: Self)
        ensures
            l.wf(),
            l.pool(RateLimitCategory::NonMatching).max() == 50_000 * NANO_PER_CREDIT,
            l.pool(RateLimitCategory::Subscribe).max() == 30_000 * NANO_PER_CREDIT,
            l.pool(RateLimitCategory::GetInstruments).max() == 500_000 * NANO_PER_CREDIT,
            forall|c: RateLimitCategory|
                #![trigger l.pool(c)]
                l.pool(c).credits() == l.pool(c).max() && l.pool(c).rate() == 10_000,
    {
        let l = RateLimiter {
            non_matching: CreditPool::new(50_000, 10_000),
            subscribe: CreditPool::new(30_000, 10_000),
            get_instruments: CreditPool::new(500_000, 10_000),
        };
        assert forall|c: RateLimitCategory| #![trigger l.pool(c)]
            l.pool(c).wf() && c.cost_credits() * NANO_PER_CREDIT <= l.pool(c).max() by {
            match c {
                RateLimitCategory::NonMatching => {},
                RateLimitCategory::Subscribe => {},
                RateLimitCategory::GetInstruments => {},
            }
        }
        l
    }

    /// The rate limit category of a JSON-RPC method.
    pub fn categorize(method: &str) -> (c: RateLimitCategory)
        ensures
            c == category_of(method@),
    {
        if str_equals(method, "public/subscribe") || str_equals(method, "private/subscribe") {
            RateLimitCategory::Subscribe
        } else if str_equals(method, "public/get_instruments") {
            RateLimitCategory::GetInstruments
        } else {
            RateLimitCategory::NonMatching
        }
    }

    /// First step of acquiring credits for `method`: refills the method's
    /// pool and takes the cost if it is there (`None`); else returns the
    /// nanoseconds to wait before `finish_acquire`. Other pools stay as
    /// they were.
    pub fn begin_acquire(&mut self, method: &str) -> (wait: Option<u64>)
        requires
            old(self).wf(),
        ensures
            final(self).wf(),
            forall|c: RateLimitCategory|
                c != category_of(method@) ==> #[trigger] final(self).pool(c) == old(self).pool(c),
            ({
                let c = category_of(method@);
                let p = old(self).pool(c);
                exists|elapsed: int|
                    0 <= elapsed <= u64::MAX && #[trigger] consumed_after(
                        p.credits(),
                        p.max(),
                        p.rate(),
                        elapsed,
                        c.cost_credits() as int,
                        wait,
                        final(self).pool(c).credits(),
                    )
            }),
            final(self).pool(category_of(method@)).max() == old(self).pool(
                category_of(method@),
            ).max(),
            final(self).pool(category_of(method@)).rate() == old(self).pool(
                category_of(method@),
            ).rate(),
    {
        let category = Self::categorize(method);
        let cost = category.cost();
        proof {
            assert(self.pool(category).wf());
        }
        let ghost p0 = self.pool(category);
        let w = match category {
            RateLimitCategory::NonMatching => self.non_matching.try_consume(cost),
            RateLimitCategory::Subscribe => self.subscribe.try_consume(cost),
            RateLimitCategory::GetInstruments => self.get_instruments.try_consume(cost),
        };
        proof {
            assert forall|c: RateLimitCategory| #![trigger self.pool(c)]
                self.pool(c).wf() && c.cost_credits() * NANO_PER_CREDIT <= self.pool(c).max() by {
                assert(old(self).pool(c).wf());
            }
            let e = choose|e: int|
                0 <= e <= u64::MAX && #[trigger] consumed_after(
                    p0.credits(),
                    p0.max(),
                    p0.rate(),
                    e,
                    cost as int,
                    w,
                    self.pool(category).credits(),
                );
            assert(consumed_after(
                p0.credits(),
                p0.max(),
                p0.rate(),
                e,
                cost as int,
                w,
                self.pool(category).credits(),
            ));
        }
        w
    }

    /// Second step, after the wait that `begin_acquire` returned: refills
    /// the method's pool and charges the cost unconditionally.
    pub fn finish_acquire(&mut self, method: &str)
        requires
            old(self).wf(),
        ensures
            final(self).wf(),
            forall|c: RateLimitCategory|
                c != category_of(method@) ==> #[trigger] final(self).pool(c) == old(self).pool(c),
            ({
                let c = category_of(method@);
                let p = old(self).pool(c);
                exists|elapsed: int|
                    0 <= elapsed <= u64::MAX && final(self).pool(c).credits() == charged(
                        #[trigger] refilled(p.credits(), p.max(), p.rate(), elapsed),
                        c.cost_credits() * NANO_PER_CREDIT,
                    )
            }),
            final(self).pool(category_of(method@)).max() == old(self).pool(
                category_of(method@),
            ).max(),
            final(self).pool(category_of(method@)).rate() == old(self).pool(
                category_of(method@),
            ).rate(),
    {
        let category = Self::categorize(method);
        let cost = category.cost();
        proof {
            assert(self.pool(category).wf());
        }
        match category {
            RateLimitCategory::NonMatching => {
                self.non_matching.refill();
                self.non_matching.charge(cost);
            },
            RateLimitCategory::Subscribe => {
                self.subscribe.refill();
                self.subscribe.charge(cost);
            },
            RateLimitCategory::GetInstruments => {
                self.get_instruments.refill();
                self.get_instruments.charge(cost);
            },
        }
        proof {
            assert forall|c: RateLimitCategory| #![trigger self.pool(c)]
                self.pool(c).wf() && c.cost_credits() * NANO_PER_CREDIT <= self.pool(c).max() by {
                assert(old(self).pool(c).wf());
            }
        }
    }
}

} // verus!
