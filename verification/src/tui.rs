//! Decisions of the terminal dashboard: which opportunities a tab lists,
//! how keys move the selection and switch views, and how long text is cut.
use vstd::prelude::*;
use vstd::string::*;
use vstd::multiset::Multiset;
use crate::text::{join_strings, joined, sort_strings, sorted_lex, sorted_permutations_are_equal, str_equals, views};

verus! {

/// Screen shown.
#[derive(Debug, Clone, Copy, PartialEq, Eq, Structural)]
pub enum Screen {
    List,
    Detail,
}

/// Which opportunities the list shows: one tab per strategy family.
#[derive(Debug, Clone, Copy, PartialEq, Eq, Structural)]
pub enum Filter {
    All,
    Arbitrage,
    Signal,
    /// Put-call parity.
    Pcp,
    /// Box spreads, vertical and butterfly arbitrage.
    Spread,
    /// Conversions and reversals.
    Conv,
    /// Calendar arbitrage and calendar spreads.
    Calendar,
    /// Volatility-surface anomalies and butterfly spreads.
    Vol,
    /// Combined portfolios.
    Portfolio,
}

/// Order of the list.
#[derive(Debug, Clone, Copy, PartialEq, Eq, Structural)]
pub enum SortBy {
    /// Largest expected profit first.
    Profit,
    /// Newest first.
    Time,
    /// Largest annualised yield first.
    Apy,
}

/// A key press, as far as the dashboard tells keys apart.
#[derive(Debug, Clone, Copy, PartialEq, Eq, Structural)]
pub enum Key {
    Char(char),
    Up,
    Down,
    Enter,
    Esc,
    Backspace,
    /// Control-C.
    Interrupt,
    Other,
}

/// What the caller does after a key was handled.
#[derive(Debug, Clone, Copy, PartialEq, Eq, Structural)]
pub enum KeyEffect {
    /// Nothing more.
    Done,
    /// Recompute the filtered list.
    Refilter,
    /// Recompute the filtered list, then `reselect` with its length.
    RefilterAndReselect,
}

/// The strategies of risk-free (structural) arbitrage.
pub open spec fn is_arb_strategy(s: Seq<char>) -> bool {
    ||| s == "put_call_parity"@
    ||| s == "box_spread"@
    ||| s == "conversion"@
    ||| s == "reversal"@
    ||| s == "vertical_arb"@
    ||| s == "butterfly_arb"@
    ||| s == "calendar_arb"@
}

/// Whether a strategy is a risk-free arbitrage rather than a signal.
pub fn is_arb(strategy_type: &str) -> (r: bool)
    ensures
        r == is_arb_strategy(strategy_type@),
{
    str_equals(strategy_type, "put_call_parity") || str_equals(strategy_type, "box_spread")
        || str_equals(strategy_type, "conversion") || str_equals(strategy_type, "reversal")
        || str_equals(strategy_type, "vertical_arb") || str_equals(strategy_type, "butterfly_arb")
        || str_equals(strategy_type, "calendar_arb")
}

/// Whether a tab lists an opportunity of a strategy.
pub open spec fn filter_admits(f: Filter, strategy: Seq<char>) -> bool {
    match f {
        Filter::All => true,
        Filter::Arbitrage => is_arb_strategy(strategy),
        Filter::Signal => !is_arb_strategy(strategy),
        Filter::Pcp => strategy == "put_call_parity"@,
        Filter::Spread => strategy == "box_spread"@ || strategy == "vertical_arb"@ || strategy
            == "butterfly_arb"@,
        Filter::Conv => strategy == "conversion"@ || strategy == "reversal"@,
        Filter::Calendar => strategy == "calendar_arb"@ || strategy == "calendar_spread"@,
        Filter::Vol => strategy == "vol_surface_anomaly"@ || strategy == "butterfly_spread"@,
        Filter::Portfolio => strategy == "portfolio"@,
    }
}

/// Whether the tab `filter` lists an opportunity of strategy `strategy_type`.
pub fn admits(filter: Filter, strategy_type: &str) -> (r: bool)
    ensures
        r == filter_admits(filter, strategy_type@),
{
    match filter {
        Filter::All => true,
        Filter::Arbitrage => is_arb(strategy_type),
        Filter::Signal => !is_arb(strategy_type),
        Filter::Pcp => str_equals(strategy_type, "put_call_parity"),
        Filter::Spread => str_equals(strategy_type, "box_spread") || str_equals(
            strategy_type,
            "vertical_arb",
        ) || str_equals(strategy_type, "butterfly_arb"),
        Filter::Conv => str_equals(strategy_type, "conversion") || str_equals(
            strategy_type,
            "reversal",
        ),
        Filter::Calendar => str_equals(strategy_type, "calendar_arb") || str_equals(
            strategy_type,
            "calendar_spread",
        ),
        Filter::Vol => str_equals(strategy_type, "vol_surface_anomaly") || str_equals(
            strategy_type,
            "butterfly_spread",
        ),
        Filter::Portfolio => str_equals(strategy_type, "portfolio"),
    }
}

/// What each tab lists, for every strategy: all tabs list everything; the
/// arbitrage tab lists exactly the seven risk-free strategies and the signal
/// tab exactly the others; each strategy-family tab lists exactly its own
/// strategies.
pub proof fn tabs_list_their_strategies(s: Seq<char>)
    ensures
        filter_admits(Filter::All, s),
        filter_admits(Filter::Arbitrage, s) <==> (s == "put_call_parity"@ || s == "box_spread"@
            || s == "conversion"@ || s == "reversal"@ || s == "vertical_arb"@ || s
            == "butterfly_arb"@ || s == "calendar_arb"@),
        filter_admits(Filter::Signal, s) <==> !filter_admits(Filter::Arbitrage, s),
        filter_admits(Filter::Pcp, s) <==> s == "put_call_parity"@,
        filter_admits(Filter::Spread, s) <==> (s == "box_spread"@ || s == "vertical_arb"@ || s
            == "butterfly_arb"@),
        filter_admits(Filter::Conv, s) <==> (s == "conversion"@ || s == "reversal"@),
        filter_admits(Filter::Calendar, s) <==> (s == "calendar_arb"@ || s == "calendar_spread"@),
        filter_admits(Filter::Vol, s) <==> (s == "vol_surface_anomaly"@ || s
            == "butterfly_spread"@),
        filter_admits(Filter::Portfolio, s) <==> s == "portfolio"@,
{
}

/// The strategy-family tabs, from parity to portfolio.
pub open spec fn is_family_tab(f: Filter) -> bool {
    !(f == Filter::All || f == Filter::Arbitrage || f == Filter::Signal)
}

/// No strategy is listed under two strategy-family tabs.
pub proof fn family_tabs_are_disjoint(f: Filter, g: Filter, s: Seq<char>)
    requires
        is_family_tab(f),
        is_family_tab(g),
        f != g,
        filter_admits(f, s),
    ensures
        !filter_admits(g, s),
{
    reveal_strlit("put_call_parity");
    reveal_strlit("box_spread");
    reveal_strlit("vertical_arb");
    reveal_strlit("butterfly_arb");
    reveal_strlit("conversion");
    reveal_strlit("reversal");
    reveal_strlit("calendar_arb");
    reveal_strlit("calendar_spread");
    reveal_strlit("vol_surface_anomaly");
    reveal_strlit("butterfly_spread");
    reveal_strlit("portfolio");
    assert("put_call_parity"@.len() == 15);
    assert("box_spread"@.len() == 10);
    assert("vertical_arb"@.len() == 12);
    assert("butterfly_arb"@.len() == 13);
    assert("conversion"@.len() == 10);
    assert("reversal"@.len() == 8);
    assert("calendar_arb"@.len() == 12);
    assert("calendar_spread"@.len() == 15);
    assert("vol_surface_anomaly"@.len() == 19);
    assert("butterfly_spread"@.len() == 16);
    assert("portfolio"@.len() == 9);
    assert("put_call_parity"@[0] != "calendar_spread"@[0]);
    assert("box_spread"@[0] != "conversion"@[0]);
    assert("vertical_arb"@[0] != "calendar_arb"@[0]);
    assert("put_call_parity"@ != "calendar_spread"@);
    assert("box_spread"@ != "conversion"@);
    assert("vertical_arb"@ != "calendar_arb"@);
}

/// The indices, in increasing order, of the strategies that the tab lists.
pub fn filter_indices(strategies: &[String], filter: Filter) -> (r: Vec<usize>)
    ensures
        forall|k: int, l: int| 0 <= k < l < r@.len() ==> r@[k] < r@[l],
        forall|k: int| 0 <= k < r@.len() ==> #[trigger] r@[k] < strategies@.len(),
        forall|i: int|
            0 <= i < strategies@.len() ==> (r@.contains(i as usize) <==> filter_admits(
                filter,
                #[trigger] strategies@[i]@,
            )),
{
    let mut r: Vec<usize> = Vec::new();
    let mut i: usize = 0;
    while i < strategies.len()
        invariant
            i <= strategies@.len(),
            forall|k: int, l: int| 0 <= k < l < r@.len() ==> r@[k] < r@[l],
            forall|k: int| 0 <= k < r@.len() ==> #[trigger] r@[k] < i,
            forall|j: int|
                0 <= j < i ==> (r@.contains(j as usize) <==> filter_admits(
                    filter,
                    #[trigger] strategies@[j]@,
                )),
        decreases strategies@.len() - i,
    {
        let admitted = admits(filter, strategies[i].as_str());
        let ghost before = r@;
        if admitted {
            r.push(i);
        }
        assert forall|j: int|
            0 <= j < i + 1 implies (r@.contains(j as usize) <==> filter_admits(
                filter,
                #[trigger] strategies@[j]@,
            )) by {
            if j < i {
                if r@.contains(j as usize) {
                    let k = choose|k: int| 0 <= k < r@.len() && r@[k] == j as usize;
                    if k < before.len() {
                        assert(before[k] == j as usize);
                    }
                }
                if before.contains(j as usize) {
                    let k = choose|k: int| 0 <= k < before.len() && before[k] == j as usize;
                    assert(r@[k] == j as usize);
                }
            } else {
                if admitted {
                    assert(r@[before.len() as int] == i);
                } else {
                    if r@.contains(i) {
                        let k = choose|k: int| 0 <= k < r@.len() && r@[k] == i;
                        assert(before[k] < i);
                    }
                }
            }
        }
        i += 1;
    }
    r
}

/// `s` cut to at most `max` characters: when longer, its first `max - 1`
/// characters followed by an ellipsis.
pub open spec fn truncated(s: Seq<char>, max: int) -> Seq<char> {
    if s.len() > max {
        s.take(max - 1).push('\u{2026}')
    } else {
        s
    }
}

/// `s` cut to at most `max` characters, an ellipsis marking the cut.
pub fn truncate(s: &str, max: usize) -> (r: String)
    requires
        s@.len() > max ==> max >= 1,
    ensures
        r@ == truncated(s@, max as int),
        r@.len() <= max || r@ == s@,
{
    let n = s.unicode_len();
    if n > max {
        let head = s.substring_char(0, max - 1);
        let r = String::from_str(head).concat("\u{2026}");
        proof {
            reveal_strlit("\u{2026}");
            assert(r@ =~= s@.take(max - 1).push('\u{2026}'));
        }
        r
    } else {
        String::from_str(s)
    }
}

/// Row `a` comes before row `b` when the list is ordered by time: newer
/// first, rows of equal time in the order of their index.
pub open spec fn newer_first(times: Seq<i64>, a: usize, b: usize) -> bool {
    times[a as int] > times[b as int] || (times[a as int] == times[b as int] && a < b)
}

/// The indices `indices` ordered newest first by `times`, indices of equal
/// time keeping their increasing order.
pub fn order_by_time(indices: &[usize], times: &[i64]) -> (r: Vec<usize>)
    requires
        forall|k: int, l: int| 0 <= k < l < indices@.len() ==> indices@[k] < indices@[l],
        forall|k: int| 0 <= k < indices@.len() ==> #[trigger] indices@[k] < times@.len(),
    ensures
        r@.len() == indices@.len(),
        forall|x: usize| r@.contains(x) <==> indices@.contains(x),
        forall|k: int, l: int| 0 <= k < l < r@.len() ==> newer_first(times@, r@[k], r@[l]),
{
    let mut r: Vec<usize> = Vec::new();
    let mut i: usize = 0;
    while i < indices.len()
        invariant
            i <= indices@.len(),
            forall|k: int, l: int| 0 <= k < l < indices@.len() ==> indices@[k] < indices@[l],
            forall|k: int| 0 <= k < indices@.len() ==> #[trigger] indices@[k] < times@.len(),
            r@.len() == i,
            forall|x: usize| r@.contains(x) <==> indices@.take(i as int).contains(x),
            forall|k: int, l: int| 0 <= k < l < r@.len() ==> newer_first(times@, r@[k], r@[l]),
            forall|k: int| 0 <= k < r@.len() ==> #[trigger] r@[k] < times@.len(),
        decreases indices@.len() - i,
    {
        let x = indices[i];
        let t = times[x];
        let mut p: usize = 0;
        while p < r.len() && times[r[p]] >= t
            invariant
                p <= r@.len(),
                x < times@.len(),
                t == times@[x as int],
                forall|k: int| 0 <= k < r@.len() ==> #[trigger] r@[k] < times@.len(),
                forall|q: int| 0 <= q < p ==> times@[r@[q] as int] >= t,
            decreases r@.len() - p,
        {
            p += 1;
        }
        let ghost before = r@;
        proof {
            assert forall|q: int| 0 <= q < before.len() implies before[q] < x by {
                assert(before.contains(before[q]));
                assert(indices@.take(i as int).contains(before[q]));
                let k = choose|k: int| 0 <= k < i && indices@.take(i as int)[k] == before[q];
                assert(indices@[k] == before[q]);
            }
        }
        r.insert(p, x);
        proof {
            before.insert_ensures(p as int, x);
            assert(indices@.take(i + 1) =~= indices@.take(i as int).push(x));
            assert forall|k: int, l: int| 0 <= k < l < r@.len() implies newer_first(
                times@,
                r@[k],
                r@[l],
            ) by {
                if l < p {
                } else if k < p && l == p {
                    assert(before[k] < x);
                } else if k < p {
                    assert(r@[l] == before[l - 1]);
                } else if k == p {
                    assert(r@[l] == before[l - 1]);
                    assert(newer_first(times@, before[p as int], before[l - 1]) || l - 1 == p);
                } else {
                    assert(r@[k] == before[k - 1]);
                    assert(r@[l] == before[l - 1]);
                }
            }
            assert forall|y: usize| r@.contains(y) <==> indices@.take(i + 1).contains(y) by {
                crate::market::instruments::lemma_push_contains(indices@.take(i as int), x, y);
                if r@.contains(y) {
                    let k = choose|k: int| 0 <= k < r@.len() && r@[k] == y;
                    if k < p {
                        assert(before[k] == y);
                    } else if k > p {
                        assert(before[k - 1] == y);
                    }
                }
                if before.contains(y) {
                    let k = choose|k: int| 0 <= k < before.len() && before[k] == y;
                    if k < p {
                        assert(r@[k] == y);
                    } else {
                        assert(r@[k + 1] == y);
                    }
                }
                if y == x {
                    assert(r@[p as int] == x);
                }
            }
        }
        i += 1;
    }
    assert(indices@.take(indices@.len() as int) =~= indices@);
    r
}

/// The strings of a multiset, in increasing order.
pub open spec fn sorted_names(m: Multiset<Seq<char>>) -> Seq<Seq<char>> {
    choose|t: Seq<Seq<char>>| sorted_lex(t) && t.to_multiset() == m
}

/// The key under which an opportunity is listed once: its strategy, a
/// colon, and its instruments in increasing order separated by commas.
pub open spec fn opportunity_key_of(strategy: Seq<char>, instruments: Seq<String>) -> Seq<char> {
    strategy + ":"@ + joined(sorted_names(views(instruments).to_multiset()), ","@)
}

/// The key under which an opportunity is listed once.
pub fn opportunity_key(strategy_type: &str, instruments: &[String]) -> (k: String)
    ensures
        k@ == opportunity_key_of(strategy_type@, instruments@),
{
    let sorted = sort_strings(instruments);
    proof {
        let m = views(instruments@).to_multiset();
        assert(sorted_lex(views(sorted@)) && views(sorted@).to_multiset() == m);
        let t = sorted_names(m);
        sorted_permutations_are_equal(t, views(sorted@));
    }
    let names = join_strings(sorted.as_slice(), ",");
    String::from_str(strategy_type).concat(":").concat(names.as_str())
}

/// An opportunity found again with its instruments in another order is
/// listed under the same key, so it replaces the earlier entry.
pub proof fn key_ignores_instrument_order(strategy: Seq<char>, a: Seq<String>, b: Seq<String>)
    requires
        views(a).to_multiset() == views(b).to_multiset(),
    ensures
        opportunity_key_of(strategy, a) == opportunity_key_of(strategy, b),
{
}

/// Opportunities of different strategies never share a key.
pub proof fn key_separates_strategies(s1: Seq<char>, s2: Seq<char>, a: Seq<String>, b: Seq<String>)
    requires
        opportunity_key_of(s1, a) == opportunity_key_of(s2, b),
        !s1.contains(':'),
        !s2.contains(':'),
    ensures
        s1 == s2,
{
    reveal_strlit(":");
    let k = opportunity_key_of(s1, a);
    if s1.len() < s2.len() {
        assert(k[s1.len() as int] == ':');
        assert(s2[s1.len() as int] == k[s1.len() as int]);
        assert(s2.contains(':'));
    } else if s2.len() < s1.len() {
        assert(k[s2.len() as int] == ':');
        assert(s1[s2.len() as int] == k[s2.len() as int]);
        assert(s1.contains(':'));
    } else {
        assert forall|i: int| 0 <= i < s1.len() implies s1[i] == s2[i] by {
            assert(k[i] == s1[i]);
        }
        assert(s1 =~= s2);
    }
}

/// The tab that a digit key switches to: `1` to `9` in the order of the tabs.
pub open spec fn key_filter(key: Key) -> Option<Filter> {
    match key {
        Key::Char('1') => Some(Filter::All),
        Key::Char('2') => Some(Filter::Arbitrage),
        Key::Char('3') => Some(Filter::Signal),
        Key::Char('4') => Some(Filter::Pcp),
        Key::Char('5') => Some(Filter::Spread),
        Key::Char('6') => Some(Filter::Conv),
        Key::Char('7') => Some(Filter::Calendar),
        Key::Char('8') => Some(Filter::Vol),
        Key::Char('9') => Some(Filter::Portfolio),
        _ => None,
    }
}

/// The order that follows `s` in the cycle profit, time, yield.
pub open spec fn next_sort(s: SortBy) -> SortBy {
    match s {
        SortBy::Profit => SortBy::Time,
        SortBy::Time => SortBy::Apy,
        SortBy::Apy => SortBy::Profit,
    }
}

/// The leverage presets, in the order the `l` key cycles through them.
pub open spec fn is_leverage_preset(l: u32) -> bool {
    l == 1 || l == 2 || l == 5 || l == 10
}

/// The leverage that follows `l` in the cycle 1x, 2x, 5x, 10x; a leverage
/// outside the presets starts the cycle again at 1x.
pub open spec fn next_leverage(l: u32) -> u32 {
    if l == 1 {
        2
    } else if l == 2 {
        5
    } else if l == 5 {
        10
    } else {
        1
    }
}

/// What is left to do after `key` was pressed on `view`: the digit keys
/// recompute the list and select its first row, `s` and `l` recompute the
/// list, and every other key leaves the list as it is.
pub open spec fn key_effect(view: Screen, key: Key) -> KeyEffect {
    if view == Screen::List && key_filter(key) is Some {
        KeyEffect::RefilterAndReselect
    } else if view == Screen::List && (key == Key::Char('s') || key == Key::Char('l')) {
        KeyEffect::Refilter
    } else {
        KeyEffect::Done
    }
}

/// The `s` key goes from profit to time, from time to yield and from yield
/// back to profit; the digits `1` to `9` select the tabs in the order all,
/// arbitrage, signal, parity, spread, conversion, calendar, volatility,
/// portfolio, and no other key selects a tab.
pub proof fn key_bindings(key: Key)
    ensures
        next_sort(SortBy::Profit) == SortBy::Time,
        next_sort(SortBy::Time) == SortBy::Apy,
        next_sort(SortBy::Apy) == SortBy::Profit,
        key_filter(Key::Char('1')) == Some(Filter::All),
        key_filter(Key::Char('2')) == Some(Filter::Arbitrage),
        key_filter(Key::Char('3')) == Some(Filter::Signal),
        key_filter(Key::Char('4')) == Some(Filter::Pcp),
        key_filter(Key::Char('5')) == Some(Filter::Spread),
        key_filter(Key::Char('6')) == Some(Filter::Conv),
        key_filter(Key::Char('7')) == Some(Filter::Calendar),
        key_filter(Key::Char('8')) == Some(Filter::Vol),
        key_filter(Key::Char('9')) == Some(Filter::Portfolio),
        !(key matches Key::Char(c) && '1' <= c <= '9') ==> key_filter(key) is None,
{
}

/// The `l` key goes from 1x to 2x, 5x, 10x and back to 1x, and from any
/// other leverage to 1x.
pub proof fn leverage_presets(l: u32)
    ensures
        next_leverage(1) == 2,
        next_leverage(2) == 5,
        next_leverage(5) == 10,
        next_leverage(10) == 1,
        !is_leverage_preset(l) ==> next_leverage(l) == 1,
{
}

/// In the list, a digit key recomputes the list and selects its first row,
/// `s` and `l` recompute the list, and every other key leaves it alone; in
/// the detail view no key touches the list.
pub proof fn key_effects(key: Key)
    ensures
        key_effect(Screen::Detail, key) == KeyEffect::Done,
        key matches Key::Char(c) && '1' <= c <= '9' ==> key_effect(Screen::List, key)
            == KeyEffect::RefilterAndReselect,
        key == Key::Char('s') || key == Key::Char('l') ==> key_effect(Screen::List, key)
            == KeyEffect::Refilter,
        !(key matches Key::Char(c) && ('1' <= c <= '9' || c == 's' || c == 'l')) ==> key_effect(
            Screen::List,
            key,
        ) == KeyEffect::Done,
{
}

/// A cut string keeps at most `max` characters: its first `max - 1`
/// characters followed by an ellipsis; a string that fits is kept whole.
pub proof fn truncation(s: Seq<char>, max: int)
    requires
        max >= 1,
    ensures
        s.len() <= max ==> truncated(s, max) == s,
        s.len() > max ==> {
            &&& truncated(s, max).len() == max
            &&& truncated(s, max).take(max - 1) == s.take(max - 1)
            &&& truncated(s, max)[max - 1] == '\u{2026}'
        },
{
    if s.len() > max {
        assert(truncated(s, max).take(max - 1) =~= s.take(max - 1));
    }
}

/// Pressing `s` three times brings the list back to the order it had.
pub proof fn sort_cycle_returns(s: SortBy)
    ensures
        next_sort(next_sort(next_sort(s))) == s,
{
}

/// Pressing `l` four times brings a preset leverage back to itself, and
/// every press lands on a preset.
pub proof fn leverage_cycle_returns(l: u32)
    ensures
        is_leverage_preset(next_leverage(l)),
        is_leverage_preset(l) ==> next_leverage(next_leverage(next_leverage(next_leverage(l))))
            == l,
{
}

/// No key occurs twice.
pub open spec fn distinct_keys(keys: Seq<Seq<char>>) -> bool {
    forall|i: int, j: int| 0 <= i < j < keys.len() ==> keys[i] != keys[j]
}

/// Where an opportunity goes in the list.
#[derive(Debug, Clone, Copy, PartialEq, Eq, Structural)]
pub enum Slot {
    /// It replaces the row listed under the same key.
    Existing(usize),
    /// It is appended as a new row.
    Added(usize),
}

impl Slot {
    /// The row the opportunity goes to.
    pub open spec fn row(self) -> usize {
        match self {
            Slot::Existing(r) => r,
            Slot::Added(r) => r,
        }
    }
}

/// The slot of `key` among the keys of the listed rows: the row already
/// listed under it, or a new row at the end.
pub open spec fn slot_of(keys: Seq<Seq<char>>, key: Seq<char>) -> Slot {
    if keys.contains(key) {
        Slot::Existing(keys.index_of(key) as usize)
    } else {
        Slot::Added(keys.len() as usize)
    }
}

/// The keys of the rows after an opportunity listed under `key` arrived.
pub open spec fn keys_after(keys: Seq<Seq<char>>, key: Seq<char>) -> Seq<Seq<char>> {
    if keys.contains(key) {
        keys
    } else {
        keys.push(key)
    }
}

/// An opportunity that arrives again under the same key goes to the row it
/// was first given, and the keys stay distinct.
pub proof fn key_found_again(keys: Seq<Seq<char>>, key: Seq<char>)
    requires
        distinct_keys(keys),
    ensures
        distinct_keys(keys_after(keys, key)),
        slot_of(keys_after(keys, key), key) == Slot::Existing(slot_of(keys, key).row()),
        keys_after(keys_after(keys, key), key) == keys_after(keys, key),
{
    let after = keys_after(keys, key);
    if keys.contains(key) {
        let i = keys.index_of(key);
        assert(keys[i] == key);
    } else {
        assert(after[keys.len() as int] == key);
        assert(after.contains(key));
        let i = after.index_of(key);
        assert(after[i] == key);
        if i < keys.len() {
            assert(keys[i] == key);
        }
    }
}

/// The keys of the listed rows, one per row, in the order the rows were
/// first added.
pub struct KeyIndex {
    keys: Vec<String>,
}

impl KeyIndex {
    /// The keys, row by row.
    pub closed spec fn keys(&self) -> Seq<Seq<char>> {
        views(self.keys@)
    }

    /// No key occurs twice.
    #[verifier::type_invariant]
    spec fn keys_are_distinct(&self) -> bool {
        distinct_keys(views(self.keys@))
    }

    /// No row yet.
    pub fn new() -> (r: Self)
        ensures
            r.keys() == Seq::<Seq<char>>::empty(),
    {
        let r = KeyIndex { keys: Vec::new() };
        assert(views(r.keys@) =~= Seq::<Seq<char>>::empty());
        r
    }

    /// Number of rows.
    pub fn len(&self) -> (n: usize)
        ensures
            n == self.keys().len(),
    {
        self.keys.len()
    }

    /// The slot of an opportunity listed under `key`; a new key is recorded
    /// as the key of the appended row.
    pub fn slot_for(&mut self, key: String) -> (r: Slot)
        ensures
            r == slot_of(old(self).keys(), key@),
            final(self).keys() == keys_after(old(self).keys(), key@),
            distinct_keys(final(self).keys()),
    {
        proof {
            use_type_invariant(&*self);
        }
        let ghost ks = self.keys();
        let mut i: usize = 0;
        while i < self.keys.len()
            invariant
                ks == views(self.keys@),
                i <= self.keys@.len(),
                distinct_keys(ks),
                forall|j: int| 0 <= j < i ==> ks[j] != key@,
            decreases self.keys@.len() - i,
        {
            if str_equals(self.keys[i].as_str(), key.as_str()) {
                proof {
                    assert(ks[i as int] == key@);
                    assert(ks.contains(key@));
                    let k = ks.index_of(key@);
                    assert(ks[k] == key@);
                }
                return Slot::Existing(i);
            }
            i += 1;
        }
        let n = self.keys.len();
        let mut keys: Vec<String> = Vec::new();
        std::mem::swap(&mut keys, &mut self.keys);
        keys.push(key);
        proof {
            assert(views(keys@) =~= ks.push(key@));
            assert(!ks.contains(key@));
        }
        self.keys = keys;
        Slot::Added(n)
    }
}

/// Navigation state of the dashboard.
pub struct Navigation {
    pub view: Screen,
    pub filter: Filter,
    pub sort_by: SortBy,
    /// Leverage applied to the cost of an opportunity when its yield is
    /// computed.
    pub leverage: u32,
    /// Row selected in the filtered list.
    pub selected: Option<usize>,
    pub should_quit: bool,
}

/// The selection is a row of a list of `len` rows, or nothing.
pub open spec fn selection_in_range(selected: Option<usize>, len: int) -> bool {
    match selected {
        Some(s) => s < len,
        None => true,
    }
}

/// The selection after the list was recomputed: the first row, or nothing
/// when the list is empty.
pub open spec fn first_row(len: int) -> Option<usize> {
    if len == 0 {
        None
    } else {
        Some(0)
    }
}

impl Navigation {
    /// The list of all opportunities by profit, nothing selected.
    pub fn new() -> (n: Self)
        ensures
            n.view == Screen::List,
            n.filter == Filter::All,
            n.sort_by == SortBy::Profit,
            n.leverage == 1,
            n.selected is None,
            !n.should_quit,
    {
        Navigation {
            view: Screen::List,
            filter: Filter::All,
            sort_by: SortBy::Profit,
            leverage: 1,
            selected: None,
            should_quit: false,
        }
    }

    /// Selects the first row of the recomputed list of `len` rows.
    pub fn reselect(&mut self, len: usize)
        ensures
            final(self).selected == first_row(len as int),
            final(self).view == old(self).view,
            final(self).filter == old(self).filter,
            final(self).sort_by == old(self).sort_by,
            final(self).leverage == old(self).leverage,
            final(self).should_quit == old(self).should_quit,
    {
        self.selected = if len == 0 {
            None
        } else {
            Some(0)
        };
    }

    /// After an opportunity was added to a list now `len` rows long: selects
    /// the first row when nothing was selected and the list is not empty.
    pub fn on_added(&mut self, len: usize)
        ensures
            final(self).selected == (if old(self).selected is None && len > 0 {
                Some(0usize)
            } else {
                old(self).selected
            }),
            final(self).view == old(self).view,
            final(self).filter == old(self).filter,
            final(self).sort_by == old(self).sort_by,
            final(self).leverage == old(self).leverage,
            final(self).should_quit == old(self).should_quit,
    {
        if self.selected.is_none() && len > 0 {
            self.selected = Some(0);
        }
    }

    /// Handles a key while the filtered list has `len` rows.
    ///
    /// Control-C quits anywhere. In the list: `q` quits; up or `k` and down
    /// or `j` move the selection within the list; enter opens the detail of
    /// a selected row; `1` to `9` switch tabs; `s` cycles the order through
    /// profit, time and yield; `l` cycles the leverage through 1x, 2x, 5x
    /// and 10x. In the detail: escape or backspace return to the list, `q`
    /// quits.
    pub fn handle_key(&mut self, key: Key, len: usize) -> (effect: KeyEffect)
        ensures
            effect == key_effect(old(self).view, key),
            key == Key::Interrupt ==> final(self).should_quit,
            key != Key::Interrupt ==> final(self).should_quit == (old(self).should_quit || (key
                == Key::Char('q'))),
            final(self).filter == (if old(self).view == Screen::List && key_filter(key) is Some {
                key_filter(key)->0
            } else {
                old(self).filter
            }),
            final(self).sort_by == (if old(self).view == Screen::List && key == Key::Char('s') {
                next_sort(old(self).sort_by)
            } else {
                old(self).sort_by
            }),
            final(self).leverage == (if old(self).view == Screen::List && key == Key::Char('l') {
                next_leverage(old(self).leverage)
            } else {
                old(self).leverage
            }),
            (key == Key::Up || key == Key::Char('k')) && old(self).view == Screen::List
                ==> final(self).selected == (match old(self).selected {
                Some(s) if s > 0 => Some((s - 1) as usize),
                _ => old(self).selected,
            }),
            (key == Key::Down || key == Key::Char('j')) && old(self).view == Screen::List
                ==> final(self).selected == ({
                let s = match old(self).selected {
                    Some(s) => s as int,
                    None => 0,
                };
                if s < len - 1 {
                    Some((s + 1) as usize)
                } else {
                    old(self).selected
                }
            }),
            !(old(self).view == Screen::List && (key == Key::Up || key == Key::Char('k') || key
                == Key::Down || key == Key::Char('j'))) ==> final(self).selected == old(
                self,
            ).selected,
            final(self).view == (if old(self).view == Screen::List && key == Key::Enter
                && old(self).selected is Some && len > 0 {
                Screen::Detail
            } else if old(self).view == Screen::Detail && (key == Key::Esc || key == Key::Backspace) {
                Screen::List
            } else {
                old(self).view
            }),
            selection_in_range(old(self).selected, len as int) ==> selection_in_range(
                final(self).selected,
                len as int,
            ),
    {
        if key == Key::Interrupt {
            self.should_quit = true;
            return KeyEffect::Done;
        }
        match self.view {
            Screen::List => match key {
                Key::Char('q') => {
                    self.should_quit = true;
                    KeyEffect::Done
                },
                Key::Up | Key::Char('k') => {
                    let selected = match self.selected {
                        Some(s) => s,
                        None => 0,
                    };
                    if selected > 0 {
                        self.selected = Some(selected - 1);
                    }
                    KeyEffect::Done
                },
                Key::Down | Key::Char('j') => {
                    let selected = match self.selected {
                        Some(s) => s,
                        None => 0,
                    };
                    if selected < len.saturating_sub(1) {
                        self.selected = Some(selected + 1);
                    }
                    KeyEffect::Done
                },
                Key::Enter => {
                    if self.selected.is_some() && len > 0 {
                        self.view = Screen::Detail;
                    }
                    KeyEffect::Done
                },
                Key::Char('1') => self.switch_tab(Filter::All),
                Key::Char('2') => self.switch_tab(Filter::Arbitrage),
                Key::Char('3') => self.switch_tab(Filter::Signal),
                Key::Char('4') => self.switch_tab(Filter::Pcp),
                Key::Char('5') => self.switch_tab(Filter::Spread),
                Key::Char('6') => self.switch_tab(Filter::Conv),
                Key::Char('7') => self.switch_tab(Filter::Calendar),
                Key::Char('8') => self.switch_tab(Filter::Vol),
                Key::Char('9') => self.switch_tab(Filter::Portfolio),
                Key::Char('s') => {
                    self.sort_by = match self.sort_by {
                        SortBy::Profit => SortBy::Time,
                        SortBy::Time => SortBy::Apy,
                        SortBy::Apy => SortBy::Profit,
                    };
                    KeyEffect::Refilter
                },
                Key::Char('l') => {
                    self.leverage = if self.leverage == 1 {
                        2
                    } else if self.leverage == 2 {
                        5
                    } else if self.leverage == 5 {
                        10
                    } else {
                        1
                    };
                    KeyEffect::Refilter
                },
                _ => KeyEffect::Done,
            },
            Screen::Detail => match key {
                Key::Esc | Key::Backspace => {
                    self.view = Screen::List;
                    KeyEffect::Done
                },
                Key::Char('q') => {
                    self.should_quit = true;
                    KeyEffect::Done
                },
                _ => KeyEffect::Done,
            },
        }
    }

    /// Switches the list to the tab `filter`.
    fn switch_tab(&mut self, filter: Filter) -> (effect: KeyEffect)
        ensures
            effect == KeyEffect::RefilterAndReselect,
            *final(self) == (Navigation { filter, ..*old(self) }),
    {
        self.filter = filter;
        KeyEffect::RefilterAndReselect
    }
}

} // verus!
