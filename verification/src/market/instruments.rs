//! Option instruments: their type and the sets of expirations and strikes.
use vstd::prelude::*;
use vstd::string::*;
use crate::text::str_equals;

verus! {

/// Call or put.
#[derive(Debug, Clone, Copy, PartialEq, Eq, Hash, Structural)]
pub enum OptionType {
    Call,
    Put,
}

/// The exchange's name of an option type.
pub open spec fn option_type_name(t: OptionType) -> Seq<char> {
    match t {
        OptionType::Call => "call"@,
        OptionType::Put => "put"@,
    }
}

/// The option type that the exchange names `name`, if any.
pub open spec fn option_type_named(name: Seq<char>) -> Option<OptionType> {
    if name == "call"@ {
        Some(OptionType::Call)
    } else if name == "put"@ {
        Some(OptionType::Put)
    } else {
        None
    }
}

impl OptionType {
    /// `"call"` or `"put"`.
    pub fn to_string(&self) -> (s: String)
        ensures
            s@ == option_type_name(*self),
    {
        match self {
            OptionType::Call => String::from_str("call"),
            OptionType::Put => String::from_str("put"),
        }
    }

    /// The option type named `"call"` or `"put"`; `None` for any other name.
    pub fn from_name(name: &str) -> (t: Option<OptionType>)
        ensures
            t == option_type_named(name@),
    {
        if str_equals(name, "call") {
            Some(OptionType::Call)
        } else if str_equals(name, "put") {
            Some(OptionType::Put)
        } else {
            None
        }
    }
}

/// An element of `s.push(x)` is `x` or an element of `s`.
pub proof fn lemma_push_contains<A>(s: Seq<A>, x: A, y: A)
    ensures
        s.push(x).contains(y) == (s.contains(y) || y == x),
{
    if s.push(x).contains(y) {
        let k = choose|k: int| 0 <= k < s.push(x).len() && s.push(x)[k] == y;
        if k < s.len() {
            assert(s[k] == y);
        }
    }
    if s.contains(y) {
        let k = choose|k: int| 0 <= k < s.len() && s[k] == y;
        assert(s.push(x)[k] == y);
    }
    if y == x {
        assert(s.push(x)[s.len() as int] == x);
    }
}

/// Each element is smaller than the next.
pub open spec fn strictly_increasing_i64(s: Seq<i64>) -> bool {
    forall|i: int, j: int| 0 <= i < j < s.len() ==> s[i] < s[j]
}

/// Each element is smaller than the next.
pub open spec fn strictly_increasing_u64(s: Seq<u64>) -> bool {
    forall|i: int, j: int| 0 <= i < j < s.len() ==> s[i] < s[j]
}

/// The distinct values of `values` in increasing order: the distinct strike
/// keys of the instruments of an expiration.
pub fn unique_sorted_u64(values: &[u64]) -> (r: Vec<u64>)
    ensures
        strictly_increasing_u64(r@),
        forall|x: u64| r@.contains(x) <==> values@.contains(x),
{
    let mut r: Vec<u64> = Vec::new();
    let mut i: usize = 0;
    while i < values.len()
        invariant
            i <= values@.len(),
            strictly_increasing_u64(r@),
            forall|x: u64| r@.contains(x) <==> values@.take(i as int).contains(x),
        decreases values@.len() - i,
    {
        let x = values[i];
        let mut p: usize = 0;
        while p < r.len() && r[p] < x
            invariant
                p <= r@.len(),
                forall|q: int| 0 <= q < p ==> r@[q] < x,
            decreases r@.len() - p,
        {
            p += 1;
        }
        let ghost before = r@;
        assert(values@.take(i + 1) =~= values@.take(i as int).push(x));
        if p < r.len() && r[p] == x {
        } else {
            r.insert(p, x);
            proof {
                before.insert_ensures(p as int, x);
                assert forall|a: int, b: int| 0 <= a < b < r@.len() implies r@[a] < r@[b] by {
                    if b < p {
                    } else if a < p && b == p {
                    } else if a < p {
                        assert(r@[b] == before[b - 1]);
                        assert(before[a] < x);
                        assert(before[p as int] > x);
                    } else if a == p {
                        assert(r@[b] == before[b - 1]);
                        assert(before[p as int] > x);
                    } else {
                        assert(r@[a] == before[a - 1]);
                        assert(r@[b] == before[b - 1]);
                    }
                }
                assert forall|y: u64| r@.contains(y) <==> values@.take(i + 1).contains(y) by {
                    lemma_push_contains(values@.take(i as int), x, y);
                    if r@.contains(y) {
                        let k = choose|k: int| 0 <= k < r@.len() && r@[k] == y;
                        if k < p {
                            assert(before[k] == y);
                        } else if k > p {
                            assert(before[k - 1] == y);
                        }
                    }
                    if before.contains(y) {
                        let k = choose|k: int| 0 <= k < before.len() && before[k] == y;
                        if k < p {
                            assert(r@[k] == y);
                        } else {
                            assert(r@[k + 1] == y);
                        }
                    }
                    if y == x {
                        assert(r@[p as int] == x);
                    }
                }
            }
        }
        i += 1;
    }
    assert(values@.take(values@.len() as int) =~= values@);
    r
}

/// Distance from the least `i64` to zero: adding it maps the `i64` values
/// onto the `u64` values in the same order.
const I64_OFFSET: i128 = 0x8000_0000_0000_0000;

/// The `u64` that stands for `x` in the order-preserving map of `i64` onto
/// `u64`.
spec fn shifted(x: i64) -> u64 {
    (x + I64_OFFSET) as u64
}

/// The distinct values of `values` in increasing order: the distinct
/// expirations of a set of instruments. Each value is mapped in order onto
/// `u64`, the mapped values are sorted by `unique_sorted_u64`, and mapped back.
pub fn unique_sorted_i64(values: &[i64]) -> (r: Vec<i64>)
    ensures
        strictly_increasing_i64(r@),
        forall|x: i64| r@.contains(x) <==> values@.contains(x),
{
    let mut keys: Vec<u64> = Vec::new();
    let mut i: usize = 0;
    while i < values.len()
        invariant
            i <= values@.len(),
            keys@.len() == i,
            forall|k: int| 0 <= k < i ==> keys@[k] == #[trigger] shifted(values@[k]),
        decreases values@.len() - i,
    {
        keys.push((values[i] as i128 + I64_OFFSET) as u64);
        i += 1;
    }
    let sorted = unique_sorted_u64(keys.as_slice());
    let mut r: Vec<i64> = Vec::new();
    let mut j: usize = 0;
    while j < sorted.len()
        invariant
            j <= sorted@.len(),
            r@.len() == j,
            forall|k: int| 0 <= k < j ==> shifted(#[trigger] r@[k]) == sorted@[k],
        decreases sorted@.len() - j,
    {
        r.push((sorted[j] as i128 - I64_OFFSET) as i64);
        j += 1;
    }
    proof {
        assert forall|a: int, b: int| 0 <= a < b < r@.len() implies r@[a] < r@[b] by {
            assert(shifted(r@[a]) == sorted@[a]);
            assert(shifted(r@[b]) == sorted@[b]);
        }
        assert forall|x: i64| r@.contains(x) <==> values@.contains(x) by {
            if r@.contains(x) {
                let k = choose|k: int| 0 <= k < r@.len() && r@[k] == x;
                assert(shifted(r@[k]) == sorted@[k]);
                assert(sorted@.contains(shifted(x)));
                assert(keys@.contains(shifted(x)));
                let m = choose|m: int| 0 <= m < keys@.len() && keys@[m] == shifted(x);
                assert(keys@[m] == shifted(values@[m]));
                assert(values@[m] == x);
            }
            if values@.contains(x) {
                let m = choose|m: int| 0 <= m < values@.len() && values@[m] == x;
                assert(keys@[m] == shifted(values@[m]));
                assert(keys@.contains(shifted(x)));
                assert(sorted@.contains(shifted(x)));
                let k = choose|k: int| 0 <= k < sorted@.len() && sorted@[k] == shifted(x);
                assert(shifted(r@[k]) == sorted@[k]);
                assert(r@[k] == x);
            }
        }
    }
    r
}

/// An option listed by the exchange; its strike is kept as the bit pattern of
/// the `f64` the listing gave.
#[derive(Debug, Clone)]
pub struct Instrument {
    pub instrument_name: String,
    pub strike_bits: u64,
    pub expiration_timestamp: i64,
    pub option_type: OptionType,
    pub is_active: bool,
}

/// One row of an instrument listing, as the exchange sent it.
pub struct InstrumentRow {
    pub instrument_name: String,
    pub strike_bits: u64,
    pub expiration_timestamp: i64,
    pub option_type: String,
    pub is_active: bool,
}

/// The instrument that a row of type `t` describes.
pub open spec fn instrument_of(r: InstrumentRow, t: OptionType) -> Instrument {
    Instrument {
        instrument_name: r.instrument_name,
        strike_bits: r.strike_bits,
        expiration_timestamp: r.expiration_timestamp,
        option_type: t,
        is_active: r.is_active,
    }
}

/// The instruments, by name, that a listing loads: the active calls and puts,
/// a later row of the same name replacing an earlier one.
pub open spec fn listing(rows: Seq<InstrumentRow>) -> Map<Seq<char>, Instrument>
    decreases rows.len(),
{
    if rows.len() == 0 {
        Map::empty()
    } else {
        let m = listing(rows.drop_last());
        let r = rows.last();
        match option_type_named(r.option_type@) {
            Some(t) => if r.is_active {
                m.insert(r.instrument_name@, instrument_of(r, t))
            } else {
                m
            },
            None => m,
        }
    }
}

/// A listing row is loaded: an active call or put.
pub open spec fn row_accepted(r: InstrumentRow) -> bool {
    r.is_active && option_type_named(r.option_type@) is Some
}

/// Every instrument a listing loads is active and filed under its own name.
pub proof fn listing_holds_active_instruments(rows: Seq<InstrumentRow>)
    ensures
        forall|k: Seq<char>| #[trigger] listing(rows).contains_key(k) ==> {
            &&& listing(rows)[k].is_active
            &&& listing(rows)[k].instrument_name@ == k
        },
    decreases rows.len(),
{
    if rows.len() > 0 {
        let d = rows.drop_last();
        listing_holds_active_instruments(d);
        assert forall|k: Seq<char>| #[trigger] listing(rows).contains_key(k) implies {
            &&& listing(rows)[k].is_active
            &&& listing(rows)[k].instrument_name@ == k
        } by {
            let r = rows.last();
            if !(row_accepted(r) && k == r.instrument_name@) {
                assert(listing(d).contains_key(k));
                assert(listing(rows)[k] == listing(d)[k]);
            }
        }
    }
}

/// The last loaded row of a name is the instrument filed under it.
pub proof fn listing_last_accepted_row_wins(rows: Seq<InstrumentRow>, i: int)
    requires
        0 <= i < rows.len(),
        row_accepted(rows[i]),
        forall|j: int|
            i < j < rows.len() && (#[trigger] rows[j]).instrument_name@ == rows[i].instrument_name@
                ==> !row_accepted(rows[j]),
    ensures
        listing(rows).contains_key(rows[i].instrument_name@),
        listing(rows)[rows[i].instrument_name@] == instrument_of(
            rows[i],
            option_type_named(rows[i].option_type@)->0,
        ),
    decreases rows.len(),
{
    assert(rows.last() == rows[rows.len() - 1]);
    if i < rows.len() - 1 {
        let d = rows.drop_last();
        assert(d[i] == rows[i]);
        assert forall|j: int|
            i < j < d.len() && (#[trigger] d[j]).instrument_name@ == d[i].instrument_name@
                implies !row_accepted(d[j]) by {
            assert(d[j] == rows[j]);
        }
        listing_last_accepted_row_wins(d, i);
    }
}

/// A name that no loaded row carries is absent from the listing.
pub proof fn listing_without_accepted_row(rows: Seq<InstrumentRow>, k: Seq<char>)
    requires
        forall|j: int|
            0 <= j < rows.len() && (#[trigger] rows[j]).instrument_name@ == k ==> !row_accepted(
                rows[j],
            ),
    ensures
        !listing(rows).contains_key(k),
    decreases rows.len(),
{
    if rows.len() > 0 {
        let d = rows.drop_last();
        assert forall|j: int| 0 <= j < d.len() && (#[trigger] d[j]).instrument_name@ == k implies !row_accepted(
            d[j],
        ) by {
            assert(d[j] == rows[j]);
        }
        listing_without_accepted_row(d, k);
        assert(rows.last() == rows[rows.len() - 1]);
    }
}

/// The instruments of a sequence by name, a later one replacing an earlier.
pub open spec fn by_name(s: Seq<Instrument>) -> Map<Seq<char>, Instrument>
    decreases s.len(),
{
    if s.len() == 0 {
        Map::empty()
    } else {
        by_name(s.drop_last()).insert(s.last().instrument_name@, s.last())
    }
}

/// No two instruments share a name.
pub open spec fn distinct_names(s: Seq<Instrument>) -> bool {
    forall|i: int, j: int|
        0 <= i < j < s.len() ==> s[i].instrument_name@ != s[j].instrument_name@
}

/// With distinct names, an instrument is found under its name.
proof fn by_name_finds(s: Seq<Instrument>, i: int)
    requires
        distinct_names(s),
        0 <= i < s.len(),
    ensures
        by_name(s).contains_key(s[i].instrument_name@),
        by_name(s)[s[i].instrument_name@] == s[i],
    decreases s.len(),
{
    if i < s.len() - 1 {
        by_name_finds(s.drop_last(), i);
    }
}

/// A name that no instrument carries is absent.
proof fn by_name_misses(s: Seq<Instrument>, k: Seq<char>)
    requires
        forall|i: int| 0 <= i < s.len() ==> (#[trigger] s[i]).instrument_name@ != k,
    ensures
        !by_name(s).contains_key(k),
    decreases s.len(),
{
    if s.len() > 0 {
        let d = s.drop_last();
        assert forall|i: int| 0 <= i < d.len() implies (#[trigger] d[i]).instrument_name@ != k by {
            assert(d[i] == s[i]);
        }
        by_name_misses(d, k);
    }
}

/// Replacing an instrument by one of the same name replaces it in the map.
proof fn by_name_update(s: Seq<Instrument>, j: int, x: Instrument)
    requires
        distinct_names(s),
        0 <= j < s.len(),
        x.instrument_name@ == s[j].instrument_name@,
    ensures
        by_name(s.update(j, x)) == by_name(s).insert(x.instrument_name@, x),
    decreases s.len(),
{
    let u = s.update(j, x);
    let d = s.drop_last();
    if j == s.len() - 1 {
        assert(u.drop_last() =~= d);
        assert(by_name(u) =~= by_name(s).insert(x.instrument_name@, x));
    } else {
        assert(u.drop_last() =~= d.update(j, x));
        by_name_update(d, j, x);
        assert(s.last().instrument_name@ != x.instrument_name@);
        assert(by_name(u) =~= by_name(s).insert(x.instrument_name@, x));
    }
}

/// The instruments of a listing, by name.
pub struct InstrumentRegistry {
    instruments: Vec<Instrument>,
}

impl InstrumentRegistry {
    /// The instruments, in the order they were loaded.
    pub closed spec fn entries(&self) -> Seq<Instrument> {
        self.instruments@
    }

    /// The instruments by name.
    pub open spec fn by_name(&self) -> Map<Seq<char>, Instrument> {
        by_name(self.entries())
    }

    /// No two instruments share a name.
    #[verifier::type_invariant]
    spec fn names_are_distinct(&self) -> bool {
        distinct_names(self.instruments@)
    }

    /// An empty registry.
    pub fn new() -> (r: Self)
        ensures
            r.entries() == Seq::<Instrument>::empty(),
    {
        InstrumentRegistry { instruments: Vec::new() }
    }

    /// A copy of an instrument.
    fn copy_of(i: &Instrument) -> (c: Instrument)
        ensures
            c == *i,
    {
        Instrument {
            instrument_name: i.instrument_name.clone(),
            strike_bits: i.strike_bits,
            expiration_timestamp: i.expiration_timestamp,
            option_type: i.option_type,
            is_active: i.is_active,
        }
    }

    /// Index of the instrument named `name`, if any.
    fn position(&self, name: &str) -> (p: Option<usize>)
        ensures
            match p {
                Some(i) => i < self.entries().len() && self.entries()[i as int].instrument_name@
                    == name@,
                None => forall|i: int|
                    0 <= i < self.entries().len() ==> (#[trigger] self.entries()[i]).instrument_name@
                        != name@,
            },
    {
        let mut i: usize = 0;
        while i < self.instruments.len()
            invariant
                i <= self.instruments@.len(),
                forall|k: int|
                    0 <= k < i ==> (#[trigger] self.instruments@[k]).instrument_name@ != name@,
            decreases self.instruments@.len() - i,
        {
            if str_equals(self.instruments[i].instrument_name.as_str(), name) {
                return Some(i);
            }
            i += 1;
        }
        None
    }

    /// Replaces the registry with the active calls and puts of a listing, a
    /// later row of a name replacing an earlier one; returns how many
    /// instruments it holds.
    pub fn load_from_response(&mut self, rows: &[InstrumentRow]) -> (count: usize)
        ensures
            distinct_names(final(self).entries()),
            final(self).by_name() == listing(rows@),
            count == final(self).entries().len(),
    {
        let mut loaded = InstrumentRegistry { instruments: Vec::new() };
        let mut k: usize = 0;
        assert(by_name(loaded.instruments@) =~= listing(rows@.take(0)));
        while k < rows.len()
            invariant
                k <= rows@.len(),
                by_name(loaded.instruments@) == listing(rows@.take(k as int)),
            decreases rows@.len() - k,
        {
            proof {
                use_type_invariant(&loaded);
            }
            let row = &rows[k];
            assert(rows@.take(k + 1).drop_last() =~= rows@.take(k as int));
            if let Some(t) = OptionType::from_name(row.option_type.as_str()) {
                if row.is_active {
                    let inst = Instrument {
                        instrument_name: row.instrument_name.clone(),
                        strike_bits: row.strike_bits,
                        expiration_timestamp: row.expiration_timestamp,
                        option_type: t,
                        is_active: row.is_active,
                    };
                    assert(inst == instrument_of(rows@[k as int], t));
                    let ghost before = loaded.instruments@;
                    match loaded.position(row.instrument_name.as_str()) {
                        Some(i) => {
                            let mut v = loaded.instruments;
                            v.set(i, inst);
                            proof {
                                by_name_update(before, i as int, instrument_of(rows@[k as int], t));
                                assert forall|a: int, b: int|
                                    0 <= a < b < v@.len() implies v@[a].instrument_name@
                                    != v@[b].instrument_name@ by {
                                    if a != i && b != i {
                                        assert(v@[a] == before[a]);
                                        assert(v@[b] == before[b]);
                                    } else if a == i {
                                        assert(v@[b] == before[b]);
                                    } else {
                                        assert(v@[a] == before[a]);
                                    }
                                }
                            }
                            loaded = InstrumentRegistry { instruments: v };
                        },
                        None => {
                            let mut v = loaded.instruments;
                            v.push(inst);
                            proof {
                                assert(v@.drop_last() =~= before);
                                assert forall|a: int, b: int|
                                    0 <= a < b < v@.len() implies v@[a].instrument_name@
                                    != v@[b].instrument_name@ by {
                                    assert(v@[a] == before[a]);
                                    if b < before.len() {
                                        assert(v@[b] == before[b]);
                                    }
                                }
                            }
                            loaded = InstrumentRegistry { instruments: v };
                        },
                    }
                }
            }
            k += 1;
        }
        assert(rows@.take(rows@.len() as int) =~= rows@);
        let count = loaded.instruments.len();
        proof {
            use_type_invariant(&loaded);
        }
        *self = loaded;
        count
    }

    /// The instrument named `name`, if loaded.
    pub fn get(&self, name: &str) -> (r: Option<Instrument>)
        ensures
            r == (if self.by_name().contains_key(name@) {
                Some(self.by_name()[name@])
            } else {
                None
            }),
    {
        proof {
            use_type_invariant(self);
        }
        match self.position(name) {
            Some(i) => {
                proof {
                    by_name_finds(self.entries(), i as int);
                }
                Some(Self::copy_of(&self.instruments[i]))
            },
            None => {
                proof {
                    by_name_misses(self.entries(), name@);
                }
                None
            },
        }
    }

    /// All instruments, in the order they were loaded.
    pub fn get_all(&self) -> (r: Vec<Instrument>)
        ensures
            r@ == self.entries(),
    {
        let mut r: Vec<Instrument> = Vec::new();
        let mut i: usize = 0;
        while i < self.instruments.len()
            invariant
                i <= self.instruments@.len(),
                r@ == self.instruments@.take(i as int),
            decreases self.instruments@.len() - i,
        {
            r.push(Self::copy_of(&self.instruments[i]));
            assert(r@ =~= self.instruments@.take(i + 1));
            i += 1;
        }
        assert(self.instruments@.take(self.instruments@.len() as int) =~= self.instruments@);
        r
    }

    /// The names of all instruments, in the order they were loaded.
    pub fn get_all_names(&self) -> (r: Vec<String>)
        ensures
            r@.len() == self.entries().len(),
            forall|i: int| 0 <= i < r@.len() ==> #[trigger] r@[i] == self.entries()[i].instrument_name,
    {
        let mut r: Vec<String> = Vec::new();
        let mut i: usize = 0;
        while i < self.instruments.len()
            invariant
                i <= self.instruments@.len(),
                r@.len() == i,
                forall|k: int| 0 <= k < i ==> #[trigger] r@[k] == self.instruments@[k].instrument_name,
            decreases self.instruments@.len() - i,
        {
            r.push(self.instruments[i].instrument_name.clone());
            i += 1;
        }
        r
    }

    /// How many instruments are loaded.
    pub fn len(&self) -> (n: usize)
        ensures
            n == self.entries().len(),
    {
        self.instruments.len()
    }

    /// The distinct expirations of the instruments, in increasing order.
    pub fn get_expirations(&self) -> (r: Vec<i64>)
        ensures
            strictly_increasing_i64(r@),
            forall|x: i64|
                r@.contains(x) <==> exists|i: int|
                    0 <= i < self.entries().len() && #[trigger] self.entries()[i].expiration_timestamp
                        == x,
    {
        let mut all: Vec<i64> = Vec::new();
        let mut i: usize = 0;
        while i < self.instruments.len()
            invariant
                i <= self.instruments@.len(),
                all@.len() == i,
                forall|k: int| 0 <= k < i ==> #[trigger] all@[k] == self.instruments@[k].expiration_timestamp,
            decreases self.instruments@.len() - i,
        {
            all.push(self.instruments[i].expiration_timestamp);
            i += 1;
        }
        let r = unique_sorted_i64(all.as_slice());
        proof {
            assert forall|x: i64|
                r@.contains(x) <==> exists|i: int|
                    0 <= i < self.entries().len() && #[trigger] self.entries()[i].expiration_timestamp
                        == x by {
                if all@.contains(x) {
                    let k = choose|k: int| 0 <= k < all@.len() && all@[k] == x;
                    assert(self.entries()[k].expiration_timestamp == x);
                }
                if exists|i: int|
                    0 <= i < self.entries().len() && #[trigger] self.entries()[i].expiration_timestamp
                        == x {
                    let k = choose|i: int|
                        0 <= i < self.entries().len() && #[trigger] self.entries()[i].expiration_timestamp
                            == x;
                    assert(all@[k] == x);
                }
            }
        }
        r
    }
}


/// The exchange names the option types `call` and `put`, and reading a name
/// gives back the type it names; no other name is an option type.
pub proof fn option_type_names(t: OptionType, name: Seq<char>)
    ensures
        option_type_name(OptionType::Call) == "call"@,
        option_type_name(OptionType::Put) == "put"@,
        option_type_named(option_type_name(t)) == Some(t),
        name != "call"@ && name != "put"@ ==> option_type_named(name) is None,
{
    reveal_strlit("call");
    reveal_strlit("put");
    assert("call"@.len() != "put"@.len());
}

} // verus!
