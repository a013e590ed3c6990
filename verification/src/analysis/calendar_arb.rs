//! Pairing of consecutive expirations at the same strike and option type,
//! on which the calendar analyses compare near and far options.
use vstd::prelude::*;
use crate::market::instruments::OptionType;

verus! {

/// An option quoted for a calendar comparison: its strike key (the strike
/// truncated to whole dollars), its type and its expiration in ms.
#[derive(Debug, Clone, Copy, PartialEq, Eq, Structural)]
pub struct TermEntry {
    pub strike_key: u64,
    pub option_type: OptionType,
    pub expiration: i64,
}

/// Entries `a` and `b` belong to the same (strike, type) group.
pub open spec fn same_group(e: Seq<TermEntry>, a: int, b: int) -> bool {
    e[a].strike_key == e[b].strike_key && e[a].option_type == e[b].option_type
}

/// Entry `a` comes before entry `b` when a group is sorted by expiration,
/// entries of equal expiration keeping their order.
pub open spec fn expires_before(e: Seq<TermEntry>, a: int, b: int) -> bool {
    e[a].expiration < e[b].expiration || (e[a].expiration == e[b].expiration && a < b)
}

/// `b` follows `a` directly in the sorted order of their group.
pub open spec fn is_next_expiry(e: Seq<TermEntry>, a: int, b: int) -> bool {
    &&& 0 <= a < e.len()
    &&& 0 <= b < e.len()
    &&& same_group(e, a, b)
    &&& expires_before(e, a, b)
    &&& forall|c: int|
        0 <= c < e.len() && same_group(e, a, c) && #[trigger] expires_before(e, a, c)
            ==> !expires_before(e, c, b)
}

/// The pairs (near, far) of entries that follow each other when each
/// (strike, type) group is sorted by expiration, entries of equal expiration
/// keeping their order; ordered by the near entry.
pub fn adjacent_expiry_pairs(entries: &[TermEntry]) -> (pairs: Vec<(usize, usize)>)
    ensures
        forall|k: int|
            0 <= k < pairs@.len() ==> is_next_expiry(
                entries@,
                #[trigger] pairs@[k].0 as int,
                pairs@[k].1 as int,
            ),
        forall|k: int, l: int| 0 <= k < l < pairs@.len() ==> pairs@[k].0 < pairs@[l].0,
        forall|a: int, b: int|
            #[trigger] is_next_expiry(entries@, a, b) ==> exists|k: int|
                0 <= k < pairs@.len() && pairs@[k] == (a as usize, b as usize),
{
    let n = entries.len();
    let mut pairs: Vec<(usize, usize)> = Vec::new();
    let mut a: usize = 0;
    while a < n
        invariant
            n == entries@.len(),
            a <= n,
            forall|k: int|
                0 <= k < pairs@.len() ==> is_next_expiry(
                    entries@,
                    #[trigger] pairs@[k].0 as int,
                    pairs@[k].1 as int,
                ),
            forall|k: int| 0 <= k < pairs@.len() ==> #[trigger] pairs@[k].0 < a,
            forall|k: int, l: int| 0 <= k < l < pairs@.len() ==> pairs@[k].0 < pairs@[l].0,
            forall|x: int, b: int|
                0 <= x < a && #[trigger] is_next_expiry(entries@, x, b) ==> exists|k: int|
                    0 <= k < pairs@.len() && pairs@[k] == (x as usize, b as usize),
        decreases n - a,
    {
        let ea = entries[a];
        let mut best: Option<usize> = None;
        let mut c: usize = 0;
        while c < n
            invariant
                n == entries@.len(),
                a < n,
                c <= n,
                ea == entries@[a as int],
                match best {
                    Some(b) => {
                        &&& b < n
                        &&& same_group(entries@, a as int, b as int)
                        &&& expires_before(entries@, a as int, b as int)
                        &&& forall|d: int|
                            0 <= d < c && same_group(entries@, a as int, d)
                                && #[trigger] expires_before(entries@, a as int, d)
                                ==> !expires_before(entries@, d, b as int)
                    },
                    None => forall|d: int|
                        0 <= d < c && same_group(entries@, a as int, d)
                            ==> !#[trigger] expires_before(entries@, a as int, d),
                },
            decreases n - c,
        {
            let ec = entries[c];
            if ec.strike_key == ea.strike_key && ec.option_type == ea.option_type
                && (ea.expiration < ec.expiration || (ea.expiration == ec.expiration && a < c)) {
                match best {
                    Some(b) => {
                        let eb = entries[b];
                        if ec.expiration < eb.expiration || (ec.expiration == eb.expiration && c
                            < b) {
                            best = Some(c);
                        }
                    },
                    None => {
                        best = Some(c);
                    },
                }
            }
            c += 1;
        }
        let ghost old_pairs = pairs@;
        match best {
            Some(b) => {
                pairs.push((a, b));
                assert(pairs@[old_pairs.len() as int] == (a, b));
                assert forall|k: int| 0 <= k < old_pairs.len() implies pairs@[k] == old_pairs[k] by {}
            },
            None => {},
        }
        assert forall|x: int, b2: int|
            0 <= x < a + 1 && #[trigger] is_next_expiry(entries@, x, b2) implies exists|k: int|
                0 <= k < pairs@.len() && pairs@[k] == (x as usize, b2 as usize) by {
            if x < a {
                let k = choose|k: int| 0 <= k < old_pairs.len() && old_pairs[k] == (x as usize, b2 as usize);
                assert(pairs@[k] == old_pairs[k]);
            } else {
                match best {
                    Some(b) => {
                        if b2 != b as int {
                            assert(!expires_before(entries@, b as int, b2));
                            assert(!expires_before(entries@, b2, b as int));
                        }
                        assert(pairs@[old_pairs.len() as int] == (x as usize, b2 as usize));
                    },
                    None => {
                        assert(expires_before(entries@, a as int, b2));
                    },
                }
            }
        }
        a += 1;
    }
    pairs
}

} // verus!
