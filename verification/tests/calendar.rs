use deribit::analysis::calendar_arb::{adjacent_expiry_pairs, TermEntry};
use deribit::market::instruments::OptionType;

fn e(strike_key: u64, option_type: OptionType, expiration: i64) -> TermEntry {
    TermEntry { strike_key, option_type, expiration }
}

#[test]
fn pairs_consecutive_expirations_per_group() {
    let entries = [
        e(50000, OptionType::Call, 300), // 0
        e(50000, OptionType::Call, 100), // 1
        e(50000, OptionType::Put, 100),  // 2
        e(50000, OptionType::Call, 200), // 3
        e(60000, OptionType::Call, 100), // 4
        e(50000, OptionType::Put, 400),  // 5
    ];
    let pairs = adjacent_expiry_pairs(&entries);
    assert_eq!(pairs, vec![(1, 3), (2, 5), (3, 0)]);
}

#[test]
fn equal_expirations_keep_their_order() {
    let entries = [
        e(1, OptionType::Call, 100),
        e(1, OptionType::Call, 100),
        e(1, OptionType::Call, 50),
    ];
    assert_eq!(adjacent_expiry_pairs(&entries), vec![(0, 1), (2, 0)]);
}

#[test]
fn single_entries_make_no_pairs() {
    assert!(adjacent_expiry_pairs(&[]).is_empty());
    assert!(adjacent_expiry_pairs(&[e(1, OptionType::Call, 1), e(2, OptionType::Call, 2)]).is_empty());
}
