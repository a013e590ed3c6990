use deribit::text::{join_strings, sort_strings, str_equals, str_le, str_starts_with};
use deribit::tui::opportunity_key;

fn strings(v: &[&str]) -> Vec<String> {
    v.iter().map(|s| s.to_string()).collect()
}

#[test]
fn equality_by_characters() {
    assert!(str_equals("abc", "abc"));
    assert!(!str_equals("abc", "abd"));
    assert!(!str_equals("abc", "ab"));
    assert!(str_equals("", ""));
}

#[test]
fn prefixes() {
    assert!(str_starts_with("ticker.x", "ticker."));
    assert!(str_starts_with("abc", ""));
    assert!(!str_starts_with("tick", "ticker."));
}

#[test]
fn order_matches_str_comparison() {
    let samples = ["", "a", "ab", "b", "BTC", "BTC-1", "BTC-10", "é", "z"];
    for a in samples {
        for b in samples {
            assert_eq!(str_le(a, b), a <= b, "{} {}", a, b);
        }
    }
}

#[test]
fn sorting_matches_std_sort() {
    let v = strings(&["BTC-29MAR-60000-P", "BTC-29MAR-50000-C", "BTC-1JAN-60000-C", "BTC-29MAR-50000-C"]);
    let mut expected = v.clone();
    expected.sort();
    assert_eq!(sort_strings(&v), expected);
    assert!(sort_strings(&[]).is_empty());
}

#[test]
fn joining_with_separator() {
    assert_eq!(join_strings(&strings(&["a", "b", "c"]), ","), "a,b,c");
    assert_eq!(join_strings(&strings(&["a"]), ","), "a");
    assert_eq!(join_strings(&[], ","), "");
}

#[test]
fn key_sorts_instruments() {
    let k = opportunity_key("box_spread", &strings(&["C2", "C1", "P2", "P1"]));
    assert_eq!(k, "box_spread:C1,C2,P1,P2");
    let k2 = opportunity_key("box_spread", &strings(&["P1", "C2", "P2", "C1"]));
    assert_eq!(k, k2);
    assert_eq!(opportunity_key("vertical_arb", &[]), "vertical_arb:");
}
