use deribit::market::instruments::{InstrumentRegistry, InstrumentRow, OptionType};

fn row(name: &str, strike: f64, exp: i64, ty: &str, active: bool) -> InstrumentRow {
    InstrumentRow {
        instrument_name: name.to_string(),
        strike_bits: strike.to_bits(),
        expiration_timestamp: exp,
        option_type: ty.to_string(),
        is_active: active,
    }
}

#[test]
fn load_keeps_active_calls_and_puts() {
    let mut r = InstrumentRegistry::new();
    let n = r.load_from_response(&[
        row("A-C", 50000.0, 100, "call", true),
        row("A-P", 50000.0, 100, "put", true),
        row("B-C", 60000.0, 200, "call", false),
        row("F", 0.0, 200, "future", true),
    ]);
    assert_eq!(n, 2);
    assert_eq!(r.len(), 2);
    let a = r.get("A-C").unwrap();
    assert_eq!(a.option_type, OptionType::Call);
    assert_eq!(f64::from_bits(a.strike_bits), 50000.0);
    assert_eq!(a.expiration_timestamp, 100);
    assert!(a.is_active);
    assert!(r.get("B-C").is_none());
    assert!(r.get("F").is_none());
    assert_eq!(r.get_all_names(), vec!["A-C".to_string(), "A-P".to_string()]);
}

#[test]
fn later_row_of_a_name_replaces_earlier() {
    let mut r = InstrumentRegistry::new();
    let n = r.load_from_response(&[
        row("X", 1.0, 100, "call", true),
        row("Y", 2.0, 300, "put", true),
        row("X", 3.0, 200, "put", true),
        row("X", 4.0, 400, "call", false),
    ]);
    assert_eq!(n, 2);
    let x = r.get("X").unwrap();
    assert_eq!(x.option_type, OptionType::Put);
    assert_eq!(x.expiration_timestamp, 200);
    assert_eq!(r.get_expirations(), vec![200, 300]);
}

#[test]
fn load_replaces_previous_listing() {
    let mut r = InstrumentRegistry::new();
    r.load_from_response(&[row("X", 1.0, 100, "call", true)]);
    let n = r.load_from_response(&[row("Z", 1.0, 500, "put", true)]);
    assert_eq!(n, 1);
    assert!(r.get("X").is_none());
    assert_eq!(r.get_all().len(), 1);
    assert_eq!(r.get_expirations(), vec![500]);
    assert_eq!(r.load_from_response(&[]), 0);
    assert!(r.get_expirations().is_empty());
}
