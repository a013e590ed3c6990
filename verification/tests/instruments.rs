use deribit::market::instruments::{unique_sorted_i64, unique_sorted_u64, OptionType};

#[test]
fn option_type_names() {
    assert_eq!(OptionType::Call.to_string(), "call");
    assert_eq!(OptionType::Put.to_string(), "put");
    assert_eq!(OptionType::from_name("call"), Some(OptionType::Call));
    assert_eq!(OptionType::from_name("put"), Some(OptionType::Put));
    assert_eq!(OptionType::from_name("Call"), None);
    assert_eq!(OptionType::from_name(""), None);
    assert_eq!(OptionType::from_name("future"), None);
}

#[test]
fn expirations_are_unique_and_sorted() {
    let v = unique_sorted_i64(&[300, 100, 300, -5, 200, 100]);
    assert_eq!(v, vec![-5, 100, 200, 300]);
    assert_eq!(unique_sorted_i64(&[]), Vec::<i64>::new());
}

#[test]
fn strike_keys_are_unique_and_sorted() {
    let v = unique_sorted_u64(&[60000, 50000, 60000, 55000, 0, u64::MAX]);
    assert_eq!(v, vec![0, 50000, 55000, 60000, u64::MAX]);
}
