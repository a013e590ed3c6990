use deribit::market::subscriber::{Subscriber, SUBSCRIBE_BATCH_SIZE};

fn names(n: usize) -> Vec<String> {
    (0..n).map(|i| format!("BTC-{}", i)).collect()
}

#[test]
fn channel_name_format() {
    assert_eq!(Subscriber::channel_name("ticker", "BTC-27DEC24-60000-C"), "ticker.BTC-27DEC24-60000-C.100ms");
}

#[test]
fn batches_of_twenty() {
    let n = names(45);
    let b = Subscriber::ticker_batches(&n);
    assert_eq!(b.len(), 3);
    assert_eq!(b[0].len(), SUBSCRIBE_BATCH_SIZE);
    assert_eq!(b[1].len(), 20);
    assert_eq!(b[2].len(), 5);
    let flat: Vec<String> = b.concat();
    let expected: Vec<String> = n.iter().map(|x| format!("ticker.{}.100ms", x)).collect();
    assert_eq!(flat, expected);
}

#[test]
fn exact_multiple_has_no_empty_batch() {
    let b = Subscriber::orderbook_batches(&names(40));
    assert_eq!(b.len(), 2);
    assert_eq!(b[1][19], "book.BTC-39.100ms");
}

#[test]
fn no_names_no_batches() {
    assert!(Subscriber::trade_batches(&[]).is_empty());
    let b = Subscriber::trade_batches(&names(1));
    assert_eq!(b, vec![vec!["trades.BTC-0.100ms".to_string()]]);
}
