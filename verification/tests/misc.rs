use deribit::alert::notifier::Notifier;
use deribit::analysis::opportunity::{Action, PriceUnit, RiskLevel};
use deribit::config::{ws_url_for_env, DEFAULT_ENV};
use deribit::market::ticker::SaveSampler;

#[test]
fn display_labels() {
    assert_eq!(Action::Buy.to_string(), "BUY");
    assert_eq!(Action::Sell.to_string(), "SELL");
    assert_eq!(PriceUnit::Btc.to_string(), "BTC");
    assert_eq!(PriceUnit::Usd.to_string(), "USD");
    assert_eq!(RiskLevel::Low.to_string(), "low");
    assert_eq!(RiskLevel::Medium.to_string(), "medium");
    assert_eq!(RiskLevel::High.to_string(), "high");
}

#[test]
fn ws_url_by_environment() {
    assert_eq!(ws_url_for_env("prod"), "wss://www.deribit.com/ws/api/v2");
    assert_eq!(ws_url_for_env("test"), "wss://test.deribit.com/ws/api/v2");
    assert_eq!(ws_url_for_env(DEFAULT_ENV), "wss://test.deribit.com/ws/api/v2");
    assert_eq!(ws_url_for_env("production"), "wss://test.deribit.com/ws/api/v2");
}

#[test]
fn notifier_keeps_its_store() {
    let n = Notifier::new(vec![1u8, 2]);
    assert_eq!(n.storage(), &vec![1u8, 2]);
}

#[test]
fn every_hundredth_ticker_is_saved() {
    let mut s = SaveSampler::new();
    let saved: Vec<u64> = (1..=250u64).filter(|_| s.record()).collect();
    assert_eq!(saved, vec![100, 200]);
    assert_eq!(s.seen_count(), 250);
}
