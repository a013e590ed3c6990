use deribit::ws::client::{
    classify_channel, dispatch_message, ChannelKind, Dispatch, IncomingMessage, ReconnectBackoff,
    RequestIds,
};

fn msg(method: Option<&str>, id: Option<u64>, token: bool, channel: Option<&str>) -> IncomingMessage {
    IncomingMessage {
        method: method.map(|s| s.to_string()),
        id,
        carries_access_token: token,
        channel: channel.map(|s| s.to_string()),
    }
}

#[test]
fn request_ids_start_at_one() {
    let mut ids = RequestIds::new();
    assert_eq!(ids.peek(), 1);
    assert_eq!(ids.allocate(), 1);
    assert_eq!(ids.allocate(), 2);
    assert_eq!(ids.peek(), 3);
}

#[test]
fn backoff_doubles_up_to_sixty() {
    let mut b = ReconnectBackoff::new();
    let waits: Vec<u64> = (0..8).map(|_| b.on_disconnect(false)).collect();
    assert_eq!(waits, vec![1, 2, 4, 8, 16, 32, 60, 60]);
    assert_eq!(b.delay_secs(), 60);
}

#[test]
fn backoff_resets_after_normal_close() {
    let mut b = ReconnectBackoff::new();
    b.on_disconnect(false);
    b.on_disconnect(false);
    assert_eq!(b.delay_secs(), 4);
    assert_eq!(b.on_disconnect(true), 1);
    assert_eq!(b.delay_secs(), 2);
}

#[test]
fn channels_by_prefix() {
    assert_eq!(classify_channel("ticker.BTC-1JAN25-50000-C.100ms"), ChannelKind::Ticker);
    assert_eq!(classify_channel("book.BTC-1JAN25-50000-C.100ms"), ChannelKind::Book);
    assert_eq!(classify_channel("trades.BTC-1JAN25-50000-C.100ms"), ChannelKind::Trades);
    assert_eq!(classify_channel("ticker"), ChannelKind::Other);
    assert_eq!(classify_channel(""), ChannelKind::Other);
    assert_eq!(classify_channel("user.orders"), ChannelKind::Other);
}

#[test]
fn heartbeat_comes_first() {
    assert_eq!(dispatch_message(&msg(Some("heartbeat"), Some(4), true, None)), Dispatch::Heartbeat);
}

#[test]
fn responses_by_id() {
    assert_eq!(
        dispatch_message(&msg(None, Some(4), false, None)),
        Dispatch::Response { id: 4, auth_result: false }
    );
    assert_eq!(
        dispatch_message(&msg(Some("subscription"), Some(5), true, Some("ticker.x"))),
        Dispatch::Response { id: 5, auth_result: true }
    );
}

#[test]
fn notifications_by_channel() {
    assert_eq!(dispatch_message(&msg(Some("subscription"), None, false, Some("ticker.x.100ms"))), Dispatch::Ticker);
    assert_eq!(dispatch_message(&msg(Some("subscription"), None, false, Some("book.x.100ms"))), Dispatch::Book);
    assert_eq!(dispatch_message(&msg(Some("subscription"), None, false, Some("trades.x.100ms"))), Dispatch::Trades);
    assert_eq!(dispatch_message(&msg(Some("subscription"), None, false, Some("other"))), Dispatch::Ignore);
    assert_eq!(dispatch_message(&msg(Some("subscription"), None, false, None)), Dispatch::Ignore);
    assert_eq!(dispatch_message(&msg(Some("ticker"), None, false, Some("ticker.x"))), Dispatch::Ignore);
    assert_eq!(dispatch_message(&msg(None, None, false, None)), Dispatch::Ignore);
}
