//! Decisions of the websocket client: request ids, the reconnect backoff and
//! the dispatch of incoming messages.
use vstd::prelude::*;
use vstd::string::*;
use vstd::arithmetic::power2::{pow2, lemma_pow2_unfold};
use crate::text::{str_equals, str_starts_with};

verus! {

/// Seconds before the first reconnect, and after a connection closed normally.
pub const INITIAL_RETRY_SECS: u64 = 1;

/// Longest wait between reconnects, in seconds.
pub const MAX_RETRY_SECS: u64 = 60;

/// Ids of JSON-RPC requests, handed out in increasing order from 1.
pub struct RequestIds {
    next: u64,
}

impl RequestIds {
    /// The id that `allocate` returns next.
    pub closed spec fn next_id(&self) -> u64 {
        self.next
    }

    /// The counter before the first request: the first id is 1.
    pub fn new() -> (ids: Self)
        ensures
            ids.next_id() == 1,
    {
        RequestIds { next: 1 }
    }

    /// The id that `allocate` returns next.
    pub fn peek(&self) -> (id: u64)
        ensures
            id == self.next_id(),
    {
        self.next
    }

    /// Hands out the next id.
    pub fn allocate(&mut self) -> (id: u64)
        requires
            old(self).next_id() < u64::MAX,
        ensures
            id == old(self).next_id(),
            final(self).next_id() == id + 1,
    {
        let id = self.next;
        self.next = self.next + 1;
        id
    }
}

/// Wait before the next reconnect: 1 s after a normal close, otherwise the
/// current delay; the delay then doubles, up to 60 s.
pub struct ReconnectBackoff {
    delay_secs: u64,
}

/// The delay after `k` failed connections since the last reset.
pub open spec fn delay_after_failures(k: nat) -> int
    decreases k,
{
    if k == 0 {
        INITIAL_RETRY_SECS as int
    } else {
        let d = 2 * delay_after_failures((k - 1) as nat);
        if d < MAX_RETRY_SECS {
            d
        } else {
            MAX_RETRY_SECS as int
        }
    }
}

impl ReconnectBackoff {
    /// The current delay in seconds.
    pub closed spec fn delay(&self) -> int {
        self.delay_secs as int
    }

    /// The delay lies between 1 s and 60 s.
    pub open spec fn wf(&self) -> bool {
        INITIAL_RETRY_SECS <= self.delay() <= MAX_RETRY_SECS
    }

    /// The backoff before the first connection: a delay of 1 s.
    pub fn new() -> (b: Self)
        ensures
            b.wf(),
            b.delay() == INITIAL_RETRY_SECS,
    {
        ReconnectBackoff { delay_secs: INITIAL_RETRY_SECS }
    }

    /// The current delay in seconds.
    pub fn delay_secs(&self) -> (d: u64)
        ensures
            d == self.delay(),
    {
        self.delay_secs
    }

    /// A connection ended: returns the seconds to wait before reconnecting
    /// (1 when it closed normally, the current delay otherwise) and doubles
    /// the delay from that wait, up to 60 s.
    pub fn on_disconnect(&mut self, closed_normally: bool) -> (wait: u64)
        requires
            old(self).wf(),
        ensures
            final(self).wf(),
            wait == (if closed_normally { INITIAL_RETRY_SECS as int } else { old(self).delay() }),
            final(self).delay() == (if 2 * wait < MAX_RETRY_SECS {
                2 * wait
            } else {
                MAX_RETRY_SECS as int
            }),
    {
        if closed_normally {
            self.delay_secs = INITIAL_RETRY_SECS;
        }
        let wait = self.delay_secs;
        let doubled = wait * 2;
        self.delay_secs = if doubled < MAX_RETRY_SECS {
            doubled
        } else {
            MAX_RETRY_SECS
        };
        wait
    }
}

/// After `k` failed connections in a row the delay is `min(2^k, 60)`
/// seconds: it doubles from 1 s until it reaches the 60 s cap.
pub proof fn backoff_doubles_to_cap(k: nat)
    ensures
        delay_after_failures(k) == (if pow2(k) < MAX_RETRY_SECS {
            pow2(k) as int
        } else {
            MAX_RETRY_SECS as int
        }),
    decreases k,
{
    if k == 0 {
        vstd::arithmetic::power2::lemma2_to64();
    } else {
        backoff_doubles_to_cap((k - 1) as nat);
        lemma_pow2_unfold(k);
    }
}

/// What an incoming message is, as far as its dispatch needs.
pub struct IncomingMessage {
    /// The `method` field, when it is a string.
    pub method: Option<String>,
    /// The `id` field, when it is an unsigned integer.
    pub id: Option<u64>,
    /// Whether `result.access_token` is present.
    pub carries_access_token: bool,
    /// The `params.channel` field, when it is a string.
    pub channel: Option<String>,
}

/// Where an incoming message goes.
#[derive(Debug, Clone, Copy, PartialEq, Eq, Structural)]
pub enum Dispatch {
    /// A heartbeat from the exchange; nothing to do.
    Heartbeat,
    /// The response to request `id`; `auth_result` when it carries tokens.
    Response { id: u64, auth_result: bool },
    /// A notification on a ticker channel.
    Ticker,
    /// A notification on an order book channel.
    Book,
    /// A notification on a trades channel.
    Trades,
    /// Anything else.
    Ignore,
}

/// Kinds of subscription channel, told apart by their prefix.
#[derive(Debug, Clone, Copy, PartialEq, Eq, Structural)]
pub enum ChannelKind {
    Ticker,
    Book,
    Trades,
    Other,
}

/// The kind of a channel name.
pub open spec fn channel_kind(channel: Seq<char>) -> ChannelKind {
    if "ticker."@.is_prefix_of(channel) {
        ChannelKind::Ticker
    } else if "book."@.is_prefix_of(channel) {
        ChannelKind::Book
    } else if "trades."@.is_prefix_of(channel) {
        ChannelKind::Trades
    } else {
        ChannelKind::Other
    }
}

/// The dispatch of a message: heartbeats first, then responses (anything
/// with an id), then subscription notifications by channel.
pub open spec fn dispatch_of(msg: IncomingMessage) -> Dispatch {
    if msg.method is Some && msg.method->0@ == "heartbeat"@ {
        Dispatch::Heartbeat
    } else if msg.id is Some {
        Dispatch::Response { id: msg.id->0, auth_result: msg.carries_access_token }
    } else if msg.method is Some && msg.method->0@ == "subscription"@ {
        let channel = match msg.channel {
            Some(c) => c@,
            None => Seq::empty(),
        };
        match channel_kind(channel) {
            ChannelKind::Ticker => Dispatch::Ticker,
            ChannelKind::Book => Dispatch::Book,
            ChannelKind::Trades => Dispatch::Trades,
            ChannelKind::Other => Dispatch::Ignore,
        }
    } else {
        Dispatch::Ignore
    }
}

/// The kind of a subscription channel name.
pub fn classify_channel(channel: &str) -> (k: ChannelKind)
    ensures
        k == channel_kind(channel@),
{
    if str_starts_with(channel, "ticker.") {
        ChannelKind::Ticker
    } else if str_starts_with(channel, "book.") {
        ChannelKind::Book
    } else if str_starts_with(channel, "trades.") {
        ChannelKind::Trades
    } else {
        ChannelKind::Other
    }
}

/// Where an incoming message goes.
pub fn dispatch_message(msg: &IncomingMessage) -> (d: Dispatch)
    ensures
        d == dispatch_of(*msg),
{
    let is_heartbeat = match &msg.method {
        Some(m) => str_equals(m.as_str(), "heartbeat"),
        None => false,
    };
    if is_heartbeat {
        return Dispatch::Heartbeat;
    }
    if let Some(id) = msg.id {
        return Dispatch::Response { id, auth_result: msg.carries_access_token };
    }
    let is_subscription = match &msg.method {
        Some(m) => str_equals(m.as_str(), "subscription"),
        None => false,
    };
    if !is_subscription {
        return Dispatch::Ignore;
    }
    let kind = match &msg.channel {
        Some(c) => classify_channel(c.as_str()),
        None => {
            proof {
                reveal_strlit("ticker.");
                reveal_strlit("book.");
                reveal_strlit("trades.");
            }
            ChannelKind::Other
        },
    };
    match kind {
        ChannelKind::Ticker => Dispatch::Ticker,
        ChannelKind::Book => Dispatch::Book,
        ChannelKind::Trades => Dispatch::Trades,
        ChannelKind::Other => Dispatch::Ignore,
    }
}

/// A channel name that starts with `prefix` is told apart by that prefix
/// alone, whatever follows it: `ticker.` gives a ticker channel, `book.` a
/// book channel and `trades.` a trades channel.
pub proof fn channel_kind_by_prefix(rest: Seq<char>)
    ensures
        channel_kind("ticker."@ + rest) == ChannelKind::Ticker,
        channel_kind("book."@ + rest) == ChannelKind::Book,
        channel_kind("trades."@ + rest) == ChannelKind::Trades,
{
    reveal_strlit("ticker.");
    reveal_strlit("book.");
    reveal_strlit("trades.");
    let t = "ticker."@ + rest;
    let b = "book."@ + rest;
    let r = "trades."@ + rest;
    assert(t.subrange(0, 7) =~= "ticker."@);
    assert(b.subrange(0, 5) =~= "book."@);
    assert(r.subrange(0, 7) =~= "trades."@);
    assert(b[0] == 'b');
    assert(r[0] == 't' && r[1] == 'r');
    assert(!"ticker."@.is_prefix_of(b)) by {
        if "ticker."@.is_prefix_of(b) {
            assert(b.subrange(0, 7)[0] == 't');
        }
    }
    assert(!"ticker."@.is_prefix_of(r)) by {
        if "ticker."@.is_prefix_of(r) {
            assert(r.subrange(0, 7)[1] == 'i');
        }
    }
    assert(!"book."@.is_prefix_of(r)) by {
        if "book."@.is_prefix_of(r) {
            assert(r.subrange(0, 5)[0] == 'b');
        }
    }
}

/// A channel name that starts with none of `ticker.`, `book.` and
/// `trades.` is of no known kind.
pub proof fn channel_kind_unknown_prefix(channel: Seq<char>)
    requires
        !"ticker."@.is_prefix_of(channel),
        !"book."@.is_prefix_of(channel),
        !"trades."@.is_prefix_of(channel),
    ensures
        channel_kind(channel) == ChannelKind::Other,
{
}

/// How every incoming message is dispatched:
/// - a heartbeat is a heartbeat, whatever else it carries;
/// - any other message with an id is the response to that id, flagged as an
///   authentication result exactly when it carries an access token;
/// - a subscription notification without an id goes by the prefix of its
///   channel: `ticker.`, `book.` and `trades.` give ticker, book and trades
///   updates whatever follows the prefix, and any other channel, or none,
///   is ignored;
/// - any other message without an id is ignored.
pub proof fn dispatch_law(msg: IncomingMessage, rest: Seq<char>)
    ensures
        msg.method is Some && msg.method->0@ == "heartbeat"@ ==> dispatch_of(msg)
            == Dispatch::Heartbeat,
        !(msg.method is Some && msg.method->0@ == "heartbeat"@) && msg.id is Some ==> dispatch_of(
            msg,
        ) == (Dispatch::Response { id: msg.id->0, auth_result: msg.carries_access_token }),
        msg.id is None && !(msg.method is Some && msg.method->0@ == "subscription"@) && !(
        msg.method is Some && msg.method->0@ == "heartbeat"@) ==> dispatch_of(msg)
            == Dispatch::Ignore,
        msg.id is None && msg.method is Some && msg.method->0@ == "subscription"@ ==> {
            &&& msg.channel is Some && msg.channel->0@ == "ticker."@ + rest ==> dispatch_of(msg)
                == Dispatch::Ticker
            &&& msg.channel is Some && msg.channel->0@ == "book."@ + rest ==> dispatch_of(msg)
                == Dispatch::Book
            &&& msg.channel is Some && msg.channel->0@ == "trades."@ + rest ==> dispatch_of(msg)
                == Dispatch::Trades
            &&& msg.channel is None ==> dispatch_of(msg) == Dispatch::Ignore
            &&& msg.channel is Some && !"ticker."@.is_prefix_of(msg.channel->0@)
                && !"book."@.is_prefix_of(msg.channel->0@) && !"trades."@.is_prefix_of(
                msg.channel->0@,
            ) ==> dispatch_of(msg) == Dispatch::Ignore
        },
{
    reveal_strlit("heartbeat");
    reveal_strlit("subscription");
    reveal_strlit("ticker.");
    reveal_strlit("book.");
    reveal_strlit("trades.");
    assert("heartbeat"@[0] != "subscription"@[0]);
    assert("heartbeat"@ != "subscription"@);
    channel_kind_by_prefix(rest);
    assert(!"ticker."@.is_prefix_of(Seq::<char>::empty()));
    assert(!"book."@.is_prefix_of(Seq::<char>::empty()));
    assert(!"trades."@.is_prefix_of(Seq::<char>::empty()));
}

} // verus!
