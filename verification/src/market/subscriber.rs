//! Channel subscriptions, sent in batches.
use vstd::prelude::*;
use vstd::string::*;
use crate::ws::client::{channel_kind, channel_kind_by_prefix, ChannelKind};

verus! {

/// Channels per `public/subscribe` request.
pub const SUBSCRIBE_BATCH_SIZE: usize = 20;

/// The name of the 100 ms channel of kind `kind` for an instrument:
/// `{kind}.{name}.100ms`.
pub open spec fn channel_name(kind: Seq<char>, name: Seq<char>) -> Seq<char> {
    kind + "."@ + name + ".100ms"@
}

/// The channel names, in order, for the instruments `names`.
pub open spec fn channel_names(kind: Seq<char>, names: Seq<String>) -> Seq<Seq<char>> {
    names.map_values(|n: String| channel_name(kind, n@))
}

/// `batches` cuts `all` into consecutive batches of `size`, the last one
/// possibly shorter, none empty.
pub open spec fn is_batching(batches: Seq<Seq<Seq<char>>>, all: Seq<Seq<char>>, size: int) -> bool {
    &&& batches.len() * size >= all.len()
    &&& (batches.len() == 0 || (batches.len() - 1) * size < all.len())
    &&& forall|i: int|
        0 <= i < batches.len() ==> #[trigger] batches[i] == all.subrange(
            i * size,
            if (i + 1) * size <= all.len() {
                (i + 1) * size
            } else {
                all.len() as int
            },
        )
}

/// The first `j` batches cover the first `j * size` names.
proof fn batches_prefix_flatten(batches: Seq<Seq<Seq<char>>>, all: Seq<Seq<char>>, size: int, j: int)
    requires
        size > 0,
        is_batching(batches, all, size),
        0 <= j <= batches.len(),
    ensures
        batches.take(j).flatten() == all.take(
            if j * size <= all.len() {
                j * size
            } else {
                all.len() as int
            },
        ),
    decreases j,
{
    if j == 0 {
        assert(batches.take(0) =~= Seq::<Seq<Seq<char>>>::empty());
        assert(all.take(0) =~= Seq::<Seq<char>>::empty());
    } else {
        batches_prefix_flatten(batches, all, size, j - 1);
        assert(batches.take(j) =~= batches.take(j - 1).push(batches[j - 1]));
        batches.take(j - 1).lemma_flatten_push(batches[j - 1]);
        let len = batches.len();
        assert((j - 1) * size <= (len - 1) * size) by (nonlinear_arith)
            requires
                j - 1 <= len - 1,
                size > 0,
        ;
        assert((j - 1) * size + size == j * size) by (nonlinear_arith);
        let e = if j * size <= all.len() {
            j * size
        } else {
            all.len() as int
        };
        assert(all.take((j - 1) * size) + all.subrange((j - 1) * size, e) =~= all.take(e));
    }
}

/// Subscribing in batches subscribes every channel once, in order: the
/// batches, put end to end, are the channel list, and each batch holds
/// between one and `size` channels.
pub proof fn batches_cover_channels(batches: Seq<Seq<Seq<char>>>, all: Seq<Seq<char>>, size: int)
    requires
        size > 0,
        is_batching(batches, all, size),
    ensures
        batches.flatten() == all,
        forall|i: int| 0 <= i < batches.len() ==> 0 < (#[trigger] batches[i]).len() <= size,
{
    batches_prefix_flatten(batches, all, size, batches.len() as int);
    assert(batches.take(batches.len() as int) =~= batches);
    assert(all.take(all.len() as int) =~= all);
    assert forall|i: int| 0 <= i < batches.len() implies 0 < (#[trigger] batches[i]).len() <= size by {
        assert(i * size <= (batches.len() - 1) * size) by (nonlinear_arith)
            requires
                i <= batches.len() - 1,
                size > 0,
        ;
        assert((i + 1) * size == i * size + size) by (nonlinear_arith);
    }
}

/// Every channel name is the kind, a dot, the instrument's name and the
/// interval `.100ms`, for every kind and every name: its length is theirs
/// put together, and each part stands in its place.
pub proof fn channel_name_format(kind: Seq<char>, name: Seq<char>)
    ensures
        channel_name(kind, name).len() == kind.len() + name.len() + 7,
        channel_name(kind, name).take(kind.len() as int) == kind,
        channel_name(kind, name)[kind.len() as int] == '.',
        channel_name(kind, name).subrange(kind.len() + 1int, kind.len() + 1int + name.len()) == name,
        channel_name(kind, name).skip(kind.len() + 1int + name.len()) == seq!['.', '1', '0', '0', 'm', 's'],
{
    reveal_strlit(".");
    reveal_strlit(".100ms");
    let c = channel_name(kind, name);
    let k = kind.len() as int;
    let n = name.len() as int;
    assert(c.take(k) =~= kind);
    assert(c.subrange(k + 1, k + 1 + n) =~= name);
    assert(c.skip(k + 1 + n) =~= seq!['.', '1', '0', '0', 'm', 's']);
}

/// The ticker, book and trades channels of an instrument, whatever its
/// name, are dispatched as ticker, book and trades notifications.
pub proof fn subscribed_channels_are_recognised(name: Seq<char>)
    ensures
        channel_kind(channel_name("ticker"@, name)) == ChannelKind::Ticker,
        channel_kind(channel_name("book"@, name)) == ChannelKind::Book,
        channel_kind(channel_name("trades"@, name)) == ChannelKind::Trades,
{
    reveal_strlit(".");
    reveal_strlit(".100ms");
    reveal_strlit("ticker");
    reveal_strlit("book");
    reveal_strlit("trades");
    reveal_strlit("ticker.");
    reveal_strlit("book.");
    reveal_strlit("trades.");
    let rest = name + ".100ms"@;
    channel_kind_by_prefix(rest);
    assert(channel_name("ticker"@, name) =~= "ticker."@ + rest);
    assert(channel_name("book"@, name) =~= "book."@ + rest);
    assert(channel_name("trades"@, name) =~= "trades."@ + rest);
}

/// Manages channel subscriptions.
pub struct Subscriber;

impl Subscriber {
    /// `{kind}.{name}.100ms`.
    pub fn channel_name(kind: &str, name: &str) -> (s: String)
        ensures
            s@ == channel_name(kind@, name@),
    {
        String::from_str(kind).concat(".").concat(name).concat(".100ms")
    }

    /// The channels of kind `kind` for `names`, in batches of
    /// `SUBSCRIBE_BATCH_SIZE`.
    pub fn channel_batches(kind: &str, names: &[String]) -> (batches: Vec<Vec<String>>)
        ensures
            is_batching(
                batches.deep_view(),
                channel_names(kind@, names@),
                SUBSCRIBE_BATCH_SIZE as int,
            ),
    {
        let ghost all = channel_names(kind@, names@);
        let n = names.len();
        let mut batches: Vec<Vec<String>> = Vec::new();
        let mut start: usize = 0;
        while start < n
            invariant
                n == names@.len(),
                all == channel_names(kind@, names@),
                start <= n,
                start == (if batches.len() * SUBSCRIBE_BATCH_SIZE <= n {
                    batches.len() * SUBSCRIBE_BATCH_SIZE
                } else {
                    n as int
                }),
                batches.len() == 0 || (batches.len() - 1) * SUBSCRIBE_BATCH_SIZE < n,
                forall|i: int|
                    0 <= i < batches.len() ==> #[trigger] batches.deep_view()[i] == all.subrange(
                        i * SUBSCRIBE_BATCH_SIZE,
                        if (i + 1) * SUBSCRIBE_BATCH_SIZE <= all.len() {
                            (i + 1) * SUBSCRIBE_BATCH_SIZE
                        } else {
                            all.len() as int
                        },
                    ),
            decreases n - start,
        {
            let end = if n - start > SUBSCRIBE_BATCH_SIZE {
                start + SUBSCRIBE_BATCH_SIZE
            } else {
                n
            };
            let mut batch: Vec<String> = Vec::new();
            let mut j = start;
            while j < end
                invariant
                    start <= j <= end <= n,
                    n == names@.len(),
                    all == channel_names(kind@, names@),
                    batch@.len() == j - start,
                    forall|k: int| 0 <= k < batch@.len() ==> #[trigger] batch@[k]@ == all[start + k],
                decreases end - j,
            {
                let c = Self::channel_name(kind, names[j].as_str());
                batch.push(c);
                j += 1;
            }
            assert(batch.deep_view() =~= all.subrange(start as int, end as int));
            let ghost old_batches = batches.deep_view();
            batches.push(batch);
            assert(batches.deep_view() =~= old_batches.push(all.subrange(start as int, end as int)));
            start = end;
        }
        batches
    }

    /// Ticker channels for `names`, in batches.
    pub fn ticker_batches(names: &[String]) -> (batches: Vec<Vec<String>>)
        ensures
            is_batching(
                batches.deep_view(),
                channel_names("ticker"@, names@),
                SUBSCRIBE_BATCH_SIZE as int,
            ),
    {
        Self::channel_batches("ticker", names)
    }

    /// Order book channels for `names`, in batches.
    pub fn orderbook_batches(names: &[String]) -> (batches: Vec<Vec<String>>)
        ensures
            is_batching(
                batches.deep_view(),
                channel_names("book"@, names@),
                SUBSCRIBE_BATCH_SIZE as int,
            ),
    {
        Self::channel_batches("book", names)
    }

    /// Trade channels for `names`, in batches.
    pub fn trade_batches(names: &[String]) -> (batches: Vec<Vec<String>>)
        ensures
            is_batching(
                batches.deep_view(),
                channel_names("trades"@, names@),
                SUBSCRIBE_BATCH_SIZE as int,
            ),
    {
        Self::channel_batches("trades", names)
    }
}

} // verus!
