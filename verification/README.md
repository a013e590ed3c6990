# deribit

Real-time scanner for arbitrage between BTC options listed on Deribit.

- `src/` is the verified core, checked by Verus: token state and renewal,
  the credit-based request rate limiter, request ids, reconnect backoff and
  message dispatch of the websocket client; the order book; the instrument
  listing; subscription batching; the pairing of consecutive expirations used
  by the calendar analyses; the dashboard's navigation, filtering, ordering
  and keys. Laws that span several functions are stated as proof functions
  next to them.
- `app/` is the program around it: the websocket and terminal I/O, the JSON
  encoding of requests and decoding of replies, the event bus, and the
  analyzers, whose pricing is floating-point arithmetic.
- `tests/` exercises the library on concrete values.

Two collections are kept in forms whose invariants Verus can state and
prove: the instrument registry is a vector in which no two instruments share
a name (a lookup walks it), and the rate limiter holds one credit pool per
request category as a field of its own. Maps keyed by strings were not used,
since vstd gives their operations no specification for `String` keys, and the
three categories are fixed.
