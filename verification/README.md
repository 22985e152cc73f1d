# swaptrade

A verified core for a trading platform: congestion-aware trading fees, an
emergency fee override, fee history, rate limits, liquidity pools, an NFT
marketplace, a price oracle, portfolio analytics, price alerts, waitlists,
referrals and a bug bounty, together with the market-data side: order books,
compression, integrity checks, stored history and its replay, connection
management, load balancing, per-connection rate limits, flood protection,
subscriptions, data-source bookkeeping and data routing.

Every function in `src/` is proved by Verus against its `requires`/`ensures`
contract. Calls into the `crc`, `lz4` and `zstd` crates go through small trusted
wrappers in `src/compression.rs` whose contracts name the results; the token
buckets of the `governor` crate are reached through the wrappers in
`src/rate_limiter.rs`, whose answers depend on the clock and are left open.

Design notes:

- Keyed state (connection buckets, the IP tracker, subscriptions, replay
  sessions, data sources and the contract registries) is held in `Vec`s and
  owned structs in `src/`, with the invariants it needs stated (such as no key
  twice), rather than in `dashmap`'s concurrent maps or the Soroban
  host's `Map`, whose contents the verifier cannot see; declaring those types
  behind trusted methods was not attempted.
- Rate-limit windows are half-open and start on multiples of their length:
  a timestamp on a boundary opens the next window, so the hour of 7200 starts
  at 7200 (not 3600) and the day of 172800 starts at 172800. Power-of-two
  windows computed with a bit mask agree with this, as
  `TimeWindow::fast_window` proves.
- The checksum cache of the integrity checker is an asynchronous `moka`
  cache; it lives in `app/integrity_cache.rs`, beside the verified checker.

Layout:

- `src/` — the verified library, one module per subject.
- `tests/` — tests of the library on concrete values.
- `app/` — code around the library: contract entry points that refuse what
  the library's preconditions exclude, event publishing on the Soroban host (trades, alerts, analytics, fees and
  the marketplace),
  the floating-point views of market data, and the checksum cache.
