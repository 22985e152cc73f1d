//! Integrity checks on market data: order book shape, contiguous sequence
//! numbers and CRC-32 checksums of payloads; and the checks and dispatch of
//! messages from clients (times in milliseconds).
use vstd::prelude::*;
use crate::compression::{crc32_ieee, crc32_checksum_ieee};
use crate::orderbook::{OrderBookData, PriceLevel, bytes_equal};

verus! {

/// Prices strictly descending.
pub open spec fn strictly_descending(s: Seq<PriceLevel>) -> bool {
    forall|i: int| 0 <= i < s.len() - 1 ==> #[trigger] s[i].price > s[i + 1].price
}

/// Prices strictly ascending.
pub open spec fn strictly_ascending(s: Seq<PriceLevel>) -> bool {
    forall|i: int| 0 <= i < s.len() - 1 ==> #[trigger] s[i].price < s[i + 1].price
}

/// A well-shaped snapshot: bids best (highest) first, asks best (lowest)
/// first, and the best bid below the best ask when both sides have levels.
pub open spec fn book_integrity(b: OrderBookData) -> bool {
    &&& strictly_descending(b.bids@)
    &&& strictly_ascending(b.asks@)
    &&& (b.bids@.len() > 0 && b.asks@.len() > 0 ==> b.bids@[0].price < b.asks@[0].price)
}

/// Whether a snapshot is well shaped.
pub fn validate_order_book_integrity(orderbook: &OrderBookData) -> (r: bool)
    ensures
        r == book_integrity(*orderbook),
{
    let mut i: usize = 1;
    while i < orderbook.bids.len()
        invariant
            1 <= i,
            i <= orderbook.bids@.len() || orderbook.bids@.len() == 0,
            forall|k: int| 0 <= k < i - 1 && k < orderbook.bids@.len() - 1 ==> #[trigger] orderbook.bids@[k].price > orderbook.bids@[k + 1].price,
        decreases orderbook.bids@.len() - i,
    {
        if orderbook.bids[i - 1].price <= orderbook.bids[i].price {
            return false;
        }
        i = i + 1;
    }
    let mut j: usize = 1;
    while j < orderbook.asks.len()
        invariant
            1 <= j,
            j <= orderbook.asks@.len() || orderbook.asks@.len() == 0,
            strictly_descending(orderbook.bids@),
            forall|k: int| 0 <= k < j - 1 && k < orderbook.asks@.len() - 1 ==> #[trigger] orderbook.asks@[k].price < orderbook.asks@[k + 1].price,
        decreases orderbook.asks@.len() - j,
    {
        if orderbook.asks[j - 1].price >= orderbook.asks[j].price {
            return false;
        }
        j = j + 1;
    }
    if orderbook.bids.len() > 0 && orderbook.asks.len() > 0 {
        if orderbook.bids[0].price >= orderbook.asks[0].price {
            return false;
        }
    }
    true
}

/// Each sequence number is one more than the one before it.
pub open spec fn contiguous(s: Seq<u64>) -> bool {
    forall|i: int| 0 <= i < s.len() - 1 ==> #[trigger] s[i + 1] == s[i] + 1
}

/// Checksum cache settings of the integrity checker (the cache itself
/// belongs to the service around it).
pub struct DataIntegrityChecker {
    pub max_cache_size: u64,
}

impl DataIntegrityChecker {
    /// A checker with a cache capacity.
    pub fn new(max_cache_size: u64) -> (c: Self)
        ensures
            c.max_cache_size == max_cache_size,
    {
        DataIntegrityChecker { max_cache_size }
    }

    /// Whether the CRC-32 of the data is the expected checksum.
    pub fn verify_data_integrity(&self, data: &[u8], expected_checksum: u32) -> (r: bool)
        ensures
            r == (crc32_ieee(data@) == expected_checksum),
    {
        crc32_checksum_ieee(data) == expected_checksum
    }

    /// Whether a run of messages is intact: sequence numbers have no gaps
    /// and each payload's CRC-32 is its checksum. An empty run is intact.
    /// (Every number but the last must be below `u64::MAX`.)
    pub fn verify_sequence_integrity(&self, sequences: &Vec<u64>, payloads: &Vec<Vec<u8>>, checksums: &Vec<u32>) -> (r: bool)
        requires
            payloads@.len() == sequences@.len(),
            checksums@.len() == sequences@.len(),
            forall|i: int| 0 <= i < sequences@.len() - 1 ==> #[trigger] sequences@[i] < u64::MAX,
        ensures
            r == (contiguous(sequences@) && forall|i: int| 0 <= i < payloads@.len() ==> crc32_ieee(#[trigger] payloads@[i]@) == checksums@[i]),
    {
        let n = sequences.len();
        if n == 0 {
            return true;
        }
        let mut i: usize = 1;
        while i < n
            invariant
                n == sequences@.len(),
                1 <= i <= n,
                forall|k: int| 0 <= k < n - 1 ==> #[trigger] sequences@[k] < u64::MAX,
                forall|k: int| 0 <= k < i - 1 ==> #[trigger] sequences@[k + 1] == sequences@[k] + 1,
            decreases n - i,
        {
            if sequences[i] != sequences[i - 1] + 1 {
                proof {
                    let k: int = i - 1;
                    assert(sequences@[k + 1] != sequences@[k] + 1);
                }
                return false;
            }
            i = i + 1;
        }
        let mut j: usize = 0;
        while j < n
            invariant
                n == sequences@.len(),
                n == payloads@.len(),
                n == checksums@.len(),
                j <= n,
                contiguous(sequences@),
                forall|k: int| 0 <= k < j ==> crc32_ieee(#[trigger] payloads@[k]@) == checksums@[k],
            decreases n - j,
        {
            if crc32_checksum_ieee(payloads[j].as_slice()) != checksums[j] {
                proof {
                    assert(crc32_ieee(payloads@[j as int]@) != checksums@[j as int]);
                }
                return false;
            }
            j = j + 1;
        }
        true
    }
}

/// Kinds of messages exchanged with clients.
#[derive(Clone, Copy, Debug, PartialEq, Eq, Structural)]
pub enum MessageType {
    MarketData,
    Subscribe,
    Unsubscribe,
    Heartbeat,
    Error,
}

/// What the server does with a client's message.
#[derive(Clone, Copy, Debug, PartialEq, Eq, Structural)]
pub enum MessageAction {
    HandleSubscription,
    HandleUnsubscription,
    SendHeartbeat,
    /// Not a message a client sends: logged and dropped.
    Ignore,
}

/// Largest message accepted by default, in bytes.
pub const MAX_MESSAGE_SIZE: usize = 1048576;

/// Clock drift allowed by default between a message and the server.
pub const MAX_TIMESTAMP_DRIFT_MS: u64 = 60000;

/// Whether a time is within `max_drift_ms` of `now`, either way.
pub open spec fn within_drift(timestamp: i64, now: i64, max_drift_ms: u64) -> bool {
    -(max_drift_ms as int) <= now - timestamp <= max_drift_ms
}

/// Whether a message's time is close enough to the server's clock.
pub fn validate_timestamp(timestamp: i64, now: i64, max_drift_ms: u64) -> (r: bool)
    ensures
        r == within_drift(timestamp, now, max_drift_ms),
{
    let drift: i128 = now as i128 - timestamp as i128;
    let bound: i128 = max_drift_ms as i128;
    -bound <= drift && drift <= bound
}

/// Whether a client's message may be processed: no larger than
/// `max_message_size`, timely, and, for market data and subscription
/// requests, with a payload that decodes and passes its own checks (as
/// `payload_valid` reports); heartbeats and errors need no payload.
pub fn validate_websocket_message(
    message_type: MessageType,
    payload_len: usize,
    timestamp: i64,
    now: i64,
    max_message_size: usize,
    max_drift_ms: u64,
    payload_valid: bool,
) -> (r: bool)
    ensures
        r == (payload_len <= max_message_size && within_drift(timestamp, now, max_drift_ms) && match message_type {
            MessageType::MarketData | MessageType::Subscribe | MessageType::Unsubscribe => payload_valid,
            MessageType::Heartbeat | MessageType::Error => true,
        }),
{
    if payload_len > max_message_size {
        return false;
    }
    if !validate_timestamp(timestamp, now, max_drift_ms) {
        return false;
    }
    match message_type {
        MessageType::MarketData => payload_valid,
        MessageType::Subscribe | MessageType::Unsubscribe => payload_valid,
        MessageType::Heartbeat | MessageType::Error => true,
    }
}

/// What to do with a client's message: subscription requests are handled,
/// heartbeats answered, and anything else dropped.
pub fn process_message(message_type: MessageType) -> (a: MessageAction)
    ensures
        a == match message_type {
            MessageType::Subscribe => MessageAction::HandleSubscription,
            MessageType::Unsubscribe => MessageAction::HandleUnsubscription,
            MessageType::Heartbeat => MessageAction::SendHeartbeat,
            _ => MessageAction::Ignore,
        },
{
    match message_type {
        MessageType::Subscribe => MessageAction::HandleSubscription,
        MessageType::Unsubscribe => MessageAction::HandleUnsubscription,
        MessageType::Heartbeat => MessageAction::SendHeartbeat,
        _ => MessageAction::Ignore,
    }
}

/// No trade id occurs twice.
pub open spec fn ids_distinct(ids: Seq<Vec<u8>>) -> bool {
    forall|i: int, j: int| 0 <= i < j < ids.len() ==> ids[i]@ != ids[j]@
}

/// Whether the trades of a sequence, given by their ids, carry distinct
/// ids (the part of a trade-sequence check that is not about prices).
pub fn trade_ids_distinct(trade_ids: &Vec<Vec<u8>>) -> (r: bool)
    ensures
        r == ids_distinct(trade_ids@),
{
    let n = trade_ids.len();
    let mut j: usize = 0;
    while j < n
        invariant
            j <= n,
            n == trade_ids@.len(),
            forall|a: int, b: int| 0 <= a < b < j ==> trade_ids@[a]@ != trade_ids@[b]@,
        decreases n - j,
    {
        let mut i: usize = 0;
        while i < j
            invariant
                i <= j < n,
                n == trade_ids@.len(),
                forall|a: int| 0 <= a < i ==> trade_ids@[a]@ != trade_ids@[j as int]@,
            decreases j - i,
        {
            if bytes_equal(&trade_ids[i], &trade_ids[j]) {
                return false;
            }
            i = i + 1;
        }
        j = j + 1;
    }
    true
}

} // verus!
