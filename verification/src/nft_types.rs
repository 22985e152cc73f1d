//! Records of the NFT marketplace (tokens, collections, listings, offers,
//! fractional shares, loans, trades, portfolios) and the rules each record
//! keeps on its own.
use vstd::prelude::*;
use crate::emergency::AccountId;
use crate::liquidity_pool::TokenId;

verus! {

/// Seconds in a day.
pub const SECONDS_PER_DAY: u64 = 86400;

/// Basis points in a whole.
pub const BPS_DENOMINATOR: u32 = 10000;

/// Token standard.
#[derive(Clone, Copy, Debug, PartialEq, Eq, Structural)]
pub enum NFTStandard {
    /// Single unique token
    ERC721,
    /// Multi-token with a supply
    ERC1155,
}

/// A token.
#[derive(Clone, Debug)]
pub struct NFT {
    pub token_id: u64,
    /// Account of the contract that minted it
    pub contract_address: AccountId,
    pub owner: AccountId,
    pub creator: AccountId,
    pub collection_id: u64,
    pub standard: NFTStandard,
    /// Metadata URI bytes
    pub metadata_uri: Vec<u8>,
    pub is_fractionalized: bool,
    /// Total supply (shares once fractionalized; 1 for a single token)
    pub total_supply: u64,
    /// Circulating supply (shares sold once fractionalized)
    pub circulating_supply: u64,
    pub created_at: u64,
}

/// A collection of tokens.
#[derive(Clone, Debug)]
pub struct NFTCollection {
    pub collection_id: u64,
    pub owner: AccountId,
    pub name: Vec<u8>,
    pub symbol: Vec<u8>,
    pub description: Vec<u8>,
    pub base_uri: Vec<u8>,
    /// Tokens minted in the collection
    pub total_supply: u64,
    pub unique_holders: u32,
    /// Lowest sale price seen (0 before the first sale)
    pub floor_price: i128,
    pub total_volume: i128,
    pub minting_active: bool,
    /// Supply cap (0 for none)
    pub max_supply: u64,
    /// Royalty in basis points
    pub royalty_bps: u32,
    pub royalty_recipient: AccountId,
    pub created_at: u64,
}

/// A marketplace listing (fixed price or auction).
#[derive(Clone, Copy, Debug, PartialEq, Eq, Structural)]
pub struct NFTListing {
    pub listing_id: u64,
    pub token_id: u64,
    pub collection_id: u64,
    pub seller: AccountId,
    pub price: i128,
    pub payment_token: TokenId,
    /// Amount offered (1 for a single token)
    pub amount: u64,
    pub created_at: u64,
    /// Expiry time (0 for none)
    pub expires_at: u64,
    pub is_auction: bool,
    pub min_bid: i128,
    pub highest_bid: i128,
    pub highest_bidder: Option<AccountId>,
    pub is_active: bool,
}

/// An offer to buy a token.
#[derive(Clone, Copy, Debug, PartialEq, Eq, Structural)]
pub struct NFTOffer {
    pub offer_id: u64,
    pub token_id: u64,
    pub collection_id: u64,
    pub buyer: AccountId,
    pub amount: i128,
    pub payment_token: TokenId,
    pub quantity: u64,
    pub created_at: u64,
    pub expires_at: u64,
    pub is_active: bool,
}

/// Shares of a fractionalized token held by one account.
#[derive(Clone, Copy, Debug, PartialEq, Eq, Structural)]
pub struct FractionalShare {
    pub token_id: u64,
    pub collection_id: u64,
    pub shareholder: AccountId,
    pub shares: u64,
    pub total_shares: u64,
    pub purchase_price: i128,
    pub acquired_at: u64,
}

/// A loan against a token.
#[derive(Clone, Copy, Debug, PartialEq, Eq, Structural)]
pub struct NFTLoan {
    pub loan_id: u64,
    pub token_id: u64,
    pub collection_id: u64,
    pub borrower: AccountId,
    pub lender: AccountId,
    pub loan_amount: i128,
    /// Interest in basis points per day
    pub interest_rate_bps: u32,
    pub repayment_amount: i128,
    pub start_time: u64,
    pub duration: u64,
    pub due_date: u64,
    pub is_active: bool,
    pub is_repaid: bool,
    pub is_liquidated: bool,
}

/// A completed trade.
#[derive(Clone, Copy, Debug, PartialEq, Eq, Structural)]
pub struct NFTTrade {
    pub token_id: u64,
    pub collection_id: u64,
    pub seller: AccountId,
    pub buyer: AccountId,
    pub price: i128,
    pub payment_token: TokenId,
    pub quantity: u64,
    pub timestamp: u64,
    pub royalty_amount: i128,
    pub platform_fee: i128,
}

/// Holdings and activity of one account.
#[derive(Clone, Debug)]
pub struct NFTPortfolio {
    pub owner: AccountId,
    pub owned_tokens: Vec<u64>,
    pub collections: Vec<u64>,
    pub total_nfts: u32,
    pub total_value: i128,
    pub trades_count: u32,
    pub volume_traded: i128,
    pub active_listings: u32,
    pub active_offers: u32,
    pub active_loans: u32,
    pub loans_given: u32,
}

/// How a valuation was made.
#[derive(Clone, Copy, Debug, PartialEq, Eq, Structural)]
pub enum ValuationMethod {
    LastSale,
    FloorPrice,
    TraitBased,
    Oracle,
    Manual,
}

/// A valuation of a token.
#[derive(Clone, Copy, Debug, PartialEq, Eq, Structural)]
pub struct NFTValuation {
    pub token_id: u64,
    pub collection_id: u64,
    pub estimated_value: i128,
    pub last_sale_price: i128,
    pub sale_count: u32,
    pub avg_sale_price: i128,
    pub collection_floor: i128,
    pub valued_at: u64,
    pub method: ValuationMethod,
}

/// A metadata attribute.
#[derive(Clone, Debug)]
pub struct NFTTrait {
    pub trait_type: Vec<u8>,
    pub value: Vec<u8>,
    pub rarity_bps: u32,
}

/// Token metadata.
#[derive(Clone, Debug)]
pub struct NFTMetadata {
    pub token_id: u64,
    pub collection_id: u64,
    pub name: Vec<u8>,
    pub description: Vec<u8>,
    pub image_uri: Vec<u8>,
    pub external_url: Vec<u8>,
    pub traits: Vec<NFTTrait>,
    pub animation_url: Vec<u8>,
}

/// Kind of a transfer.
#[derive(Clone, Copy, Debug, PartialEq, Eq, Structural)]
pub enum TransferType {
    Direct,
    Sale,
    Auction,
    Fractional,
    Collateral,
    LoanReturn,
}

/// A transfer record.
#[derive(Clone, Copy, Debug, PartialEq, Eq, Structural)]
pub struct NFTTransfer {
    pub token_id: u64,
    pub collection_id: u64,
    pub from: AccountId,
    pub to: AccountId,
    pub amount: u64,
    pub timestamp: u64,
    pub transfer_type: TransferType,
}

// ---------------------------------------------------------------------
// Arithmetic of amounts
// ---------------------------------------------------------------------

/// An integer clamped to the 128-bit signed range.
pub open spec fn clamp_i128(x: int) -> i128 {
    if x > i128::MAX {
        i128::MAX
    } else if x < i128::MIN {
        i128::MIN
    } else {
        x as i128
    }
}

/// Quotient rounded toward zero (the divisor is positive), as integer
/// division does.
pub open spec fn div_toward_zero(a: int, d: int) -> int {
    if a >= 0 {
        a / d
    } else {
        -((-a) / d)
    }
}

/// `a * bps / 10000`, rounded toward zero.
pub open spec fn bps_of(a: int, bps: int) -> int {
    div_toward_zero(a * bps, 10000)
}

/// The product `a * bps` fits in 128 signed bits.
pub open spec fn bps_fits(a: i128, bps: u32) -> bool {
    i128::MIN <= a * bps <= i128::MAX
}

/// Saturating addition of amounts.
pub fn saturating_add_i128(a: i128, b: i128) -> (r: i128)
    ensures
        r == clamp_i128(a + b),
{
    match a.checked_add(b) {
        Some(s) => s,
        None => {
            if b > 0 {
                i128::MAX
            } else {
                i128::MIN
            }
        },
    }
}

/// `a * bps / 10000`, rounded toward zero.
pub fn mul_bps(a: i128, bps: u32) -> (r: i128)
    requires
        bps_fits(a, bps),
    ensures
        r == bps_of(a as int, bps as int),
{
    let p: i128 = a * (bps as i128);
    if p >= 0 {
        let q: u128 = (p as u128) / 10000;
        proof {
            assert(q <= p);
        }
        q as i128
    } else {
        let m: u128 = ((-(p + 1)) as u128) + 1;
        assert(m == -p);
        let q: u128 = m / 10000;
        proof {
            assert(q <= m);
            assert(q * 10000 <= m) by (nonlinear_arith)
                requires q == m / 10000;
        }
        -(q as i128)
    }
}

// ---------------------------------------------------------------------
// Portfolio
// ---------------------------------------------------------------------

/// `a + 1`, capped at `u32::MAX`.
pub open spec fn sat_inc_u32(a: u32) -> u32 {
    if a == u32::MAX { a } else { (a + 1) as u32 }
}

/// `a - 1`, floored at 0.
pub open spec fn sat_dec_u32(a: u32) -> u32 {
    if a == 0 { 0 } else { (a - 1) as u32 }
}

impl NFTPortfolio {
    /// An empty portfolio.
    pub fn new(owner: AccountId) -> (p: Self)
        ensures
            p.owner == owner,
            p.owned_tokens@ == Seq::<u64>::empty(),
            p.collections@ == Seq::<u64>::empty(),
            p.total_nfts == 0,
            p.total_value == 0,
            p.trades_count == 0,
            p.volume_traded == 0,
            p.active_listings == 0,
            p.active_offers == 0,
            p.active_loans == 0,
            p.loans_given == 0,
    {
        NFTPortfolio {
            owner,
            owned_tokens: Vec::new(),
            collections: Vec::new(),
            total_nfts: 0,
            total_value: 0,
            trades_count: 0,
            volume_traded: 0,
            active_listings: 0,
            active_offers: 0,
            active_loans: 0,
            loans_given: 0,
        }
    }

    /// Add a token: it is appended to the owned tokens, its collection is
    /// appended when not yet present, and the count grows by one (capped).
    pub fn add_nft(&mut self, token_id: u64, collection_id: u64)
        ensures
            final(self).owned_tokens@ == old(self).owned_tokens@.push(token_id),
            final(self).collections@ == (if old(self).collections@.contains(collection_id) {
                old(self).collections@
            } else {
                old(self).collections@.push(collection_id)
            }),
            final(self).total_nfts == sat_inc_u32(old(self).total_nfts),
            final(self).owner == old(self).owner,
            final(self).total_value == old(self).total_value,
            final(self).trades_count == old(self).trades_count,
            final(self).volume_traded == old(self).volume_traded,
            final(self).active_listings == old(self).active_listings,
            final(self).active_offers == old(self).active_offers,
            final(self).active_loans == old(self).active_loans,
            final(self).loans_given == old(self).loans_given,
    {
        self.owned_tokens.push(token_id);
        let mut has_collection = false;
        let mut i: usize = 0;
        while i < self.collections.len()
            invariant
                i <= self.collections.len(),
                has_collection <==> self.collections@.take(i as int).contains(collection_id),
            decreases self.collections.len() - i,
        {
            proof {
                assert(self.collections@.take(i as int + 1) == self.collections@.take(i as int).push(self.collections@[i as int]));
            }
            let c = self.collections[i];
            proof {
                let t = self.collections@.take(i as int);
                if t.push(c).contains(collection_id) && c != collection_id {
                    let k = choose|k: int| 0 <= k < t.push(c).len() && t.push(c)[k] == collection_id;
                    assert(t[k] == collection_id);
                }
                if t.contains(collection_id) {
                    let k = choose|k: int| 0 <= k < t.len() && t[k] == collection_id;
                    assert(t.push(c)[k] == collection_id);
                }
                assert(t.push(c)[t.len() as int] == c);
            }
            if c == collection_id {
                has_collection = true;
            }
            i = i + 1;
        }
        proof {
            assert(self.collections@.take(self.collections@.len() as int) == self.collections@);
        }
        if !has_collection {
            self.collections.push(collection_id);
        }
        self.total_nfts = self.total_nfts.saturating_add(1);
    }

    /// Remove every occurrence of a token; the count drops by one (floored
    /// at 0) whether or not the token was held.
    pub fn remove_nft(&mut self, token_id: u64)
        ensures
            final(self).owned_tokens@ == old(self).owned_tokens@.filter(|t: u64| t != token_id),
            final(self).total_nfts == sat_dec_u32(old(self).total_nfts),
            final(self).collections@ == old(self).collections@,
            final(self).owner == old(self).owner,
            final(self).total_value == old(self).total_value,
            final(self).trades_count == old(self).trades_count,
            final(self).volume_traded == old(self).volume_traded,
            final(self).active_listings == old(self).active_listings,
            final(self).active_offers == old(self).active_offers,
            final(self).active_loans == old(self).active_loans,
            final(self).loans_given == old(self).loans_given,
    {
        let ghost src: Seq<u64> = self.owned_tokens@;
        let mut kept: Vec<u64> = Vec::new();
        let mut i: usize = 0;
        while i < self.owned_tokens.len()
            invariant
                i <= self.owned_tokens.len(),
                self.owned_tokens@ == src,
                kept@ == src.take(i as int).filter(|t: u64| t != token_id),
            decreases self.owned_tokens.len() - i,
        {
            let t = self.owned_tokens[i];
            proof {
                assert(src.take(i as int + 1).drop_last() == src.take(i as int));
                reveal_with_fuel(Seq::filter, 1);
            }
            if t != token_id {
                kept.push(t);
            }
            i = i + 1;
        }
        proof {
            assert(src.take(src.len() as int) == src);
        }
        self.owned_tokens = kept;
        self.total_nfts = self.total_nfts.saturating_sub(1);
    }

    /// Record a trade of a given volume: one more trade (capped) and the
    /// volume added (saturating).
    pub fn record_trade(&mut self, volume: i128)
        ensures
            final(self).trades_count == sat_inc_u32(old(self).trades_count),
            final(self).volume_traded == clamp_i128(old(self).volume_traded + volume),
            final(self).owned_tokens@ == old(self).owned_tokens@,
            final(self).collections@ == old(self).collections@,
            final(self).total_nfts == old(self).total_nfts,
            final(self).owner == old(self).owner,
            final(self).total_value == old(self).total_value,
            final(self).active_listings == old(self).active_listings,
            final(self).active_offers == old(self).active_offers,
            final(self).active_loans == old(self).active_loans,
            final(self).loans_given == old(self).loans_given,
    {
        self.trades_count = self.trades_count.saturating_add(1);
        self.volume_traded = saturating_add_i128(self.volume_traded, volume);
    }

    /// Set the estimated value of the portfolio.
    pub fn update_value(&mut self, new_value: i128)
        ensures
            final(self).total_value == new_value,
            final(self).owned_tokens@ == old(self).owned_tokens@,
            final(self).collections@ == old(self).collections@,
            final(self).total_nfts == old(self).total_nfts,
            final(self).owner == old(self).owner,
            final(self).trades_count == old(self).trades_count,
            final(self).volume_traded == old(self).volume_traded,
            final(self).active_listings == old(self).active_listings,
            final(self).active_offers == old(self).active_offers,
            final(self).active_loans == old(self).active_loans,
            final(self).loans_given == old(self).loans_given,
    {
        self.total_value = new_value;
    }
}

// ---------------------------------------------------------------------
// Collection, token, listing, offer and loan rules
// ---------------------------------------------------------------------

/// Floor price after a sale: the sale price when there is no floor yet or
/// the sale is below it.
pub open spec fn floor_after(floor: i128, price: i128) -> i128 {
    if floor == 0 || price < floor { price } else { floor }
}

impl NFTCollection {
    /// Whether the supply cap is reached (never, without a cap).
    pub fn is_minting_complete(&self) -> (r: bool)
        ensures
            r == (self.max_supply != 0 && self.total_supply >= self.max_supply),
    {
        if self.max_supply == 0 {
            false
        } else {
            self.total_supply >= self.max_supply
        }
    }

    /// Royalty on a sale: `sale_price * royalty_bps / 10000`, rounded
    /// toward zero.
    pub fn calculate_royalty(&self, sale_price: i128) -> (r: i128)
        requires
            bps_fits(sale_price, self.royalty_bps),
        ensures
            r == bps_of(sale_price as int, self.royalty_bps as int),
    {
        mul_bps(sale_price, self.royalty_bps)
    }

    /// Lower the floor price to a sale price below it (or set the first one).
    pub fn update_floor_price(&mut self, new_price: i128)
        ensures
            *final(self) == (NFTCollection { floor_price: floor_after(old(self).floor_price, new_price), ..*old(self) }),
    {
        if self.floor_price == 0 || new_price < self.floor_price {
            self.floor_price = new_price;
        }
    }

    /// Add to the traded volume (saturating).
    pub fn add_volume(&mut self, amount: i128)
        ensures
            *final(self) == (NFTCollection { total_volume: clamp_i128(old(self).total_volume + amount), ..*old(self) }),
    {
        self.total_volume = saturating_add_i128(self.total_volume, amount);
    }
}

impl NFT {
    /// Whether an account owns the token.
    pub fn is_owned_by(&self, address: &AccountId) -> (r: bool)
        ensures
            r == (self.owner == *address),
    {
        self.owner == *address
    }

    /// Whether an account created the token.
    pub fn is_creator(&self, address: &AccountId) -> (r: bool)
        ensures
            r == (self.creator == *address),
    {
        self.creator == *address
    }

    /// Supply not yet in circulation (0 when all of it is).
    pub fn available_fractions(&self) -> (r: u64)
        ensures
            r == (if self.total_supply >= self.circulating_supply { self.total_supply - self.circulating_supply } else { 0 }),
    {
        self.total_supply.saturating_sub(self.circulating_supply)
    }

    /// Whether the token can be split into shares: a single token not yet
    /// fractionalized.
    pub fn can_fractionalize(&self) -> (r: bool)
        ensures
            r == (!self.is_fractionalized && self.standard == NFTStandard::ERC721),
    {
        !self.is_fractionalized && self.standard == NFTStandard::ERC721
    }
}

/// A listing is valid at a time: active and not past a set expiry.
pub open spec fn listing_valid(l: NFTListing, now: u64) -> bool {
    l.is_active && !(l.expires_at > 0 && now > l.expires_at)
}

/// A bid is accepted by a listing: an active auction, above the highest bid
/// and at least the minimum bid.
pub open spec fn bid_accepted(l: NFTListing, bid_amount: i128) -> bool {
    l.is_auction && l.is_active && bid_amount > l.highest_bid && bid_amount >= l.min_bid
}

impl NFTListing {
    /// Whether the listing is valid at a time.
    pub fn is_valid(&self, current_time: u64) -> (r: bool)
        ensures
            r == listing_valid(*self, current_time),
    {
        if !self.is_active {
            return false;
        }
        if self.expires_at > 0 && current_time > self.expires_at {
            return false;
        }
        true
    }

    /// Whether the listing is an active auction.
    pub fn is_valid_auction(&self) -> (r: bool)
        ensures
            r == (self.is_auction && self.is_active),
    {
        self.is_auction && self.is_active
    }

    /// Place a bid: when accepted it becomes the highest bid; otherwise the
    /// listing is unchanged.
    pub fn place_bid(&mut self, bidder: AccountId, bid_amount: i128) -> (r: bool)
        ensures
            r == bid_accepted(*old(self), bid_amount),
            r ==> *final(self) == (NFTListing { highest_bid: bid_amount, highest_bidder: Some(bidder), ..*old(self) }),
            !r ==> *final(self) == *old(self),
    {
        if !self.is_auction || !self.is_active {
            return false;
        }
        if bid_amount <= self.highest_bid || bid_amount < self.min_bid {
            return false;
        }
        self.highest_bid = bid_amount;
        self.highest_bidder = Some(bidder);
        true
    }
}

/// An offer is valid at a time: active and not past its expiry.
pub open spec fn offer_valid(o: NFTOffer, now: u64) -> bool {
    o.is_active && now <= o.expires_at
}

impl NFTOffer {
    /// Whether the offer is valid at a time.
    pub fn is_valid(&self, current_time: u64) -> (r: bool)
        ensures
            r == offer_valid(*self, current_time),
    {
        if !self.is_active {
            return false;
        }
        if current_time > self.expires_at {
            return false;
        }
        true
    }
}

/// Interest accrued at a time: the daily interest (`loan * rate / 10000`,
/// rounded toward zero) times the whole days elapsed since the start; 0 for
/// a loan that is inactive or repaid.
pub open spec fn loan_interest(l: NFTLoan, now: u64) -> int {
    if !l.is_active || l.is_repaid {
        0
    } else {
        let elapsed: int = if now >= l.start_time { now - l.start_time } else { 0 };
        bps_of(l.loan_amount as int, l.interest_rate_bps as int) * (elapsed / 86400)
    }
}

/// The interest computation fits in 128 signed bits.
pub open spec fn interest_fits(l: NFTLoan, now: u64) -> bool {
    (!l.is_active || l.is_repaid) || (bps_fits(l.loan_amount, l.interest_rate_bps)
        && i128::MIN <= loan_interest(l, now) <= i128::MAX)
}

impl NFTLoan {
    /// Whether the loan is past due: active, unpaid and past its due date.
    pub fn is_overdue(&self, current_time: u64) -> (r: bool)
        ensures
            r == (self.is_active && !self.is_repaid && current_time > self.due_date),
    {
        self.is_active && !self.is_repaid && current_time > self.due_date
    }

    /// Interest accrued at a time.
    pub fn calculate_interest(&self, current_time: u64) -> (r: i128)
        requires
            interest_fits(*self, current_time),
        ensures
            r == loan_interest(*self, current_time),
    {
        if !self.is_active || self.is_repaid {
            return 0;
        }
        let elapsed: u64 = current_time.saturating_sub(self.start_time);
        let days_elapsed: u64 = elapsed / SECONDS_PER_DAY;
        let daily_interest: i128 = mul_bps(self.loan_amount, self.interest_rate_bps);
        daily_interest * (days_elapsed as i128)
    }

    /// Principal plus the interest accrued at a time.
    pub fn total_due(&self, current_time: u64) -> (r: i128)
        requires
            interest_fits(*self, current_time),
            i128::MIN <= self.loan_amount + loan_interest(*self, current_time) <= i128::MAX,
        ensures
            r == self.loan_amount + loan_interest(*self, current_time),
    {
        self.loan_amount + self.calculate_interest(current_time)
    }

    /// Whether the collateral may be liquidated: the loan is overdue.
    pub fn can_liquidate(&self, current_time: u64) -> (r: bool)
        ensures
            r == (self.is_active && !self.is_repaid && current_time > self.due_date),
    {
        self.is_active && !self.is_repaid && self.is_overdue(current_time)
    }
}

/// A royalty of at most 100% on a non-negative price is between 0 and the price.
pub proof fn lemma_royalty_at_most_price(price: i128, royalty_bps: u32)
    requires
        price >= 0,
        royalty_bps <= 10000,
    ensures
        0 <= bps_of(price as int, royalty_bps as int) <= price,
{
    assert(price * royalty_bps >= 0) by (nonlinear_arith)
        requires price >= 0;
    assert(price * royalty_bps <= price * 10000) by (nonlinear_arith)
        requires price >= 0, royalty_bps <= 10000;
    assert((price * royalty_bps) / 10000 <= price) by (nonlinear_arith)
        requires price * royalty_bps <= price * 10000, price >= 0;
}

/// The first sale sets the floor price; after that a sale never raises it.
pub proof fn lemma_floor_price_never_rises(floor: i128, price: i128)
    ensures
        floor == 0 ==> floor_after(floor, price) == price,
        floor != 0 ==> floor_after(floor, price) <= floor,
        floor != 0 ==> floor_after(floor, price) <= price || floor_after(floor, price) == floor,
{
}

} // verus!
