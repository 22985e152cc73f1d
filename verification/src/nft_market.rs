//! The NFT marketplace: collections and minting, listings, auctions and
//! offers with royalty and platform fees, and fractional ownership.
//!
//! All state lives in one `NftMarketplace` value. Collections, tokens,
//! listings and offers receive consecutive ids from 1, and the record with
//! id `k` sits at position `k - 1` of its registry.
use vstd::prelude::*;
use crate::emergency::AccountId;
use crate::liquidity_pool::TokenId;
use crate::nft_errors::NFTError;
use crate::nft_types::{NFT, NFTCollection, NFTListing, NFTOffer, FractionalShare, NFTLoan, NFTTrade,
    NFTPortfolio, NFTStandard, clamp_i128, bps_of, bps_fits, mul_bps, saturating_add_i128, sat_inc_u32,
    sat_dec_u32, floor_after, listing_valid, offer_valid};


verus! {

/// Default listing duration (7 days).
pub const DEFAULT_LISTING_DURATION: u64 = 604800;
/// Default offer duration (3 days).
pub const DEFAULT_OFFER_DURATION: u64 = 259200;
/// Maximum listing duration (30 days).
pub const MAX_LISTING_DURATION: u64 = 2592000;
/// Maximum offer duration (7 days).
pub const MAX_OFFER_DURATION: u64 = 604800;
/// Maximum royalty (10%).
pub const MAX_ROYALTY_BPS: u32 = 1000;
/// Maximum supply cap of a collection.
pub const MAX_COLLECTION_SUPPLY: u64 = 1000000;
/// Maximum number of shares of a fractionalized token.
pub const MAX_SHARES: u64 = 1000000;
/// Minimum number of shares of a fractionalized token.
pub const MIN_SHARES: u64 = 2;
/// Default platform fee (2.5%).
pub const DEFAULT_PLATFORM_FEE_BPS: u32 = 250;

/// A token held by an account, in the order the account acquired it.
#[derive(Clone, Copy, Debug, PartialEq, Eq, Structural)]
pub struct OwnedToken {
    pub owner: AccountId,
    pub collection_id: u64,
    pub token_id: u64,
}

/// A collection recorded for the account that created it.
#[derive(Clone, Copy, Debug, PartialEq, Eq, Structural)]
pub struct OwnedCollection {
    pub owner: AccountId,
    pub collection_id: u64,
}

/// Mathematical view of a portfolio.
pub struct PortfolioView {
    pub owner: AccountId,
    pub owned_tokens: Seq<u64>,
    pub collections: Seq<u64>,
    pub total_nfts: u32,
    pub total_value: i128,
    pub trades_count: u32,
    pub volume_traded: i128,
    pub active_listings: u32,
    pub active_offers: u32,
    pub active_loans: u32,
    pub loans_given: u32,
}

impl NFTPortfolio {
    pub open spec fn view(&self) -> PortfolioView {
        PortfolioView {
            owner: self.owner,
            owned_tokens: self.owned_tokens@,
            collections: self.collections@,
            total_nfts: self.total_nfts,
            total_value: self.total_value,
            trades_count: self.trades_count,
            volume_traded: self.volume_traded,
            active_listings: self.active_listings,
            active_offers: self.active_offers,
            active_loans: self.active_loans,
            loans_given: self.loans_given,
        }
    }
}

/// The portfolio of an account that has none yet.
pub open spec fn empty_portfolio(owner: AccountId) -> PortfolioView {
    PortfolioView {
        owner,
        owned_tokens: Seq::empty(),
        collections: Seq::empty(),
        total_nfts: 0,
        total_value: 0,
        trades_count: 0,
        volume_traded: 0,
        active_listings: 0,
        active_offers: 0,
        active_loans: 0,
        loans_given: 0,
    }
}

/// The portfolio of an account (the last record of it; empty when none).
pub open spec fn portfolio_of(ps: Seq<NFTPortfolio>, owner: AccountId) -> PortfolioView
    decreases ps.len(),
{
    if ps.len() == 0 {
        empty_portfolio(owner)
    } else if ps.last().owner == owner {
        ps.last()@
    } else {
        portfolio_of(ps.drop_last(), owner)
    }
}

/// The portfolio of `owner` became `v` and every other portfolio is kept.
pub open spec fn portfolio_set(old_ps: Seq<NFTPortfolio>, new_ps: Seq<NFTPortfolio>, owner: AccountId, v: PortfolioView) -> bool {
    &&& portfolio_of(new_ps, owner) == v
    &&& forall|b: AccountId| b != owner ==> #[trigger] portfolio_of(new_ps, b) == portfolio_of(old_ps, b)
}

/// The shares of an account in a token (the last record; none when absent).
pub open spec fn share_of(s: Seq<FractionalShare>, collection_id: u64, token_id: u64, holder: AccountId) -> Option<FractionalShare>
    decreases s.len(),
{
    if s.len() == 0 {
        None
    } else if s.last().collection_id == collection_id && s.last().token_id == token_id && s.last().shareholder == holder {
        Some(s.last())
    } else {
        share_of(s.drop_last(), collection_id, token_id, holder)
    }
}

/// The share record of `(collection_id, token_id, holder)` became `v` and
/// every other record is kept.
pub open spec fn share_set(old_s: Seq<FractionalShare>, new_s: Seq<FractionalShare>, collection_id: u64, token_id: u64, holder: AccountId, v: Option<FractionalShare>) -> bool {
    &&& share_of(new_s, collection_id, token_id, holder) == v
    &&& forall|c: u64, t: u64, h: AccountId| !(c == collection_id && t == token_id && h == holder)
        ==> #[trigger] share_of(new_s, c, t, h) == share_of(old_s, c, t, h)
}

/// Whether a share record belongs to a token.
pub open spec fn share_of_token(s: FractionalShare, collection_id: u64, token_id: u64) -> bool {
    s.collection_id == collection_id && s.token_id == token_id
}

/// Whether a loan was ever recorded against a token (the collateral index
/// is never cleared).
pub open spec fn collateralized(loans: Seq<NFTLoan>, collection_id: u64, token_id: u64) -> bool {
    exists|i: int| 0 <= i < loans.len() && (#[trigger] loans[i]).collection_id == collection_id && loans[i].token_id == token_id
}

/// Whether token `token_id` exists in collection `collection_id`.
pub open spec fn nft_exists(nfts: Seq<NFT>, collection_id: u64, token_id: u64) -> bool {
    1 <= token_id <= nfts.len() && nfts[token_id - 1].collection_id == collection_id
}

/// Whether collection `collection_id` exists.
pub open spec fn collection_exists(cols: Seq<NFTCollection>, collection_id: u64) -> bool {
    1 <= collection_id <= cols.len()
}

/// Whether listing `listing_id` exists.
pub open spec fn listing_exists(ls: Seq<NFTListing>, listing_id: u64) -> bool {
    1 <= listing_id <= ls.len()
}

/// Whether offer `offer_id` exists.
pub open spec fn offer_exists(os: Seq<NFTOffer>, offer_id: u64) -> bool {
    1 <= offer_id <= os.len()
}

/// `a + 1`, capped at `u64::MAX`.
pub open spec fn sat_inc_u64(a: u64) -> u64 {
    if a == u64::MAX { a } else { (a + 1) as u64 }
}

/// `a - 1`, floored at 0.
pub open spec fn sat_dec_u64(a: u64) -> u64 {
    if a == 0 { 0 } else { (a - 1) as u64 }
}

/// `a + b`, capped at `u64::MAX`.
pub open spec fn sat_add_u64(a: u64, b: u64) -> u64 {
    if a + b > u64::MAX { u64::MAX } else { (a + b) as u64 }
}

/// `a - b`, floored at 0.
pub open spec fn sat_sub_u64(a: u64, b: u64) -> u64 {
    if a >= b { (a - b) as u64 } else { 0 }
}

/// The whole marketplace state.
pub struct NftMarketplace {
    /// Account of the marketplace contract itself
    pub contract_address: AccountId,
    pub paused: bool,
    pub platform_fee_bps: u32,
    pub fee_recipient: Option<AccountId>,
    /// Accounts frozen by an administrator
    pub frozen: Vec<AccountId>,
    /// Collection `k` at position `k - 1`
    pub collections: Vec<NFTCollection>,
    /// Collections by creating account
    pub collection_owners: Vec<OwnedCollection>,
    /// Token `k` at position `k - 1`
    pub nfts: Vec<NFT>,
    /// Tokens by holding account
    pub owned_tokens: Vec<OwnedToken>,
    /// Listing `k` at position `k - 1`
    pub listings: Vec<NFTListing>,
    pub active_listing_count: u64,
    /// Offer `k` at position `k - 1`
    pub offers: Vec<NFTOffer>,
    pub active_offer_count: u64,
    pub loans: Vec<NFTLoan>,
    pub active_loan_count: u64,
    pub trades: Vec<NFTTrade>,
    pub total_trade_volume: i128,
    pub shares: Vec<FractionalShare>,
    /// Whether the share registry has been created (by a fractionalization)
    pub shares_initialized: bool,
    pub portfolios: Vec<NFTPortfolio>,
}

impl NftMarketplace {
    /// Ids match positions in every registry.
    pub open spec fn wf(&self) -> bool {
        &&& forall|i: int| 0 <= i < self.collections@.len() ==> (#[trigger] self.collections@[i]).collection_id == i + 1
        &&& forall|i: int| 0 <= i < self.nfts@.len() ==> (#[trigger] self.nfts@[i]).token_id == i + 1
        &&& forall|i: int| 0 <= i < self.listings@.len() ==> (#[trigger] self.listings@[i]).listing_id == i + 1
        &&& forall|i: int| 0 <= i < self.offers@.len() ==> (#[trigger] self.offers@[i]).offer_id == i + 1
    }

    /// Settings and loans are kept.
    pub open spec fn keeps_settings(&self, o: &Self) -> bool {
        &&& self.contract_address == o.contract_address
        &&& self.paused == o.paused
        &&& self.platform_fee_bps == o.platform_fee_bps
        &&& self.fee_recipient == o.fee_recipient
        &&& self.frozen@ == o.frozen@
        &&& self.loans@ == o.loans@
        &&& self.active_loan_count == o.active_loan_count
    }

    /// Collections and their owner index are kept.
    pub open spec fn keeps_collections(&self, o: &Self) -> bool {
        &&& self.collections@ == o.collections@
        &&& self.collection_owners@ == o.collection_owners@
    }

    /// Tokens and their holder index are kept.
    pub open spec fn keeps_tokens(&self, o: &Self) -> bool {
        &&& self.nfts@ == o.nfts@
        &&& self.owned_tokens@ == o.owned_tokens@
    }

    /// Listings and offers are kept.
    pub open spec fn keeps_market(&self, o: &Self) -> bool {
        &&& self.listings@ == o.listings@
        &&& self.active_listing_count == o.active_listing_count
        &&& self.offers@ == o.offers@
        &&& self.active_offer_count == o.active_offer_count
    }

    /// Trade history is kept.
    pub open spec fn keeps_trades(&self, o: &Self) -> bool {
        &&& self.trades@ == o.trades@
        &&& self.total_trade_volume == o.total_trade_volume
    }

    /// Fractional shares are kept.
    pub open spec fn keeps_shares(&self, o: &Self) -> bool {
        &&& self.shares@ == o.shares@
        &&& self.shares_initialized == o.shares_initialized
    }

    /// Portfolios are kept.
    pub open spec fn keeps_portfolios(&self, o: &Self) -> bool {
        self.portfolios@ == o.portfolios@
    }

    /// An empty marketplace, not paused, with the default platform fee.
    pub fn new(contract_address: AccountId) -> (m: Self)
        ensures
            m.wf(),
            m.contract_address == contract_address,
            !m.paused,
            m.platform_fee_bps == DEFAULT_PLATFORM_FEE_BPS,
            m.fee_recipient is None,
            m.frozen@.len() == 0,
            m.collections@.len() == 0,
            m.collection_owners@.len() == 0,
            m.nfts@.len() == 0,
            m.owned_tokens@.len() == 0,
            m.listings@.len() == 0,
            m.active_listing_count == 0,
            m.offers@.len() == 0,
            m.active_offer_count == 0,
            m.loans@.len() == 0,
            m.active_loan_count == 0,
            m.trades@.len() == 0,
            m.total_trade_volume == 0,
            m.shares@.len() == 0,
            !m.shares_initialized,
            m.portfolios@.len() == 0,
    {
        NftMarketplace {
            contract_address,
            paused: false,
            platform_fee_bps: DEFAULT_PLATFORM_FEE_BPS,
            fee_recipient: None,
            frozen: Vec::new(),
            collections: Vec::new(),
            collection_owners: Vec::new(),
            nfts: Vec::new(),
            owned_tokens: Vec::new(),
            listings: Vec::new(),
            active_listing_count: 0,
            offers: Vec::new(),
            active_offer_count: 0,
            loans: Vec::new(),
            active_loan_count: 0,
            trades: Vec::new(),
            total_trade_volume: 0,
            shares: Vec::new(),
            shares_initialized: false,
            portfolios: Vec::new(),
        }
    }

    // -----------------------------------------------------------------
    // Settings
    // -----------------------------------------------------------------

    /// Whether the marketplace is paused.
    pub fn is_marketplace_paused(&self) -> (r: bool)
        ensures
            r == self.paused,
    {
        self.paused
    }

    /// Pause or resume the marketplace.
    pub fn set_marketplace_paused(&mut self, paused: bool)
        ensures
            *final(self) == (NftMarketplace { paused, ..*old(self) }),
    {
        self.paused = paused;
    }

    /// Platform fee in basis points.
    pub fn get_platform_fee_bps(&self) -> (r: u32)
        ensures
            r == self.platform_fee_bps,
    {
        self.platform_fee_bps
    }

    /// Set the platform fee.
    pub fn set_platform_fee_bps(&mut self, fee_bps: u32)
        ensures
            *final(self) == (NftMarketplace { platform_fee_bps: fee_bps, ..*old(self) }),
    {
        self.platform_fee_bps = fee_bps;
    }

    /// Account receiving platform fees, if set.
    pub fn get_fee_recipient(&self) -> (r: Option<AccountId>)
        ensures
            r == self.fee_recipient,
    {
        self.fee_recipient
    }

    /// Set the account receiving platform fees.
    pub fn set_fee_recipient(&mut self, recipient: AccountId)
        ensures
            *final(self) == (NftMarketplace { fee_recipient: Some(recipient), ..*old(self) }),
    {
        self.fee_recipient = Some(recipient);
    }

    /// Whether an account is frozen.
    pub fn is_frozen(&self, account: AccountId) -> (r: bool)
        ensures
            r == self.frozen@.contains(account),
    {
        let mut i: usize = 0;
        while i < self.frozen.len()
            invariant
                i <= self.frozen.len(),
                forall|j: int| 0 <= j < i ==> self.frozen@[j] != account,
            decreases self.frozen.len() - i,
        {
            if self.frozen[i] == account {
                return true;
            }
            i = i + 1;
        }
        false
    }

    /// Freeze an account (once) or unfreeze it (every record of it).
    pub fn set_frozen(&mut self, account: AccountId, frozen: bool)
        requires
            old(self).wf(),
        ensures
            final(self).wf(),
            final(self).frozen@.contains(account) == frozen,
            forall|b: AccountId| b != account ==> #[trigger] final(self).frozen@.contains(b) == old(self).frozen@.contains(b),
            final(self).keeps_collections(old(self)),
            final(self).keeps_tokens(old(self)),
            final(self).keeps_market(old(self)),
            final(self).keeps_trades(old(self)),
            final(self).keeps_shares(old(self)),
            final(self).keeps_portfolios(old(self)),
            final(self).paused == old(self).paused,
            final(self).platform_fee_bps == old(self).platform_fee_bps,
            final(self).loans@ == old(self).loans@,
    {
        if frozen {
            if !self.is_frozen(account) {
                let ghost before: Seq<AccountId> = self.frozen@;
                self.frozen.push(account);
                proof {
                    assert(self.frozen@[before.len() as int] == account);
                    assert forall|b: AccountId| b != account implies #[trigger] self.frozen@.contains(b) == before.contains(b) by {
                        if self.frozen@.contains(b) {
                            let k = choose|k: int| 0 <= k < self.frozen@.len() && self.frozen@[k] == b;
                            assert(before[k] == b);
                        }
                        if before.contains(b) {
                            let k = choose|k: int| 0 <= k < before.len() && before[k] == b;
                            assert(self.frozen@[k] == b);
                        }
                    }
                }
            }
        } else {
            let ghost src: Seq<AccountId> = self.frozen@;
            let mut kept: Vec<AccountId> = Vec::new();
            let mut i: usize = 0;
            while i < self.frozen.len()
                invariant
                    i <= self.frozen.len(),
                    self.frozen@ == src,
                    kept@ == src.take(i as int).filter(|a: AccountId| a != account),
                decreases self.frozen.len() - i,
            {
                let a = self.frozen[i];
                proof {
                    assert(src.take(i as int + 1).drop_last() == src.take(i as int));
                    reveal_with_fuel(Seq::filter, 1);
                }
                if a != account {
                    kept.push(a);
                }
                i = i + 1;
            }
            proof {
                assert(src.take(src.len() as int) == src);
                let p = |a: AccountId| a != account;
                assert forall|b: AccountId| #[trigger] kept@.contains(b) == (src.contains(b) && b != account) by {
                    broadcast use vstd::seq_lib::group_filter_ensures;
                    if kept@.contains(b) {
                        src.lemma_filter_contains_rev(p, b);
                        let k = choose|k: int| 0 <= k < kept@.len() && kept@[k] == b;
                        assert(p(src.filter(p)[k]));
                    }
                    if src.contains(b) && b != account {
                        let k = choose|k: int| 0 <= k < src.len() && src[k] == b;
                        assert(src.filter(p).contains(src[k]));
                    }
                }
            }
            self.frozen = kept;
        }
    }
}

// ---------------------------------------------------------------------
// Collections and minting
// ---------------------------------------------------------------------

/// Two collections hold the same values.
pub open spec fn same_collection(a: NFTCollection, b: NFTCollection) -> bool {
    &&& a.collection_id == b.collection_id
    &&& a.owner == b.owner
    &&& a.name@ == b.name@
    &&& a.symbol@ == b.symbol@
    &&& a.description@ == b.description@
    &&& a.base_uri@ == b.base_uri@
    &&& a.total_supply == b.total_supply
    &&& a.unique_holders == b.unique_holders
    &&& a.floor_price == b.floor_price
    &&& a.total_volume == b.total_volume
    &&& a.minting_active == b.minting_active
    &&& a.max_supply == b.max_supply
    &&& a.royalty_bps == b.royalty_bps
    &&& a.royalty_recipient == b.royalty_recipient
    &&& a.created_at == b.created_at
}

/// Two tokens hold the same values.
pub open spec fn same_nft(a: NFT, b: NFT) -> bool {
    &&& a.token_id == b.token_id
    &&& a.contract_address == b.contract_address
    &&& a.owner == b.owner
    &&& a.creator == b.creator
    &&& a.collection_id == b.collection_id
    &&& a.standard == b.standard
    &&& a.metadata_uri@ == b.metadata_uri@
    &&& a.is_fractionalized == b.is_fractionalized
    &&& a.total_supply == b.total_supply
    &&& a.circulating_supply == b.circulating_supply
    &&& a.created_at == b.created_at
}

/// Ids of the collections recorded for an account, in creation order.
pub open spec fn collections_of(s: Seq<OwnedCollection>, owner: AccountId) -> Seq<u64>
    decreases s.len(),
{
    if s.len() == 0 {
        Seq::empty()
    } else if s.last().owner == owner {
        collections_of(s.drop_last(), owner).push(s.last().collection_id)
    } else {
        collections_of(s.drop_last(), owner)
    }
}

/// `(collection_id, token_id)` of the tokens held by an account, in the
/// order it acquired them.
pub open spec fn tokens_of(s: Seq<OwnedToken>, owner: AccountId) -> Seq<(u64, u64)>
    decreases s.len(),
{
    if s.len() == 0 {
        Seq::empty()
    } else if s.last().owner == owner {
        tokens_of(s.drop_last(), owner).push((s.last().collection_id, s.last().token_id))
    } else {
        tokens_of(s.drop_last(), owner)
    }
}

/// Why a collection cannot be created, checked in this order.
pub open spec fn create_collection_error(m: NftMarketplace, owner: AccountId, name_len: nat, max_supply: u64, royalty_bps: u32) -> Option<NFTError> {
    if m.paused {
        Some(NFTError::MarketplacePaused)
    } else if m.frozen@.contains(owner) {
        Some(NFTError::UserFrozen)
    } else if name_len == 0 {
        Some(NFTError::InvalidMetadata)
    } else if royalty_bps > MAX_ROYALTY_BPS {
        Some(NFTError::ExcessiveRoyalty)
    } else if max_supply > MAX_COLLECTION_SUPPLY {
        Some(NFTError::MaxSupplyReached)
    } else {
        None
    }
}

/// Amount minted for a standard and a requested amount (a single token is
/// always 1), or none when the amount is invalid.
pub open spec fn mint_amount(standard: NFTStandard, amount: u64) -> Option<u64> {
    match standard {
        NFTStandard::ERC721 => if amount != 1 && amount != 0 { None } else { Some(1) },
        NFTStandard::ERC1155 => if amount == 0 { None } else { Some(amount) },
    }
}

/// Why a token cannot be minted, checked in this order.
pub open spec fn mint_error(m: NftMarketplace, creator: AccountId, collection_id: u64, standard: NFTStandard, amount: u64) -> Option<NFTError> {
    if m.paused {
        Some(NFTError::MarketplacePaused)
    } else if m.frozen@.contains(creator) {
        Some(NFTError::UserFrozen)
    } else if !collection_exists(m.collections@, collection_id) {
        Some(NFTError::CollectionNotFound)
    } else if m.collections@[collection_id - 1].owner != creator {
        Some(NFTError::NotCreator)
    } else if !m.collections@[collection_id - 1].minting_active {
        Some(NFTError::MintingNotActive)
    } else if m.collections@[collection_id - 1].max_supply > 0
        && m.collections@[collection_id - 1].total_supply >= m.collections@[collection_id - 1].max_supply {
        Some(NFTError::MaxSupplyReached)
    } else if mint_amount(standard, amount) is None {
        Some(NFTError::InvalidAmount)
    } else {
        None
    }
}

/// Why a batch of `n` single mints is refused as a whole: nothing is
/// checked for an empty batch; otherwise the first mint's error, or the
/// supply cap when the batch would pass it.
pub open spec fn batch_error(m: NftMarketplace, creator: AccountId, collection_id: u64, standard: NFTStandard, n: int) -> Option<NFTError> {
    if n == 0 {
        None
    } else if mint_error(m, creator, collection_id, standard, 1) is Some {
        mint_error(m, creator, collection_id, standard, 1)
    } else if m.collections@[collection_id - 1].max_supply > 0
        && m.collections@[collection_id - 1].total_supply + n > m.collections@[collection_id - 1].max_supply {
        Some(NFTError::MaxSupplyReached)
    } else {
        None
    }
}

/// `a + n`, capped at `u64::MAX`.
pub open spec fn sat_add_n_u64(a: u64, n: int) -> u64 {
    if a + n > u64::MAX { u64::MAX } else { (a + n) as u64 }
}

/// `a + n`, capped at `u32::MAX`.
pub open spec fn sat_add_n_u32(a: u32, n: int) -> u32 {
    if a + n > u32::MAX { u32::MAX } else { (a + n) as u32 }
}

/// Token `token_id` is a fresh single token of `creator` in the collection.
pub open spec fn freshly_minted(t: NFT, m: NftMarketplace, creator: AccountId, collection_id: u64, standard: NFTStandard, token_id: u64, uri: Seq<u8>, now: u64) -> bool {
    &&& t.token_id == token_id
    &&& t.contract_address == m.contract_address
    &&& t.owner == creator
    &&& t.creator == creator
    &&& t.collection_id == collection_id
    &&& t.standard == standard
    &&& t.metadata_uri@ == uri
    &&& !t.is_fractionalized
    &&& t.total_supply == 1
    &&& t.circulating_supply == 1
    &&& t.created_at == now
}

/// The state after `k` mints of a batch, relative to the state before it.
pub open spec fn batch_progress(
    m0: NftMarketplace,
    m: NftMarketplace,
    creator: AccountId,
    collection_id: u64,
    standard: NFTStandard,
    uris: Seq<Vec<u8>>,
    k: int,
    now: u64,
) -> bool {
    let base = m0.nfts@.len();
    let col = m0.collections@[collection_id - 1];
    let p0 = portfolio_of(m0.portfolios@, creator);
    let ids = Seq::new(k as nat, |i: int| (base + 1 + i) as u64);
    &&& m.wf()
    &&& m.nfts@.len() == base + k
    &&& m.nfts@.take(base as int) == m0.nfts@
    &&& forall|i: int| 0 <= i < k ==> freshly_minted(#[trigger] m.nfts@[base + i], m0, creator, collection_id, standard, (base + 1 + i) as u64, uris[i]@, now)
    &&& m.owned_tokens@ == m0.owned_tokens@ + Seq::new(k as nat, |i: int| OwnedToken { owner: creator, collection_id, token_id: (base + 1 + i) as u64 })
    &&& m.collections@ == m0.collections@.update(collection_id - 1, NFTCollection { total_supply: sat_add_n_u64(col.total_supply, k), ..col })
    &&& m.collection_owners@ == m0.collection_owners@
    &&& portfolio_set(m0.portfolios@, m.portfolios@, creator, PortfolioView {
        owned_tokens: p0.owned_tokens + ids,
        collections: if k > 0 && !p0.collections.contains(collection_id) { p0.collections.push(collection_id) } else { p0.collections },
        total_nfts: sat_add_n_u32(p0.total_nfts, k),
        ..p0
    })
    &&& m.keeps_settings(&m0)
    &&& m.keeps_market(&m0)
    &&& m.keeps_trades(&m0)
    &&& m.keeps_shares(&m0)
}

/// Why a collection owner's change is refused: the collection is missing
/// or belongs to someone else.
pub open spec fn collection_owner_error(m: NftMarketplace, owner: AccountId, collection_id: u64) -> Option<NFTError> {
    if !collection_exists(m.collections@, collection_id) {
        Some(NFTError::CollectionNotFound)
    } else if m.collections@[collection_id - 1].owner != owner {
        Some(NFTError::NotOwner)
    } else {
        None
    }
}

impl NftMarketplace {
    /// Create a collection owned by `owner`, with minting active, no sales
    /// yet and the next collection id.
    pub fn create_collection(
        &mut self,
        owner: AccountId,
        name: Vec<u8>,
        symbol: Vec<u8>,
        description: Vec<u8>,
        base_uri: Vec<u8>,
        max_supply: u64,
        royalty_bps: u32,
        royalty_recipient: AccountId,
        now: u64,
    ) -> (r: Result<u64, NFTError>)
        requires
            old(self).wf(),
            old(self).collections@.len() < u64::MAX,
        ensures
            final(self).wf(),
            create_collection_error(*old(self), owner, name@.len(), max_supply, royalty_bps) matches Some(e)
                ==> r == Err::<u64, NFTError>(e) && *final(self) == *old(self),
            create_collection_error(*old(self), owner, name@.len(), max_supply, royalty_bps) is None ==> {
                let id = (old(self).collections@.len() + 1) as u64;
                &&& r == Ok::<u64, NFTError>(id)
                &&& final(self).collections@ == old(self).collections@.push(NFTCollection {
                    collection_id: id,
                    owner,
                    name,
                    symbol,
                    description,
                    base_uri,
                    total_supply: 0,
                    unique_holders: 0,
                    floor_price: 0,
                    total_volume: 0,
                    minting_active: true,
                    max_supply,
                    royalty_bps,
                    royalty_recipient,
                    created_at: now,
                })
                &&& final(self).collection_owners@ == old(self).collection_owners@.push(OwnedCollection { owner, collection_id: id })
                &&& final(self).keeps_settings(old(self))
                &&& final(self).keeps_tokens(old(self))
                &&& final(self).keeps_market(old(self))
                &&& final(self).keeps_trades(old(self))
                &&& final(self).keeps_shares(old(self))
                &&& final(self).keeps_portfolios(old(self))
            },
    {
        if self.paused {
            return Err(NFTError::MarketplacePaused);
        }
        if self.is_frozen(owner) {
            return Err(NFTError::UserFrozen);
        }
        if name.len() == 0 {
            return Err(NFTError::InvalidMetadata);
        }
        if royalty_bps > MAX_ROYALTY_BPS {
            return Err(NFTError::ExcessiveRoyalty);
        }
        if max_supply > MAX_COLLECTION_SUPPLY {
            return Err(NFTError::MaxSupplyReached);
        }
        let collection_id: u64 = (self.collections.len() as u64) + 1;
        self.collections.push(NFTCollection {
            collection_id,
            owner,
            name,
            symbol,
            description,
            base_uri,
            total_supply: 0,
            unique_holders: 0,
            floor_price: 0,
            total_volume: 0,
            minting_active: true,
            max_supply,
            royalty_bps,
            royalty_recipient,
            created_at: now,
        });
        self.collection_owners.push(OwnedCollection { owner, collection_id });
        Ok(collection_id)
    }

    /// Mint a token in a collection for its owner: the token gets the next
    /// token id, the collection's supply grows by one (capped) and the token
    /// joins the creator's portfolio.
    pub fn mint_nft(
        &mut self,
        creator: AccountId,
        collection_id: u64,
        metadata_uri: Vec<u8>,
        standard: NFTStandard,
        amount: u64,
        now: u64,
    ) -> (r: Result<u64, NFTError>)
        requires
            old(self).wf(),
            old(self).nfts@.len() < u64::MAX,
        ensures
            final(self).wf(),
            mint_error(*old(self), creator, collection_id, standard, amount) matches Some(e)
                ==> r == Err::<u64, NFTError>(e) && *final(self) == *old(self),
            mint_error(*old(self), creator, collection_id, standard, amount) is None ==> {
                let token_id = (old(self).nfts@.len() + 1) as u64;
                let minted = mint_amount(standard, amount)->0;
                let col = old(self).collections@[collection_id - 1];
                &&& r == Ok::<u64, NFTError>(token_id)
                &&& final(self).nfts@ == old(self).nfts@.push(NFT {
                    token_id,
                    contract_address: old(self).contract_address,
                    owner: creator,
                    creator,
                    collection_id,
                    standard,
                    metadata_uri,
                    is_fractionalized: false,
                    total_supply: minted,
                    circulating_supply: minted,
                    created_at: now,
                })
                &&& final(self).owned_tokens@ == old(self).owned_tokens@.push(OwnedToken { owner: creator, collection_id, token_id })
                &&& final(self).collections@ == old(self).collections@.update(collection_id - 1,
                    NFTCollection { total_supply: sat_inc_u64(col.total_supply), ..col })
                &&& final(self).collection_owners@ == old(self).collection_owners@
                &&& portfolio_set(old(self).portfolios@, final(self).portfolios@, creator, PortfolioView {
                    owned_tokens: portfolio_of(old(self).portfolios@, creator).owned_tokens.push(token_id),
                    collections: if portfolio_of(old(self).portfolios@, creator).collections.contains(collection_id) {
                        portfolio_of(old(self).portfolios@, creator).collections
                    } else {
                        portfolio_of(old(self).portfolios@, creator).collections.push(collection_id)
                    },
                    total_nfts: sat_inc_u32(portfolio_of(old(self).portfolios@, creator).total_nfts),
                    ..portfolio_of(old(self).portfolios@, creator)
                })
                &&& final(self).keeps_settings(old(self))
                &&& final(self).keeps_market(old(self))
                &&& final(self).keeps_trades(old(self))
                &&& final(self).keeps_shares(old(self))
            },
    {
        if self.paused {
            return Err(NFTError::MarketplacePaused);
        }
        if self.is_frozen(creator) {
            return Err(NFTError::UserFrozen);
        }
        if collection_id < 1 || collection_id > self.collections.len() as u64 {
            return Err(NFTError::CollectionNotFound);
        }
        let ci: usize = (collection_id - 1) as usize;
        if self.collections[ci].owner != creator {
            return Err(NFTError::NotCreator);
        }
        if !self.collections[ci].minting_active {
            return Err(NFTError::MintingNotActive);
        }
        if self.collections[ci].max_supply > 0 && self.collections[ci].total_supply >= self.collections[ci].max_supply {
            return Err(NFTError::MaxSupplyReached);
        }
        let final_amount: u64 = match standard {
            NFTStandard::ERC721 => {
                if amount != 1 && amount != 0 {
                    return Err(NFTError::InvalidAmount);
                }
                1
            },
            NFTStandard::ERC1155 => {
                if amount == 0 {
                    return Err(NFTError::InvalidAmount);
                }
                amount
            },
        };
        let token_id: u64 = (self.nfts.len() as u64) + 1;
        self.nfts.push(NFT {
            token_id,
            contract_address: self.contract_address,
            owner: creator,
            creator,
            collection_id,
            standard,
            metadata_uri,
            is_fractionalized: false,
            total_supply: final_amount,
            circulating_supply: final_amount,
            created_at: now,
        });
        self.owned_tokens.push(OwnedToken { owner: creator, collection_id, token_id });
        let c = &mut self.collections[ci];
        c.total_supply = c.total_supply.saturating_add(1);
        self.add_token_to_portfolio(creator, token_id, collection_id);
        Ok(token_id)
    }

    /// Mints one single token per metadata URI, in order, all or none:
    /// when the batch is refused (`batch_error`) the marketplace is
    /// unchanged; otherwise the new token ids are returned in order.
    pub fn batch_mint(
        &mut self,
        creator: AccountId,
        collection_id: u64,
        metadata_uris: &Vec<Vec<u8>>,
        standard: NFTStandard,
        now: u64,
    ) -> (r: Result<Vec<u64>, NFTError>)
        requires
            old(self).wf(),
            old(self).nfts@.len() + metadata_uris@.len() < u64::MAX,
        ensures
            final(self).wf(),
            batch_error(*old(self), creator, collection_id, standard, metadata_uris@.len() as int) matches Some(e)
                ==> r == Err::<Vec<u64>, NFTError>(e) && *final(self) == *old(self),
            batch_error(*old(self), creator, collection_id, standard, metadata_uris@.len() as int) is None ==> {
                &&& r is Ok
                &&& r->Ok_0@ == Seq::new(metadata_uris@.len(), |i: int| (old(self).nfts@.len() + 1 + i) as u64)
                &&& metadata_uris@.len() == 0 ==> *final(self) == *old(self)
                &&& metadata_uris@.len() > 0 ==> batch_progress(*old(self), *final(self), creator, collection_id, standard, metadata_uris@, metadata_uris@.len() as int, now)
            },
    {
        let n = metadata_uris.len();
        let mut ids: Vec<u64> = Vec::new();
        if n == 0 {
            return Ok(ids);
        }
        if self.paused {
            return Err(NFTError::MarketplacePaused);
        }
        if self.is_frozen(creator) {
            return Err(NFTError::UserFrozen);
        }
        if collection_id < 1 || collection_id > self.collections.len() as u64 {
            return Err(NFTError::CollectionNotFound);
        }
        let ci: usize = (collection_id - 1) as usize;
        if self.collections[ci].owner != creator {
            return Err(NFTError::NotCreator);
        }
        if !self.collections[ci].minting_active {
            return Err(NFTError::MintingNotActive);
        }
        let max = self.collections[ci].max_supply;
        let total = self.collections[ci].total_supply;
        if max > 0 && total >= max {
            return Err(NFTError::MaxSupplyReached);
        }
        if max > 0 && (n as u64) > max - total {
            return Err(NFTError::MaxSupplyReached);
        }
        let ghost m0 = *self;
        let base_len: u64 = self.nfts.len() as u64;
        let mut i: usize = 0;
        proof {
            let col = m0.collections@[collection_id - 1];
            assert(m0.nfts@.take(m0.nfts@.len() as int) == m0.nfts@);
            assert(m0.owned_tokens@ + Seq::new(0, |j: int| OwnedToken { owner: creator, collection_id, token_id: (m0.nfts@.len() + 1 + j) as u64 }) == m0.owned_tokens@);
            assert(NFTCollection { total_supply: sat_add_n_u64(col.total_supply, 0), ..col } == col);
            assert(m0.collections@.update(collection_id - 1, col) == m0.collections@);
            let p0 = portfolio_of(m0.portfolios@, creator);
            assert(p0.owned_tokens + Seq::new(0, |j: int| (m0.nfts@.len() + 1 + j) as u64) == p0.owned_tokens);
            assert(PortfolioView { owned_tokens: p0.owned_tokens, collections: p0.collections, total_nfts: sat_add_n_u32(p0.total_nfts, 0), ..p0 } == p0);
        }
        while i < n
            invariant
                n == metadata_uris@.len(),
                n > 0,
                i <= n,
                m0.wf(),
                m0.nfts@.len() + n < u64::MAX,
                mint_error(m0, creator, collection_id, standard, 1) is None,
                m0.collections@[collection_id - 1].max_supply > 0 ==> m0.collections@[collection_id - 1].total_supply + n
                    <= m0.collections@[collection_id - 1].max_supply,
                batch_progress(m0, *self, creator, collection_id, standard, metadata_uris@, i as int, now),
                ids@ == Seq::new(i as nat, |j: int| (m0.nfts@.len() + 1 + j) as u64),
                base_len == m0.nfts@.len(),
            decreases n - i,
        {
            let ghost before = *self;
            let uri = metadata_uris[i].clone();
            proof {
                assert(uri@ =~= metadata_uris@[i as int]@);
                let col = m0.collections@[collection_id - 1];
                assert(before.collections@[collection_id - 1] == NFTCollection { total_supply: sat_add_n_u64(col.total_supply, i as int), ..col });
                assert(mint_error(before, creator, collection_id, standard, 1) is None);
            }
            let r = self.mint_nft(creator, collection_id, uri, standard, 1, now);
            proof {
                let base = m0.nfts@.len();
                let col = m0.collections@[collection_id - 1];
                let p0 = portfolio_of(m0.portfolios@, creator);
                assert(r == Ok::<u64, NFTError>((base + i + 1) as u64));
                assert(self.nfts@.take(base as int) =~= m0.nfts@) by {
                    assert(self.nfts@.take(base as int) =~= before.nfts@.take(base as int));
                }
                assert forall|j: int| 0 <= j < i + 1 implies freshly_minted(#[trigger] self.nfts@[base + j], m0, creator, collection_id, standard, (base + 1 + j) as u64, metadata_uris@[j]@, now) by {
                    if j < i {
                        assert(self.nfts@[base + j] == before.nfts@[base + j]);
                    }
                }
                assert(self.owned_tokens@ =~= m0.owned_tokens@ + Seq::new((i + 1) as nat, |j: int| OwnedToken { owner: creator, collection_id, token_id: (base + 1 + j) as u64 }));
                assert(NFTCollection { total_supply: sat_inc_u64(sat_add_n_u64(col.total_supply, i as int)), ..NFTCollection { total_supply: sat_add_n_u64(col.total_supply, i as int), ..col } }
                    == NFTCollection { total_supply: sat_add_n_u64(col.total_supply, i as int + 1), ..col });
                assert(self.collections@ =~= m0.collections@.update(collection_id - 1, NFTCollection { total_supply: sat_add_n_u64(col.total_supply, i as int + 1), ..col }));
                let pb = portfolio_of(before.portfolios@, creator);
                assert(pb.owned_tokens.push((base + i + 1) as u64) =~= p0.owned_tokens + Seq::new((i + 1) as nat, |j: int| (base + 1 + j) as u64));
                if i > 0 || p0.collections.contains(collection_id) {
                    if i > 0 && !p0.collections.contains(collection_id) {
                        assert(p0.collections.push(collection_id)[p0.collections.len() as int] == collection_id);
                    }
                    assert(pb.collections.contains(collection_id));
                }
                assert(sat_inc_u32(sat_add_n_u32(p0.total_nfts, i as int)) == sat_add_n_u32(p0.total_nfts, i as int + 1));
            }
            ids.push(base_len + (i as u64) + 1);
            proof {
                assert(ids@ =~= Seq::new((i + 1) as nat, |j: int| (m0.nfts@.len() + 1 + j) as u64));
            }
            i = i + 1;
        }
        Ok(ids)
    }

    /// Open or close minting in a collection (its owner only).
    pub fn set_minting_status(&mut self, owner: AccountId, collection_id: u64, active: bool) -> (r: Result<(), NFTError>)
        requires
            old(self).wf(),
        ensures
            final(self).wf(),
            collection_owner_error(*old(self), owner, collection_id) matches Some(e)
                ==> r == Err::<(), NFTError>(e) && *final(self) == *old(self),
            collection_owner_error(*old(self), owner, collection_id) is None ==> {
                let col = old(self).collections@[collection_id - 1];
                &&& r is Ok
                &&& *final(self) == (NftMarketplace {
                    collections: final(self).collections,
                    ..*old(self)
                })
                &&& final(self).collections@ == old(self).collections@.update(collection_id - 1,
                    NFTCollection { minting_active: active, ..col })
            },
    {
        if collection_id < 1 || collection_id > self.collections.len() as u64 {
            return Err(NFTError::CollectionNotFound);
        }
        let ci: usize = (collection_id - 1) as usize;
        if self.collections[ci].owner != owner {
            return Err(NFTError::NotOwner);
        }
        let c = &mut self.collections[ci];
        c.minting_active = active;
        Ok(())
    }

    /// Change a collection's base URI and/or royalty (its owner only); a
    /// royalty above the maximum is refused and nothing changes.
    pub fn update_collection_metadata(
        &mut self,
        owner: AccountId,
        collection_id: u64,
        new_base_uri: Option<Vec<u8>>,
        new_royalty_bps: Option<u32>,
    ) -> (r: Result<(), NFTError>)
        requires
            old(self).wf(),
        ensures
            final(self).wf(),
            collection_owner_error(*old(self), owner, collection_id) matches Some(e)
                ==> r == Err::<(), NFTError>(e) && *final(self) == *old(self),
            collection_owner_error(*old(self), owner, collection_id) is None
                && (new_royalty_bps matches Some(b) && b > MAX_ROYALTY_BPS)
                ==> r == Err::<(), NFTError>(NFTError::ExcessiveRoyalty) && *final(self) == *old(self),
            collection_owner_error(*old(self), owner, collection_id) is None
                && !(new_royalty_bps matches Some(b) && b > MAX_ROYALTY_BPS) ==> {
                let col = old(self).collections@[collection_id - 1];
                &&& r is Ok
                &&& *final(self) == (NftMarketplace {
                    collections: final(self).collections,
                    ..*old(self)
                })
                &&& final(self).collections@ == old(self).collections@.update(collection_id - 1, NFTCollection {
                    base_uri: match new_base_uri { Some(u) => u, None => col.base_uri },
                    royalty_bps: match new_royalty_bps { Some(b) => b, None => col.royalty_bps },
                    ..col
                })
            },
    {
        if collection_id < 1 || collection_id > self.collections.len() as u64 {
            return Err(NFTError::CollectionNotFound);
        }
        let ci: usize = (collection_id - 1) as usize;
        if self.collections[ci].owner != owner {
            return Err(NFTError::NotOwner);
        }
        if let Some(royalty) = new_royalty_bps {
            if royalty > MAX_ROYALTY_BPS {
                return Err(NFTError::ExcessiveRoyalty);
            }
        }
        let c = &mut self.collections[ci];
        if let Some(uri) = new_base_uri {
            c.base_uri = uri;
        }
        if let Some(royalty) = new_royalty_bps {
            c.royalty_bps = royalty;
        }
        Ok(())
    }

    /// Hand a collection to a new owner (its owner only). The index of
    /// collections by creator is left as it was.
    pub fn transfer_collection_ownership(&mut self, current_owner: AccountId, collection_id: u64, new_owner: AccountId) -> (r: Result<(), NFTError>)
        requires
            old(self).wf(),
        ensures
            final(self).wf(),
            collection_owner_error(*old(self), current_owner, collection_id) matches Some(e)
                ==> r == Err::<(), NFTError>(e) && *final(self) == *old(self),
            collection_owner_error(*old(self), current_owner, collection_id) is None ==> {
                let col = old(self).collections@[collection_id - 1];
                &&& r is Ok
                &&& *final(self) == (NftMarketplace {
                    collections: final(self).collections,
                    ..*old(self)
                })
                &&& final(self).collections@ == old(self).collections@.update(collection_id - 1,
                    NFTCollection { owner: new_owner, ..col })
            },
    {
        if collection_id < 1 || collection_id > self.collections.len() as u64 {
            return Err(NFTError::CollectionNotFound);
        }
        let ci: usize = (collection_id - 1) as usize;
        if self.collections[ci].owner != current_owner {
            return Err(NFTError::NotOwner);
        }
        let c = &mut self.collections[ci];
        c.owner = new_owner;
        Ok(())
    }

    /// A collection, if it exists.
    pub fn get_collection(&self, collection_id: u64) -> (r: Option<NFTCollection>)
        ensures
            collection_exists(self.collections@, collection_id) <==> r is Some,
            r matches Some(c) ==> same_collection(c, self.collections@[collection_id - 1]),
    {
        if collection_id < 1 || collection_id > self.collections.len() as u64 {
            return None;
        }
        let c = &self.collections[(collection_id - 1) as usize];
        Some(NFTCollection {
            collection_id: c.collection_id,
            owner: c.owner,
            name: copy_bytes(&c.name),
            symbol: copy_bytes(&c.symbol),
            description: copy_bytes(&c.description),
            base_uri: copy_bytes(&c.base_uri),
            total_supply: c.total_supply,
            unique_holders: c.unique_holders,
            floor_price: c.floor_price,
            total_volume: c.total_volume,
            minting_active: c.minting_active,
            max_supply: c.max_supply,
            royalty_bps: c.royalty_bps,
            royalty_recipient: c.royalty_recipient,
            created_at: c.created_at,
        })
    }

    /// A token, if it exists.
    pub fn get_nft(&self, collection_id: u64, token_id: u64) -> (r: Option<NFT>)
        ensures
            nft_exists(self.nfts@, collection_id, token_id) <==> r is Some,
            r matches Some(n) ==> same_nft(n, self.nfts@[token_id - 1]),
    {
        if token_id < 1 || token_id > self.nfts.len() as u64 {
            return None;
        }
        let n = &self.nfts[(token_id - 1) as usize];
        if n.collection_id != collection_id {
            return None;
        }
        Some(NFT {
            token_id: n.token_id,
            contract_address: n.contract_address,
            owner: n.owner,
            creator: n.creator,
            collection_id: n.collection_id,
            standard: n.standard,
            metadata_uri: copy_bytes(&n.metadata_uri),
            is_fractionalized: n.is_fractionalized,
            total_supply: n.total_supply,
            circulating_supply: n.circulating_supply,
            created_at: n.created_at,
        })
    }

    /// Whether an account owns a token (false when it does not exist).
    pub fn is_owner(&self, collection_id: u64, token_id: u64, owner: AccountId) -> (r: bool)
        ensures
            r == (nft_exists(self.nfts@, collection_id, token_id) && self.nfts@[token_id - 1].owner == owner),
    {
        if token_id < 1 || token_id > self.nfts.len() as u64 {
            return false;
        }
        let n = &self.nfts[(token_id - 1) as usize];
        n.collection_id == collection_id && n.owner == owner
    }

    /// Ids of the collections created by an account, in creation order.
    pub fn get_collections_by_owner(&self, owner: AccountId) -> (r: Vec<u64>)
        ensures
            r@ == collections_of(self.collection_owners@, owner),
    {
        let mut r: Vec<u64> = Vec::new();
        let mut i: usize = 0;
        while i < self.collection_owners.len()
            invariant
                i <= self.collection_owners.len(),
                r@ == collections_of(self.collection_owners@.take(i as int), owner),
            decreases self.collection_owners.len() - i,
        {
            let e = self.collection_owners[i];
            proof {
                assert(self.collection_owners@.take(i as int + 1).drop_last() == self.collection_owners@.take(i as int));
            }
            if e.owner == owner {
                r.push(e.collection_id);
            }
            i = i + 1;
        }
        proof {
            assert(self.collection_owners@.take(self.collection_owners@.len() as int) == self.collection_owners@);
        }
        r
    }

    /// `(collection_id, token_id)` of the tokens an account holds, in the
    /// order it acquired them.
    pub fn get_nfts_by_owner(&self, owner: AccountId) -> (r: Vec<(u64, u64)>)
        ensures
            r@ == tokens_of(self.owned_tokens@, owner),
    {
        let mut r: Vec<(u64, u64)> = Vec::new();
        let mut i: usize = 0;
        while i < self.owned_tokens.len()
            invariant
                i <= self.owned_tokens.len(),
                r@ == tokens_of(self.owned_tokens@.take(i as int), owner),
            decreases self.owned_tokens.len() - i,
        {
            let e = self.owned_tokens[i];
            proof {
                assert(self.owned_tokens@.take(i as int + 1).drop_last() == self.owned_tokens@.take(i as int));
            }
            if e.owner == owner {
                r.push((e.collection_id, e.token_id));
            }
            i = i + 1;
        }
        proof {
            assert(self.owned_tokens@.take(self.owned_tokens@.len() as int) == self.owned_tokens@);
        }
        r
    }

    /// Number of collections created.
    pub fn get_total_collections(&self) -> (r: u64)
        requires
            self.collections@.len() <= u64::MAX,
        ensures
            r == self.collections@.len(),
    {
        self.collections.len() as u64
    }

    /// Number of tokens minted.
    pub fn get_total_nfts(&self) -> (r: u64)
        requires
            self.nfts@.len() <= u64::MAX,
        ensures
            r == self.nfts@.len(),
    {
        self.nfts.len() as u64
    }
}

/// A copy of a byte string.
fn copy_bytes(v: &Vec<u8>) -> (r: Vec<u8>)
    ensures
        r@ == v@,
{
    let mut r: Vec<u8> = Vec::new();
    let mut i: usize = 0;
    while i < v.len()
        invariant
            i <= v.len(),
            r@ == v@.take(i as int),
        decreases v.len() - i,
    {
        proof {
            assert(v@.take(i as int + 1) == v@.take(i as int).push(v@[i as int]));
        }
        r.push(v[i]);
        i = i + 1;
    }
    proof {
        assert(v@.take(v@.len() as int) == v@);
    }
    r
}

// ---------------------------------------------------------------------
// Listings, auctions, offers and trades
// ---------------------------------------------------------------------

/// Listing duration used for a requested one (0 for the default, capped).
pub open spec fn listing_duration(duration: u64) -> u64 {
    if duration == 0 {
        DEFAULT_LISTING_DURATION
    } else if duration < MAX_LISTING_DURATION {
        duration
    } else {
        MAX_LISTING_DURATION
    }
}

/// Offer duration used for a requested one (0 for the default, capped).
pub open spec fn offer_duration(duration: u64) -> u64 {
    if duration == 0 {
        DEFAULT_OFFER_DURATION
    } else if duration < MAX_OFFER_DURATION {
        duration
    } else {
        MAX_OFFER_DURATION
    }
}

/// Amount listed for a token, or none when the requested amount is invalid
/// (a single token lists exactly 1; a multi-token between 1 and its
/// circulating supply).
pub open spec fn listing_amount(n: NFT, amount: u64) -> Option<u64> {
    match n.standard {
        NFTStandard::ERC721 => if amount != 1 { None } else { Some(1) },
        NFTStandard::ERC1155 => if amount == 0 || amount > n.circulating_supply { None } else { Some(amount) },
    }
}

/// Why a listing cannot be created, checked in this order.
pub open spec fn create_listing_error(m: NftMarketplace, seller: AccountId, collection_id: u64, token_id: u64, price: i128, amount: u64, is_auction: bool, min_bid: i128) -> Option<NFTError> {
    if m.paused {
        Some(NFTError::MarketplacePaused)
    } else if m.frozen@.contains(seller) {
        Some(NFTError::UserFrozen)
    } else if price <= 0 {
        Some(NFTError::InvalidPrice)
    } else if !nft_exists(m.nfts@, collection_id, token_id) {
        Some(NFTError::NFTNotFound)
    } else if m.nfts@[token_id - 1].owner != seller {
        Some(NFTError::NotOwner)
    } else if collateralized(m.loans@, collection_id, token_id) {
        Some(NFTError::AlreadyCollateralized)
    } else if listing_amount(m.nfts@[token_id - 1], amount) is None {
        Some(NFTError::InvalidAmount)
    } else if is_auction && min_bid <= 0 {
        Some(NFTError::InvalidBid)
    } else {
        None
    }
}

/// Why a seller cannot cancel a listing, checked in this order.
pub open spec fn cancel_listing_error(m: NftMarketplace, seller: AccountId, listing_id: u64) -> Option<NFTError> {
    if !listing_exists(m.listings@, listing_id) {
        Some(NFTError::ListingNotFound)
    } else if m.listings@[listing_id - 1].seller != seller {
        Some(NFTError::NotOwner)
    } else if !m.listings@[listing_id - 1].is_active {
        Some(NFTError::ListingNotActive)
    } else {
        None
    }
}

/// Why a bid is refused, checked in this order.
pub open spec fn place_bid_error(m: NftMarketplace, bidder: AccountId, listing_id: u64, bid_amount: i128, now: u64) -> Option<NFTError> {
    if m.paused {
        Some(NFTError::MarketplacePaused)
    } else if m.frozen@.contains(bidder) {
        Some(NFTError::UserFrozen)
    } else if !listing_exists(m.listings@, listing_id) {
        Some(NFTError::ListingNotFound)
    } else if !m.listings@[listing_id - 1].is_auction {
        Some(NFTError::UnsupportedOperation)
    } else if !listing_valid(m.listings@[listing_id - 1], now) {
        Some(NFTError::ListingExpired)
    } else if m.listings@[listing_id - 1].seller == bidder {
        Some(NFTError::SelfDealing)
    } else if bid_amount < m.listings@[listing_id - 1].min_bid || bid_amount <= m.listings@[listing_id - 1].highest_bid {
        Some(NFTError::InvalidBid)
    } else {
        None
    }
}

/// Quantity offered for a token, or none when the requested one is invalid
/// (a single token takes 0 or 1, meaning 1; a multi-token at least 1).
pub open spec fn offer_quantity(n: NFT, quantity: u64) -> Option<u64> {
    match n.standard {
        NFTStandard::ERC721 => if quantity != 1 && quantity != 0 { None } else { Some(1) },
        NFTStandard::ERC1155 => if quantity == 0 { None } else { Some(quantity) },
    }
}

/// Why an offer cannot be created, checked in this order.
pub open spec fn create_offer_error(m: NftMarketplace, buyer: AccountId, collection_id: u64, token_id: u64, amount: i128, quantity: u64) -> Option<NFTError> {
    if m.paused {
        Some(NFTError::MarketplacePaused)
    } else if m.frozen@.contains(buyer) {
        Some(NFTError::UserFrozen)
    } else if amount <= 0 {
        Some(NFTError::InvalidPrice)
    } else if !nft_exists(m.nfts@, collection_id, token_id) {
        Some(NFTError::NFTNotFound)
    } else if m.nfts@[token_id - 1].owner == buyer {
        Some(NFTError::SelfDealing)
    } else if offer_quantity(m.nfts@[token_id - 1], quantity) is None {
        Some(NFTError::InvalidAmount)
    } else {
        None
    }
}

/// Why a buyer cannot cancel an offer, checked in this order.
pub open spec fn cancel_offer_error(m: NftMarketplace, buyer: AccountId, offer_id: u64) -> Option<NFTError> {
    if !offer_exists(m.offers@, offer_id) {
        Some(NFTError::OfferNotFound)
    } else if m.offers@[offer_id - 1].buyer != buyer {
        Some(NFTError::Unauthorized)
    } else if !m.offers@[offer_id - 1].is_active {
        Some(NFTError::OfferNotActive)
    } else {
        None
    }
}

/// Why a trade of a token from a seller cannot execute.
pub open spec fn trade_error(m: NftMarketplace, collection_id: u64, token_id: u64, seller: AccountId) -> Option<NFTError> {
    if !nft_exists(m.nfts@, collection_id, token_id) {
        Some(NFTError::NFTNotFound)
    } else if m.nfts@[token_id - 1].owner != seller {
        Some(NFTError::NotOwner)
    } else if !collection_exists(m.collections@, collection_id) {
        Some(NFTError::CollectionNotFound)
    } else {
        None
    }
}

/// The fee computations of a trade at a price fit in 128 bits.
pub open spec fn trade_fits(m: NftMarketplace, collection_id: u64, price: i128) -> bool {
    &&& bps_fits(price, m.platform_fee_bps)
    &&& collection_exists(m.collections@, collection_id) ==> bps_fits(price, m.collections@[collection_id - 1].royalty_bps)
}

/// Holder-index entries other than the token held by `owner`.
pub open spec fn without_owned(s: Seq<OwnedToken>, owner: AccountId, collection_id: u64, token_id: u64) -> Seq<OwnedToken> {
    s.filter(|e: OwnedToken| !(e.owner == owner && e.collection_id == collection_id && e.token_id == token_id))
}

/// `new` is `old` after a trade of a token from `seller` to `buyer` at a
/// price: the token changes hands, the collection adds the price to its
/// volume and lowers its floor, and the trade is recorded with the platform
/// fee and the royalty (both `price * bps / 10000`, rounded toward zero).
pub open spec fn traded(old: NftMarketplace, new: NftMarketplace, collection_id: u64, token_id: u64, seller: AccountId, buyer: AccountId, price: i128, payment_token: TokenId, amount: u64, now: u64) -> bool {
    let col = old.collections@[collection_id - 1];
    &&& new.nfts@ == old.nfts@.update(token_id - 1, NFT { owner: buyer, ..old.nfts@[token_id - 1] })
    &&& new.owned_tokens@ == without_owned(old.owned_tokens@, seller, collection_id, token_id)
        .push(OwnedToken { owner: buyer, collection_id, token_id })
    &&& new.collections@ == old.collections@.update(collection_id - 1, NFTCollection {
        total_volume: clamp_i128(col.total_volume + price),
        floor_price: floor_after(col.floor_price, price),
        ..col
    })
    &&& new.collection_owners@ == old.collection_owners@
    &&& new.trades@ == old.trades@.push(NFTTrade {
        token_id,
        collection_id,
        seller,
        buyer,
        price,
        payment_token,
        quantity: amount,
        timestamp: now,
        royalty_amount: bps_of(price as int, col.royalty_bps as int) as i128,
        platform_fee: bps_of(price as int, old.platform_fee_bps as int) as i128,
    })
    &&& new.total_trade_volume == clamp_i128(old.total_trade_volume + price)
    &&& new.keeps_settings(&old)
    &&& new.keeps_shares(&old)
}

/// Why an offer cannot be accepted by `seller`, checked in this order.
pub open spec fn accept_offer_error(m: NftMarketplace, seller: AccountId, offer_id: u64, now: u64) -> Option<NFTError> {
    if m.paused {
        Some(NFTError::MarketplacePaused)
    } else if !offer_exists(m.offers@, offer_id) {
        Some(NFTError::OfferNotFound)
    } else if !offer_valid(m.offers@[offer_id - 1], now) {
        Some(NFTError::OfferExpired)
    } else {
        let o = m.offers@[offer_id - 1];
        if !(nft_exists(m.nfts@, o.collection_id, o.token_id) && m.nfts@[o.token_id - 1].owner == seller) {
            Some(NFTError::NotOwner)
        } else {
            trade_error(m, o.collection_id, o.token_id, seller)
        }
    }
}

/// Why a buyer cannot buy from a fixed-price listing, checked in this order.
pub open spec fn buy_error(m: NftMarketplace, buyer: AccountId, listing_id: u64, now: u64) -> Option<NFTError> {
    if m.paused {
        Some(NFTError::MarketplacePaused)
    } else if m.frozen@.contains(buyer) {
        Some(NFTError::UserFrozen)
    } else if !listing_exists(m.listings@, listing_id) {
        Some(NFTError::ListingNotFound)
    } else if m.listings@[listing_id - 1].is_auction {
        Some(NFTError::UnsupportedOperation)
    } else if !listing_valid(m.listings@[listing_id - 1], now) {
        Some(NFTError::ListingExpired)
    } else if m.listings@[listing_id - 1].seller == buyer {
        Some(NFTError::SelfDealing)
    } else {
        let l = m.listings@[listing_id - 1];
        trade_error(m, l.collection_id, l.token_id, l.seller)
    }
}

/// Why an auction cannot be finalized, checked in this order.
pub open spec fn finalize_error(m: NftMarketplace, listing_id: u64, now: u64) -> Option<NFTError> {
    if !listing_exists(m.listings@, listing_id) {
        Some(NFTError::ListingNotFound)
    } else if !m.listings@[listing_id - 1].is_auction {
        Some(NFTError::UnsupportedOperation)
    } else if now <= m.listings@[listing_id - 1].expires_at {
        Some(NFTError::AuctionActive)
    } else if m.listings@[listing_id - 1].highest_bidder is None {
        Some(NFTError::InvalidBid)
    } else {
        let l = m.listings@[listing_id - 1];
        match trade_error(m, l.collection_id, l.token_id, l.seller) {
            Some(e) => Some(e),
            None => if !l.is_active { Some(NFTError::ListingNotActive) } else { None },
        }
    }
}

/// Ids of the listings of a token, in creation order.
pub open spec fn listing_ids_of(s: Seq<NFTListing>, collection_id: u64, token_id: u64) -> Seq<u64>
    decreases s.len(),
{
    if s.len() == 0 {
        Seq::empty()
    } else if s.last().collection_id == collection_id && s.last().token_id == token_id {
        listing_ids_of(s.drop_last(), collection_id, token_id).push(s.last().listing_id)
    } else {
        listing_ids_of(s.drop_last(), collection_id, token_id)
    }
}

/// Ids of the offers for a token, in creation order.
pub open spec fn offer_ids_of(s: Seq<NFTOffer>, collection_id: u64, token_id: u64) -> Seq<u64>
    decreases s.len(),
{
    if s.len() == 0 {
        Seq::empty()
    } else if s.last().collection_id == collection_id && s.last().token_id == token_id {
        offer_ids_of(s.drop_last(), collection_id, token_id).push(s.last().offer_id)
    } else {
        offer_ids_of(s.drop_last(), collection_id, token_id)
    }
}

impl NftMarketplace {
    /// Whether a loan was ever recorded against a token.
    pub fn get_loan_by_collateral(&self, collection_id: u64, token_id: u64) -> (r: Option<u64>)
        ensures
            r is Some <==> collateralized(self.loans@, collection_id, token_id),
            r matches Some(id) ==> exists|i: int| 0 <= i < self.loans@.len() && self.loans@[i].collection_id == collection_id
                && self.loans@[i].token_id == token_id && self.loans@[i].loan_id == id,
    {
        let mut i: usize = self.loans.len();
        while i > 0
            invariant
                i <= self.loans.len(),
                forall|j: int| i <= j < self.loans@.len() ==> !(#[trigger] self.loans@[j].collection_id == collection_id
                    && self.loans@[j].token_id == token_id),
            decreases i,
        {
            let l = self.loans[i - 1];
            if l.collection_id == collection_id && l.token_id == token_id {
                return Some(l.loan_id);
            }
            i = i - 1;
        }
        proof {
            assert forall|j: int| 0 <= j < self.loans@.len() implies !((#[trigger] self.loans@[j]).collection_id == collection_id
                && self.loans@[j].token_id == token_id) by {}
        }
        None
    }

    /// Record a loan against a token; the collateral stays marked from then
    /// on.
    pub fn create_loan(&mut self, loan: NFTLoan) -> (r: u64)
        requires
            old(self).wf(),
        ensures
            final(self).wf(),
            r == loan.loan_id,
            final(self).loans@ == old(self).loans@.push(loan),
            final(self).active_loan_count == sat_inc_u64(old(self).active_loan_count),
            *final(self) == (NftMarketplace { loans: final(self).loans, active_loan_count: final(self).active_loan_count, ..*old(self) }),
    {
        self.loans.push(loan);
        self.active_loan_count = self.active_loan_count.saturating_add(1);
        loan.loan_id
    }

    /// Move a token to a new holder, record the trade and update the
    /// collection's volume and floor.
    fn execute_trade(&mut self, collection_id: u64, token_id: u64, seller: AccountId, buyer: AccountId, price: i128, payment_token: TokenId, amount: u64, now: u64)
        requires
            old(self).wf(),
            trade_error(*old(self), collection_id, token_id, seller) is None,
            trade_fits(*old(self), collection_id, price),
        ensures
            final(self).wf(),
            traded(*old(self), *final(self), collection_id, token_id, seller, buyer, price, payment_token, amount, now),
            final(self).keeps_market(old(self)),
            final(self).keeps_portfolios(old(self)),
    {
        let nlen: usize = self.nfts.len();
        let clen: usize = self.collections.len();
        assert(token_id - 1 < nlen && collection_id - 1 < clen);
        let ti: usize = (token_id - 1) as usize;
        let ci: usize = (collection_id - 1) as usize;
        let platform_fee: i128 = mul_bps(price, self.platform_fee_bps);
        let royalty_amount: i128 = self.collections[ci].calculate_royalty(price);
        let n = &mut self.nfts[ti];
        n.owner = buyer;
        self.remove_owned_token(seller, collection_id, token_id);
        self.owned_tokens.push(OwnedToken { owner: buyer, collection_id, token_id });
        let c = &mut self.collections[ci];
        c.add_volume(price);
        c.update_floor_price(price);
        self.trades.push(NFTTrade {
            token_id,
            collection_id,
            seller,
            buyer,
            price,
            payment_token,
            quantity: amount,
            timestamp: now,
            royalty_amount,
            platform_fee,
        });
        self.total_trade_volume = saturating_add_i128(self.total_trade_volume, price);
    }

    /// Drop a token from an account's holdings.
    fn remove_owned_token(&mut self, owner: AccountId, collection_id: u64, token_id: u64)
        ensures
            final(self).owned_tokens@ == without_owned(old(self).owned_tokens@, owner, collection_id, token_id),
            *final(self) == (NftMarketplace { owned_tokens: final(self).owned_tokens, ..*old(self) }),
    {
        let ghost src: Seq<OwnedToken> = self.owned_tokens@;
        let mut kept: Vec<OwnedToken> = Vec::new();
        let mut i: usize = 0;
        while i < self.owned_tokens.len()
            invariant
                i <= self.owned_tokens.len(),
                self.owned_tokens@ == src,
                kept@ == src.take(i as int).filter(|e: OwnedToken| !(e.owner == owner && e.collection_id == collection_id && e.token_id == token_id)),
            decreases self.owned_tokens.len() - i,
        {
            let e = self.owned_tokens[i];
            proof {
                assert(src.take(i as int + 1).drop_last() == src.take(i as int));
                reveal_with_fuel(Seq::filter, 1);
            }
            if !(e.owner == owner && e.collection_id == collection_id && e.token_id == token_id) {
                kept.push(e);
            }
            i = i + 1;
        }
        proof {
            assert(src.take(src.len() as int) == src);
        }
        self.owned_tokens = kept;
    }

    /// List a token at a price (or as an auction with a minimum bid). The
    /// listing gets the next listing id, expires after the chosen duration,
    /// and counts as an active listing of the seller.
    pub fn create_listing(
        &mut self,
        seller: AccountId,
        collection_id: u64,
        token_id: u64,
        price: i128,
        payment_token: TokenId,
        amount: u64,
        duration: u64,
        is_auction: bool,
        min_bid: i128,
        now: u64,
    ) -> (r: Result<u64, NFTError>)
        requires
            old(self).wf(),
            old(self).listings@.len() < u64::MAX,
            now + listing_duration(duration) <= u64::MAX,
        ensures
            final(self).wf(),
            create_listing_error(*old(self), seller, collection_id, token_id, price, amount, is_auction, min_bid) matches Some(e)
                ==> r == Err::<u64, NFTError>(e) && *final(self) == *old(self),
            create_listing_error(*old(self), seller, collection_id, token_id, price, amount, is_auction, min_bid) is None ==> {
                let id = (old(self).listings@.len() + 1) as u64;
                &&& r == Ok::<u64, NFTError>(id)
                &&& final(self).listings@ == old(self).listings@.push(NFTListing {
                    listing_id: id,
                    token_id,
                    collection_id,
                    seller,
                    price,
                    payment_token,
                    amount: listing_amount(old(self).nfts@[token_id - 1], amount)->0,
                    created_at: now,
                    expires_at: (now + listing_duration(duration)) as u64,
                    is_auction,
                    min_bid: if is_auction { min_bid } else { 0 },
                    highest_bid: 0,
                    highest_bidder: None,
                    is_active: true,
                })
                &&& final(self).active_listing_count == sat_inc_u64(old(self).active_listing_count)
                &&& final(self).offers@ == old(self).offers@
                &&& final(self).active_offer_count == old(self).active_offer_count
                &&& portfolio_set(old(self).portfolios@, final(self).portfolios@, seller, PortfolioView {
                    active_listings: sat_inc_u32(portfolio_of(old(self).portfolios@, seller).active_listings),
                    ..portfolio_of(old(self).portfolios@, seller)
                })
                &&& final(self).keeps_settings(old(self))
                &&& final(self).keeps_collections(old(self))
                &&& final(self).keeps_tokens(old(self))
                &&& final(self).keeps_trades(old(self))
                &&& final(self).keeps_shares(old(self))
            },
    {
        if self.paused {
            return Err(NFTError::MarketplacePaused);
        }
        if self.is_frozen(seller) {
            return Err(NFTError::UserFrozen);
        }
        if price <= 0 {
            return Err(NFTError::InvalidPrice);
        }
        if token_id < 1 || token_id > self.nfts.len() as u64 || self.nfts[(token_id - 1) as usize].collection_id != collection_id {
            return Err(NFTError::NFTNotFound);
        }
        let ti: usize = (token_id - 1) as usize;
        if self.nfts[ti].owner != seller {
            return Err(NFTError::NotOwner);
        }
        if self.get_loan_by_collateral(collection_id, token_id).is_some() {
            return Err(NFTError::AlreadyCollateralized);
        }
        let final_amount: u64 = match self.nfts[ti].standard {
            NFTStandard::ERC721 => {
                if amount != 1 {
                    return Err(NFTError::InvalidAmount);
                }
                1
            },
            NFTStandard::ERC1155 => {
                if amount == 0 || amount > self.nfts[ti].circulating_supply {
                    return Err(NFTError::InvalidAmount);
                }
                amount
            },
        };
        if is_auction && min_bid <= 0 {
            return Err(NFTError::InvalidBid);
        }
        let final_duration: u64 = if duration == 0 {
            DEFAULT_LISTING_DURATION
        } else if duration < MAX_LISTING_DURATION {
            duration
        } else {
            MAX_LISTING_DURATION
        };
        let listing_id: u64 = (self.listings.len() as u64) + 1;
        self.listings.push(NFTListing {
            listing_id,
            token_id,
            collection_id,
            seller,
            price,
            payment_token,
            amount: final_amount,
            created_at: now,
            expires_at: now + final_duration,
            is_auction,
            min_bid: if is_auction { min_bid } else { 0 },
            highest_bid: 0,
            highest_bidder: None,
            is_active: true,
        });
        self.active_listing_count = self.active_listing_count.saturating_add(1);
        self.adjust_listing_count(seller, true);
        Ok(listing_id)
    }

    /// Deactivate a listing and count one fewer active listing.
    fn deactivate_listing(&mut self, listing_id: u64)
        requires
            old(self).wf(),
            listing_exists(old(self).listings@, listing_id),
        ensures
            final(self).wf(),
            final(self).listings@ == old(self).listings@.update(listing_id - 1,
                NFTListing { is_active: false, ..old(self).listings@[listing_id - 1] }),
            final(self).active_listing_count == sat_dec_u64(old(self).active_listing_count),
            *final(self) == (NftMarketplace {
                listings: final(self).listings,
                active_listing_count: final(self).active_listing_count,
                ..*old(self)
            }),
    {
        let len: usize = self.listings.len();
        assert(listing_id - 1 < len);
        let li: usize = (listing_id - 1) as usize;
        let mut l = self.listings[li];
        l.is_active = false;
        self.listings.set(li, l);
        self.active_listing_count = self.active_listing_count.saturating_sub(1);
    }

    /// Deactivate an offer and count one fewer active offer.
    fn deactivate_offer(&mut self, offer_id: u64)
        requires
            old(self).wf(),
            offer_exists(old(self).offers@, offer_id),
        ensures
            final(self).wf(),
            final(self).offers@ == old(self).offers@.update(offer_id - 1,
                NFTOffer { is_active: false, ..old(self).offers@[offer_id - 1] }),
            final(self).active_offer_count == sat_dec_u64(old(self).active_offer_count),
            *final(self) == (NftMarketplace {
                offers: final(self).offers,
                active_offer_count: final(self).active_offer_count,
                ..*old(self)
            }),
    {
        let len: usize = self.offers.len();
        assert(offer_id - 1 < len);
        let oi: usize = (offer_id - 1) as usize;
        let mut o = self.offers[oi];
        o.is_active = false;
        self.offers.set(oi, o);
        self.active_offer_count = self.active_offer_count.saturating_sub(1);
    }

    /// Cancel one's own active listing.
    pub fn cancel_listing(&mut self, seller: AccountId, listing_id: u64) -> (r: Result<(), NFTError>)
        requires
            old(self).wf(),
        ensures
            final(self).wf(),
            cancel_listing_error(*old(self), seller, listing_id) matches Some(e)
                ==> r == Err::<(), NFTError>(e) && *final(self) == *old(self),
            cancel_listing_error(*old(self), seller, listing_id) is None ==> {
                &&& r is Ok
                &&& final(self).listings@ == old(self).listings@.update(listing_id - 1,
                    NFTListing { is_active: false, ..old(self).listings@[listing_id - 1] })
                &&& final(self).active_listing_count == sat_dec_u64(old(self).active_listing_count)
                &&& final(self).offers@ == old(self).offers@
                &&& final(self).active_offer_count == old(self).active_offer_count
                &&& portfolio_set(old(self).portfolios@, final(self).portfolios@, seller, PortfolioView {
                    active_listings: sat_dec_u32(portfolio_of(old(self).portfolios@, seller).active_listings),
                    ..portfolio_of(old(self).portfolios@, seller)
                })
                &&& final(self).keeps_settings(old(self))
                &&& final(self).keeps_collections(old(self))
                &&& final(self).keeps_tokens(old(self))
                &&& final(self).keeps_trades(old(self))
                &&& final(self).keeps_shares(old(self))
            },
    {
        if listing_id < 1 || listing_id > self.listings.len() as u64 {
            return Err(NFTError::ListingNotFound);
        }
        let l = self.listings[(listing_id - 1) as usize];
        if l.seller != seller {
            return Err(NFTError::NotOwner);
        }
        if !l.is_active {
            return Err(NFTError::ListingNotActive);
        }
        self.deactivate_listing(listing_id);
        self.adjust_listing_count(seller, false);
        Ok(())
    }

    /// Bid on an auction: the bid becomes the highest one.
    pub fn place_bid(&mut self, bidder: AccountId, listing_id: u64, bid_amount: i128, now: u64) -> (r: Result<(), NFTError>)
        requires
            old(self).wf(),
        ensures
            final(self).wf(),
            place_bid_error(*old(self), bidder, listing_id, bid_amount, now) matches Some(e)
                ==> r == Err::<(), NFTError>(e) && *final(self) == *old(self),
            place_bid_error(*old(self), bidder, listing_id, bid_amount, now) is None ==> {
                &&& r is Ok
                &&& final(self).listings@ == old(self).listings@.update(listing_id - 1, NFTListing {
                    highest_bid: bid_amount,
                    highest_bidder: Some(bidder),
                    ..old(self).listings@[listing_id - 1]
                })
                &&& *final(self) == (NftMarketplace { listings: final(self).listings, ..*old(self) })
            },
    {
        if self.paused {
            return Err(NFTError::MarketplacePaused);
        }
        if self.is_frozen(bidder) {
            return Err(NFTError::UserFrozen);
        }
        if listing_id < 1 || listing_id > self.listings.len() as u64 {
            return Err(NFTError::ListingNotFound);
        }
        let li: usize = (listing_id - 1) as usize;
        let mut l = self.listings[li];
        if !l.is_auction {
            return Err(NFTError::UnsupportedOperation);
        }
        if !l.is_valid(now) {
            return Err(NFTError::ListingExpired);
        }
        if l.seller == bidder {
            return Err(NFTError::SelfDealing);
        }
        if bid_amount < l.min_bid {
            return Err(NFTError::InvalidBid);
        }
        if bid_amount <= l.highest_bid {
            return Err(NFTError::InvalidBid);
        }
        l.highest_bid = bid_amount;
        l.highest_bidder = Some(bidder);
        self.listings.set(li, l);
        Ok(())
    }

    /// Offer to buy a token. The offer gets the next offer id, expires after
    /// the chosen duration and counts as an active offer of the buyer.
    pub fn create_offer(
        &mut self,
        buyer: AccountId,
        collection_id: u64,
        token_id: u64,
        amount: i128,
        payment_token: TokenId,
        offer_amount: u64,
        duration: u64,
        now: u64,
    ) -> (r: Result<u64, NFTError>)
        requires
            old(self).wf(),
            old(self).offers@.len() < u64::MAX,
            now + offer_duration(duration) <= u64::MAX,
        ensures
            final(self).wf(),
            create_offer_error(*old(self), buyer, collection_id, token_id, amount, offer_amount) matches Some(e)
                ==> r == Err::<u64, NFTError>(e) && *final(self) == *old(self),
            create_offer_error(*old(self), buyer, collection_id, token_id, amount, offer_amount) is None ==> {
                let id = (old(self).offers@.len() + 1) as u64;
                &&& r == Ok::<u64, NFTError>(id)
                &&& final(self).offers@ == old(self).offers@.push(NFTOffer {
                    offer_id: id,
                    token_id,
                    collection_id,
                    buyer,
                    amount,
                    payment_token,
                    quantity: offer_quantity(old(self).nfts@[token_id - 1], offer_amount)->0,
                    created_at: now,
                    expires_at: (now + offer_duration(duration)) as u64,
                    is_active: true,
                })
                &&& final(self).active_offer_count == sat_inc_u64(old(self).active_offer_count)
                &&& final(self).listings@ == old(self).listings@
                &&& final(self).active_listing_count == old(self).active_listing_count
                &&& portfolio_set(old(self).portfolios@, final(self).portfolios@, buyer, PortfolioView {
                    active_offers: sat_inc_u32(portfolio_of(old(self).portfolios@, buyer).active_offers),
                    ..portfolio_of(old(self).portfolios@, buyer)
                })
                &&& final(self).keeps_settings(old(self))
                &&& final(self).keeps_collections(old(self))
                &&& final(self).keeps_tokens(old(self))
                &&& final(self).keeps_trades(old(self))
                &&& final(self).keeps_shares(old(self))
            },
    {
        if self.paused {
            return Err(NFTError::MarketplacePaused);
        }
        if self.is_frozen(buyer) {
            return Err(NFTError::UserFrozen);
        }
        if amount <= 0 {
            return Err(NFTError::InvalidPrice);
        }
        if token_id < 1 || token_id > self.nfts.len() as u64 || self.nfts[(token_id - 1) as usize].collection_id != collection_id {
            return Err(NFTError::NFTNotFound);
        }
        let ti: usize = (token_id - 1) as usize;
        if self.nfts[ti].owner == buyer {
            return Err(NFTError::SelfDealing);
        }
        let quantity: u64 = match self.nfts[ti].standard {
            NFTStandard::ERC721 => {
                if offer_amount != 1 && offer_amount != 0 {
                    return Err(NFTError::InvalidAmount);
                }
                1
            },
            NFTStandard::ERC1155 => {
                if offer_amount == 0 {
                    return Err(NFTError::InvalidAmount);
                }
                offer_amount
            },
        };
        let final_duration: u64 = if duration == 0 {
            DEFAULT_OFFER_DURATION
        } else if duration < MAX_OFFER_DURATION {
            duration
        } else {
            MAX_OFFER_DURATION
        };
        let offer_id: u64 = (self.offers.len() as u64) + 1;
        self.offers.push(NFTOffer {
            offer_id,
            token_id,
            collection_id,
            buyer,
            amount,
            payment_token,
            quantity,
            created_at: now,
            expires_at: now + final_duration,
            is_active: true,
        });
        self.active_offer_count = self.active_offer_count.saturating_add(1);
        self.adjust_offer_count(buyer, true);
        Ok(offer_id)
    }

    /// Withdraw one's own active offer.
    pub fn cancel_offer(&mut self, buyer: AccountId, offer_id: u64) -> (r: Result<(), NFTError>)
        requires
            old(self).wf(),
        ensures
            final(self).wf(),
            cancel_offer_error(*old(self), buyer, offer_id) matches Some(e)
                ==> r == Err::<(), NFTError>(e) && *final(self) == *old(self),
            cancel_offer_error(*old(self), buyer, offer_id) is None ==> {
                &&& r is Ok
                &&& final(self).offers@ == old(self).offers@.update(offer_id - 1,
                    NFTOffer { is_active: false, ..old(self).offers@[offer_id - 1] })
                &&& final(self).active_offer_count == sat_dec_u64(old(self).active_offer_count)
                &&& final(self).listings@ == old(self).listings@
                &&& final(self).active_listing_count == old(self).active_listing_count
                &&& portfolio_set(old(self).portfolios@, final(self).portfolios@, buyer, PortfolioView {
                    active_offers: sat_dec_u32(portfolio_of(old(self).portfolios@, buyer).active_offers),
                    ..portfolio_of(old(self).portfolios@, buyer)
                })
                &&& final(self).keeps_settings(old(self))
                &&& final(self).keeps_collections(old(self))
                &&& final(self).keeps_tokens(old(self))
                &&& final(self).keeps_trades(old(self))
                &&& final(self).keeps_shares(old(self))
            },
    {
        if offer_id < 1 || offer_id > self.offers.len() as u64 {
            return Err(NFTError::OfferNotFound);
        }
        let o = self.offers[(offer_id - 1) as usize];
        if o.buyer != buyer {
            return Err(NFTError::Unauthorized);
        }
        if !o.is_active {
            return Err(NFTError::OfferNotActive);
        }
        self.deactivate_offer(offer_id);
        self.adjust_offer_count(buyer, false);
        Ok(())
    }

    /// Accept an offer on a token one owns: the token goes to the buyer at
    /// the offered amount and the offer is closed.
    pub fn accept_offer(&mut self, seller: AccountId, offer_id: u64, now: u64) -> (r: Result<(), NFTError>)
        requires
            old(self).wf(),
            offer_exists(old(self).offers@, offer_id) ==> trade_fits(*old(self),
                old(self).offers@[offer_id - 1].collection_id, old(self).offers@[offer_id - 1].amount),
        ensures
            final(self).wf(),
            accept_offer_error(*old(self), seller, offer_id, now) matches Some(e)
                ==> r == Err::<(), NFTError>(e) && *final(self) == *old(self),
            accept_offer_error(*old(self), seller, offer_id, now) is None ==> {
                let o = old(self).offers@[offer_id - 1];
                &&& r is Ok
                &&& traded(*old(self), *final(self), o.collection_id, o.token_id, seller, o.buyer, o.amount, o.payment_token, o.quantity, now)
                &&& final(self).offers@ == old(self).offers@.update(offer_id - 1, NFTOffer { is_active: false, ..o })
                &&& final(self).active_offer_count == sat_dec_u64(old(self).active_offer_count)
                &&& final(self).listings@ == old(self).listings@
                &&& final(self).active_listing_count == old(self).active_listing_count
                &&& portfolio_set(old(self).portfolios@, final(self).portfolios@, o.buyer, PortfolioView {
                    active_offers: sat_dec_u32(portfolio_of(old(self).portfolios@, o.buyer).active_offers),
                    ..portfolio_of(old(self).portfolios@, o.buyer)
                })
            },
    {
        if self.paused {
            return Err(NFTError::MarketplacePaused);
        }
        if offer_id < 1 || offer_id > self.offers.len() as u64 {
            return Err(NFTError::OfferNotFound);
        }
        let o = self.offers[(offer_id - 1) as usize];
        if !o.is_valid(now) {
            return Err(NFTError::OfferExpired);
        }
        if !self.is_owner(o.collection_id, o.token_id, seller) {
            return Err(NFTError::NotOwner);
        }
        if o.collection_id < 1 || o.collection_id > self.collections.len() as u64 {
            return Err(NFTError::CollectionNotFound);
        }
        self.execute_trade(o.collection_id, o.token_id, seller, o.buyer, o.amount, o.payment_token, o.quantity, now);
        self.deactivate_offer(offer_id);
        self.adjust_offer_count(o.buyer, false);
        Ok(())
    }

    /// Buy from a fixed-price listing: the token goes to the buyer at the
    /// listed price and the listing is closed.
    pub fn buy_nft(&mut self, buyer: AccountId, listing_id: u64, now: u64) -> (r: Result<(), NFTError>)
        requires
            old(self).wf(),
            listing_exists(old(self).listings@, listing_id) ==> trade_fits(*old(self),
                old(self).listings@[listing_id - 1].collection_id, old(self).listings@[listing_id - 1].price),
        ensures
            final(self).wf(),
            buy_error(*old(self), buyer, listing_id, now) matches Some(e)
                ==> r == Err::<(), NFTError>(e) && *final(self) == *old(self),
            buy_error(*old(self), buyer, listing_id, now) is None ==> {
                let l = old(self).listings@[listing_id - 1];
                &&& r is Ok
                &&& traded(*old(self), *final(self), l.collection_id, l.token_id, l.seller, buyer, l.price, l.payment_token, l.amount, now)
                &&& final(self).listings@ == old(self).listings@.update(listing_id - 1, NFTListing { is_active: false, ..l })
                &&& final(self).active_listing_count == sat_dec_u64(old(self).active_listing_count)
                &&& final(self).offers@ == old(self).offers@
                &&& final(self).active_offer_count == old(self).active_offer_count
                &&& portfolio_set(old(self).portfolios@, final(self).portfolios@, l.seller, PortfolioView {
                    active_listings: sat_dec_u32(portfolio_of(old(self).portfolios@, l.seller).active_listings),
                    ..portfolio_of(old(self).portfolios@, l.seller)
                })
            },
    {
        if self.paused {
            return Err(NFTError::MarketplacePaused);
        }
        if self.is_frozen(buyer) {
            return Err(NFTError::UserFrozen);
        }
        if listing_id < 1 || listing_id > self.listings.len() as u64 {
            return Err(NFTError::ListingNotFound);
        }
        let l = self.listings[(listing_id - 1) as usize];
        if l.is_auction {
            return Err(NFTError::UnsupportedOperation);
        }
        if !l.is_valid(now) {
            return Err(NFTError::ListingExpired);
        }
        if l.seller == buyer {
            return Err(NFTError::SelfDealing);
        }
        if l.token_id < 1 || l.token_id > self.nfts.len() as u64 || self.nfts[(l.token_id - 1) as usize].collection_id != l.collection_id {
            return Err(NFTError::NFTNotFound);
        }
        if self.nfts[(l.token_id - 1) as usize].owner != l.seller {
            return Err(NFTError::NotOwner);
        }
        if l.collection_id < 1 || l.collection_id > self.collections.len() as u64 {
            return Err(NFTError::CollectionNotFound);
        }
        self.execute_trade(l.collection_id, l.token_id, l.seller, buyer, l.price, l.payment_token, l.amount, now);
        self.deactivate_listing(listing_id);
        self.adjust_listing_count(l.seller, false);
        Ok(())
    }

    /// Settle an expired auction with bids: the token goes to the highest
    /// bidder at the highest bid and the listing is closed. Anyone may call
    /// it.
    pub fn finalize_auction(&mut self, listing_id: u64, now: u64) -> (r: Result<(), NFTError>)
        requires
            old(self).wf(),
            listing_exists(old(self).listings@, listing_id) ==> trade_fits(*old(self),
                old(self).listings@[listing_id - 1].collection_id, old(self).listings@[listing_id - 1].highest_bid),
        ensures
            final(self).wf(),
            finalize_error(*old(self), listing_id, now) matches Some(e)
                ==> r == Err::<(), NFTError>(e) && *final(self) == *old(self),
            finalize_error(*old(self), listing_id, now) is None ==> {
                let l = old(self).listings@[listing_id - 1];
                &&& r is Ok
                &&& traded(*old(self), *final(self), l.collection_id, l.token_id, l.seller, l.highest_bidder->0, l.highest_bid, l.payment_token, l.amount, now)
                &&& final(self).listings@ == old(self).listings@.update(listing_id - 1, NFTListing { is_active: false, ..l })
                &&& final(self).active_listing_count == sat_dec_u64(old(self).active_listing_count)
                &&& final(self).offers@ == old(self).offers@
                &&& final(self).active_offer_count == old(self).active_offer_count
                &&& portfolio_set(old(self).portfolios@, final(self).portfolios@, l.seller, PortfolioView {
                    active_listings: sat_dec_u32(portfolio_of(old(self).portfolios@, l.seller).active_listings),
                    ..portfolio_of(old(self).portfolios@, l.seller)
                })
            },
    {
        if listing_id < 1 || listing_id > self.listings.len() as u64 {
            return Err(NFTError::ListingNotFound);
        }
        let l = self.listings[(listing_id - 1) as usize];
        if !l.is_auction {
            return Err(NFTError::UnsupportedOperation);
        }
        if now <= l.expires_at {
            return Err(NFTError::AuctionActive);
        }
        let winner: AccountId = match l.highest_bidder {
            Some(b) => b,
            None => {
                return Err(NFTError::InvalidBid);
            },
        };
        if l.token_id < 1 || l.token_id > self.nfts.len() as u64 || self.nfts[(l.token_id - 1) as usize].collection_id != l.collection_id {
            return Err(NFTError::NFTNotFound);
        }
        if self.nfts[(l.token_id - 1) as usize].owner != l.seller {
            return Err(NFTError::NotOwner);
        }
        if l.collection_id < 1 || l.collection_id > self.collections.len() as u64 {
            return Err(NFTError::CollectionNotFound);
        }
        if !l.is_active {
            return Err(NFTError::ListingNotActive);
        }
        self.execute_trade(l.collection_id, l.token_id, l.seller, winner, l.highest_bid, l.payment_token, l.amount, now);
        self.deactivate_listing(listing_id);
        self.adjust_listing_count(l.seller, false);
        Ok(())
    }

    /// A listing, if it exists.
    pub fn get_listing(&self, listing_id: u64) -> (r: Option<NFTListing>)
        ensures
            r == (if listing_exists(self.listings@, listing_id) { Some(self.listings@[listing_id - 1]) } else { None }),
    {
        if listing_id < 1 || listing_id > self.listings.len() as u64 {
            None
        } else {
            Some(self.listings[(listing_id - 1) as usize])
        }
    }

    /// An offer, if it exists.
    pub fn get_offer(&self, offer_id: u64) -> (r: Option<NFTOffer>)
        ensures
            r == (if offer_exists(self.offers@, offer_id) { Some(self.offers@[offer_id - 1]) } else { None }),
    {
        if offer_id < 1 || offer_id > self.offers.len() as u64 {
            None
        } else {
            Some(self.offers[(offer_id - 1) as usize])
        }
    }

    /// Ids of every listing ever made for a token, in creation order.
    pub fn get_token_listings(&self, collection_id: u64, token_id: u64) -> (r: Vec<u64>)
        ensures
            r@ == listing_ids_of(self.listings@, collection_id, token_id),
    {
        let mut r: Vec<u64> = Vec::new();
        let mut i: usize = 0;
        while i < self.listings.len()
            invariant
                i <= self.listings.len(),
                r@ == listing_ids_of(self.listings@.take(i as int), collection_id, token_id),
            decreases self.listings.len() - i,
        {
            let l = self.listings[i];
            proof {
                assert(self.listings@.take(i as int + 1).drop_last() == self.listings@.take(i as int));
            }
            if l.collection_id == collection_id && l.token_id == token_id {
                r.push(l.listing_id);
            }
            i = i + 1;
        }
        proof {
            assert(self.listings@.take(self.listings@.len() as int) == self.listings@);
        }
        r
    }

    /// Ids of every offer ever made for a token, in creation order.
    pub fn get_token_offers(&self, collection_id: u64, token_id: u64) -> (r: Vec<u64>)
        ensures
            r@ == offer_ids_of(self.offers@, collection_id, token_id),
    {
        let mut r: Vec<u64> = Vec::new();
        let mut i: usize = 0;
        while i < self.offers.len()
            invariant
                i <= self.offers.len(),
                r@ == offer_ids_of(self.offers@.take(i as int), collection_id, token_id),
            decreases self.offers.len() - i,
        {
            let o = self.offers[i];
            proof {
                assert(self.offers@.take(i as int + 1).drop_last() == self.offers@.take(i as int));
            }
            if o.collection_id == collection_id && o.token_id == token_id {
                r.push(o.offer_id);
            }
            i = i + 1;
        }
        proof {
            assert(self.offers@.take(self.offers@.len() as int) == self.offers@);
        }
        r
    }

    /// Number of active listings.
    pub fn get_total_listings(&self) -> (r: u64)
        ensures
            r == self.active_listing_count,
    {
        self.active_listing_count
    }

    /// Number of active offers.
    pub fn get_total_offers(&self) -> (r: u64)
        ensures
            r == self.active_offer_count,
    {
        self.active_offer_count
    }
}

// ---------------------------------------------------------------------
// Fractional ownership
// ---------------------------------------------------------------------

/// Why a token cannot be fractionalized, checked in this order.
pub open spec fn fractionalize_error(m: NftMarketplace, owner: AccountId, collection_id: u64, token_id: u64, total_shares: u64, price_per_share: i128) -> Option<NFTError> {
    if m.paused {
        Some(NFTError::MarketplacePaused)
    } else if m.frozen@.contains(owner) {
        Some(NFTError::UserFrozen)
    } else if total_shares < MIN_SHARES || total_shares > MAX_SHARES {
        Some(NFTError::FractionalizationLimit)
    } else if price_per_share <= 0 {
        Some(NFTError::InvalidPrice)
    } else if !nft_exists(m.nfts@, collection_id, token_id) {
        Some(NFTError::NFTNotFound)
    } else if m.nfts@[token_id - 1].owner != owner {
        Some(NFTError::NotOwner)
    } else if m.nfts@[token_id - 1].is_fractionalized {
        Some(NFTError::AlreadyFractionalized)
    } else if m.nfts@[token_id - 1].standard != NFTStandard::ERC721 {
        Some(NFTError::UnsupportedOperation)
    } else if collateralized(m.loans@, collection_id, token_id) {
        Some(NFTError::AlreadyCollateralized)
    } else {
        None
    }
}

/// Why shares cannot be bought, checked in this order.
pub open spec fn buy_shares_error(m: NftMarketplace, buyer: AccountId, collection_id: u64, token_id: u64, shares: u64) -> Option<NFTError> {
    if m.paused {
        Some(NFTError::MarketplacePaused)
    } else if m.frozen@.contains(buyer) {
        Some(NFTError::UserFrozen)
    } else if shares == 0 {
        Some(NFTError::InvalidShareAmount)
    } else if !nft_exists(m.nfts@, collection_id, token_id) {
        Some(NFTError::NFTNotFound)
    } else if !m.nfts@[token_id - 1].is_fractionalized {
        Some(NFTError::NotFractionalized)
    } else if shares > sat_sub_u64(m.nfts@[token_id - 1].total_supply, m.nfts@[token_id - 1].circulating_supply) {
        Some(NFTError::NoFractionsAvailable)
    } else {
        None
    }
}

/// Why shares cannot be sold, checked in this order.
pub open spec fn sell_shares_error(m: NftMarketplace, seller: AccountId, collection_id: u64, token_id: u64, shares: u64) -> Option<NFTError> {
    if m.paused {
        Some(NFTError::MarketplacePaused)
    } else if shares == 0 {
        Some(NFTError::InvalidShareAmount)
    } else if !m.shares_initialized {
        Some(NFTError::NotFractionalized)
    } else if share_of(m.shares@, collection_id, token_id, seller) is None
        || share_of(m.shares@, collection_id, token_id, seller)->0.shares < shares {
        Some(NFTError::InsufficientBalance)
    } else if !nft_exists(m.nfts@, collection_id, token_id) {
        Some(NFTError::NFTNotFound)
    } else {
        None
    }
}

/// Why shares cannot be transferred, checked in this order.
pub open spec fn transfer_shares_error(m: NftMarketplace, from: AccountId, to: AccountId, collection_id: u64, token_id: u64, shares: u64) -> Option<NFTError> {
    if m.paused {
        Some(NFTError::MarketplacePaused)
    } else if m.frozen@.contains(from) {
        Some(NFTError::UserFrozen)
    } else if shares == 0 {
        Some(NFTError::InvalidShareAmount)
    } else if from == to {
        Some(NFTError::SelfDealing)
    } else if !nft_exists(m.nfts@, collection_id, token_id) {
        Some(NFTError::NFTNotFound)
    } else if !m.nfts@[token_id - 1].is_fractionalized || !m.shares_initialized {
        Some(NFTError::NotFractionalized)
    } else if share_of(m.shares@, collection_id, token_id, from) is None
        || share_of(m.shares@, collection_id, token_id, from)->0.shares < shares {
        Some(NFTError::InsufficientBalance)
    } else {
        None
    }
}

/// The shares records after moving `shares` of a token from one holder to
/// another: the sender keeps the rest (no record when none is left), the
/// receiver's balance grows (saturating; a new receiver starts a record),
/// and every other record is kept.
pub open spec fn shares_transferred(
    old_s: Seq<FractionalShare>,
    new_s: Seq<FractionalShare>,
    from: AccountId,
    to: AccountId,
    collection_id: u64,
    token_id: u64,
    shares: u64,
    total_supply: u64,
    now: u64,
) -> bool {
    &&& share_of(new_s, collection_id, token_id, from) == shares_after_removal(share_of(old_s, collection_id, token_id, from)->0, shares)
    &&& share_of(new_s, collection_id, token_id, to) == Some(
        match share_of(old_s, collection_id, token_id, to) {
            Some(p) => FractionalShare { shares: sat_add_u64(p.shares, shares), acquired_at: now, ..p },
            None => FractionalShare {
                token_id,
                collection_id,
                shareholder: to,
                shares,
                total_shares: total_supply,
                purchase_price: 0,
                acquired_at: now,
            },
        })
    &&& forall|c: u64, t: u64, h: AccountId| !(c == collection_id && t == token_id && (h == from || h == to))
        ==> #[trigger] share_of(new_s, c, t, h) == share_of(old_s, c, t, h)
}

/// Shares held in a record (0 without one).
pub open spec fn held_shares(o: Option<FractionalShare>) -> int {
    match o {
        Some(p) => p.shares as int,
        None => 0,
    }
}

/// A transfer of shares moves them between the two holders: their total is
/// unchanged (as long as the receiver's balance does not saturate).
pub proof fn lemma_transfer_conserves_shares(
    old_s: Seq<FractionalShare>,
    new_s: Seq<FractionalShare>,
    from: AccountId,
    to: AccountId,
    collection_id: u64,
    token_id: u64,
    shares: u64,
    total_supply: u64,
    now: u64,
)
    requires
        shares_transferred(old_s, new_s, from, to, collection_id, token_id, shares, total_supply, now),
        share_of(old_s, collection_id, token_id, from) is Some,
        share_of(old_s, collection_id, token_id, from)->0.shares >= shares,
        held_shares(share_of(old_s, collection_id, token_id, to)) + shares <= u64::MAX,
    ensures
        held_shares(share_of(new_s, collection_id, token_id, from)) + held_shares(share_of(new_s, collection_id, token_id, to))
            == held_shares(share_of(old_s, collection_id, token_id, from)) + held_shares(share_of(old_s, collection_id, token_id, to)),
{
}

/// Why a token cannot be made whole again, checked in this order.
pub open spec fn defractionalize_error(m: NftMarketplace, owner: AccountId, collection_id: u64, token_id: u64) -> Option<NFTError> {
    if m.paused {
        Some(NFTError::MarketplacePaused)
    } else if !nft_exists(m.nfts@, collection_id, token_id) {
        Some(NFTError::NFTNotFound)
    } else if !m.nfts@[token_id - 1].is_fractionalized || !m.shares_initialized {
        Some(NFTError::NotFractionalized)
    } else if share_of(m.shares@, collection_id, token_id, owner) is None
        || share_of(m.shares@, collection_id, token_id, owner)->0.shares != m.nfts@[token_id - 1].total_supply {
        Some(NFTError::InsufficientBalance)
    } else {
        None
    }
}

/// Record left after taking `shares` from a holder's record: none when
/// nothing is left.
pub open spec fn shares_after_removal(s: FractionalShare, shares: u64) -> Option<FractionalShare> {
    if s.shares - shares == 0 { None } else { Some(FractionalShare { shares: (s.shares - shares) as u64, ..s }) }
}

/// Account holders of a token's shares, in the order they first got them.
pub open spec fn holders_of(s: Seq<FractionalShare>, collection_id: u64, token_id: u64) -> Seq<AccountId>
    decreases s.len(),
{
    if s.len() == 0 {
        Seq::empty()
    } else if share_of_token(s.last(), collection_id, token_id) {
        holders_of(s.drop_last(), collection_id, token_id).push(s.last().shareholder)
    } else {
        holders_of(s.drop_last(), collection_id, token_id)
    }
}

/// Ownership of a holder in basis points: `shares * 10000 / total`,
/// truncated to 32 bits; 0 without a record, a token or a supply.
pub open spec fn ownership_bps(m: NftMarketplace, collection_id: u64, token_id: u64, holder: AccountId) -> u32 {
    match share_of(m.shares@, collection_id, token_id, holder) {
        Some(sh) => if nft_exists(m.nfts@, collection_id, token_id) && m.nfts@[token_id - 1].total_supply > 0 {
            ((sh.shares as int) * 10000 / (m.nfts@[token_id - 1].total_supply as int)) as u32
        } else {
            0
        },
        None => 0,
    }
}

impl NftMarketplace {
    /// Split a single token one owns into shares, all held by the owner at
    /// first; none are in circulation yet.
    pub fn fractionalize_nft(&mut self, owner: AccountId, collection_id: u64, token_id: u64, total_shares: u64, initial_price_per_share: i128, now: u64) -> (r: Result<(), NFTError>)
        requires
            old(self).wf(),
        ensures
            final(self).wf(),
            fractionalize_error(*old(self), owner, collection_id, token_id, total_shares, initial_price_per_share) matches Some(e)
                ==> r == Err::<(), NFTError>(e) && *final(self) == *old(self),
            fractionalize_error(*old(self), owner, collection_id, token_id, total_shares, initial_price_per_share) is None ==> {
                &&& r is Ok
                &&& final(self).nfts@ == old(self).nfts@.update(token_id - 1, NFT {
                    is_fractionalized: true,
                    total_supply: total_shares,
                    circulating_supply: 0,
                    ..old(self).nfts@[token_id - 1]
                })
                &&& share_set(old(self).shares@, final(self).shares@, collection_id, token_id, owner, Some(FractionalShare {
                    token_id,
                    collection_id,
                    shareholder: owner,
                    shares: total_shares,
                    total_shares,
                    purchase_price: initial_price_per_share,
                    acquired_at: now,
                }))
                &&& final(self).shares_initialized
                &&& *final(self) == (NftMarketplace {
                    nfts: final(self).nfts,
                    shares: final(self).shares,
                    shares_initialized: true,
                    ..*old(self)
                })
            },
    {
        if self.paused {
            return Err(NFTError::MarketplacePaused);
        }
        if self.is_frozen(owner) {
            return Err(NFTError::UserFrozen);
        }
        if total_shares < MIN_SHARES || total_shares > MAX_SHARES {
            return Err(NFTError::FractionalizationLimit);
        }
        if initial_price_per_share <= 0 {
            return Err(NFTError::InvalidPrice);
        }
        let nlen: usize = self.nfts.len();
        if token_id < 1 || token_id > nlen as u64 || self.nfts[(token_id - 1) as usize].collection_id != collection_id {
            return Err(NFTError::NFTNotFound);
        }
        let ti: usize = (token_id - 1) as usize;
        if self.nfts[ti].owner != owner {
            return Err(NFTError::NotOwner);
        }
        if self.nfts[ti].is_fractionalized {
            return Err(NFTError::AlreadyFractionalized);
        }
        if self.nfts[ti].standard != NFTStandard::ERC721 {
            return Err(NFTError::UnsupportedOperation);
        }
        if self.get_loan_by_collateral(collection_id, token_id).is_some() {
            return Err(NFTError::AlreadyCollateralized);
        }
        let n = &mut self.nfts[ti];
        n.is_fractionalized = true;
        n.total_supply = total_shares;
        n.circulating_supply = 0;
        self.set_share(FractionalShare {
            token_id,
            collection_id,
            shareholder: owner,
            shares: total_shares,
            total_shares,
            purchase_price: initial_price_per_share,
            acquired_at: now,
        });
        self.shares_initialized = true;
        Ok(())
    }

    /// Buy shares not yet in circulation: they are added to the buyer's
    /// record at the buyer's price, and the circulating supply grows.
    pub fn buy_fractional_shares(&mut self, buyer: AccountId, collection_id: u64, token_id: u64, shares_to_buy: u64, max_price_per_share: i128, now: u64) -> (r: Result<(), NFTError>)
        requires
            old(self).wf(),
        ensures
            final(self).wf(),
            buy_shares_error(*old(self), buyer, collection_id, token_id, shares_to_buy) matches Some(e)
                ==> r == Err::<(), NFTError>(e) && *final(self) == *old(self),
            buy_shares_error(*old(self), buyer, collection_id, token_id, shares_to_buy) is None ==> {
                let n = old(self).nfts@[token_id - 1];
                &&& r is Ok
                &&& final(self).nfts@ == old(self).nfts@.update(token_id - 1, NFT {
                    circulating_supply: sat_add_u64(n.circulating_supply, shares_to_buy),
                    ..n
                })
                &&& share_set(old(self).shares@, final(self).shares@, collection_id, token_id, buyer, Some(
                    match share_of(old(self).shares@, collection_id, token_id, buyer) {
                        Some(p) => FractionalShare {
                            shares: sat_add_u64(p.shares, shares_to_buy),
                            purchase_price: max_price_per_share,
                            acquired_at: now,
                            ..p
                        },
                        None => FractionalShare {
                            token_id,
                            collection_id,
                            shareholder: buyer,
                            shares: shares_to_buy,
                            total_shares: n.total_supply,
                            purchase_price: max_price_per_share,
                            acquired_at: now,
                        },
                    }))
                &&& *final(self) == (NftMarketplace {
                    nfts: final(self).nfts,
                    shares: final(self).shares,
                    shares_initialized: true,
                    ..*old(self)
                })
            },
    {
        if self.paused {
            return Err(NFTError::MarketplacePaused);
        }
        if self.is_frozen(buyer) {
            return Err(NFTError::UserFrozen);
        }
        if shares_to_buy == 0 {
            return Err(NFTError::InvalidShareAmount);
        }
        let nlen: usize = self.nfts.len();
        if token_id < 1 || token_id > nlen as u64 || self.nfts[(token_id - 1) as usize].collection_id != collection_id {
            return Err(NFTError::NFTNotFound);
        }
        let ti: usize = (token_id - 1) as usize;
        if !self.nfts[ti].is_fractionalized {
            return Err(NFTError::NotFractionalized);
        }
        let available: u64 = self.nfts[ti].total_supply.saturating_sub(self.nfts[ti].circulating_supply);
        if shares_to_buy > available {
            return Err(NFTError::NoFractionsAvailable);
        }
        let total_supply: u64 = self.nfts[ti].total_supply;
        let share = match self.get_fractional_shares(collection_id, token_id, buyer) {
            Some(p) => FractionalShare {
                shares: p.shares.saturating_add(shares_to_buy),
                purchase_price: max_price_per_share,
                acquired_at: now,
                ..p
            },
            None => FractionalShare {
                token_id,
                collection_id,
                shareholder: buyer,
                shares: shares_to_buy,
                total_shares: total_supply,
                purchase_price: max_price_per_share,
                acquired_at: now,
            },
        };
        self.set_share(share);
        let n = &mut self.nfts[ti];
        n.circulating_supply = n.circulating_supply.saturating_add(shares_to_buy);
        self.shares_initialized = true;
        Ok(())
    }

    /// Sell shares back: they leave the seller's record (which goes when
    /// empty) and the circulating supply shrinks.
    pub fn sell_fractional_shares(&mut self, seller: AccountId, collection_id: u64, token_id: u64, shares_to_sell: u64, min_price_per_share: i128) -> (r: Result<(), NFTError>)
        requires
            old(self).wf(),
        ensures
            final(self).wf(),
            sell_shares_error(*old(self), seller, collection_id, token_id, shares_to_sell) matches Some(e)
                ==> r == Err::<(), NFTError>(e) && *final(self) == *old(self),
            sell_shares_error(*old(self), seller, collection_id, token_id, shares_to_sell) is None ==> {
                let n = old(self).nfts@[token_id - 1];
                let held = share_of(old(self).shares@, collection_id, token_id, seller)->0;
                &&& r is Ok
                &&& final(self).nfts@ == old(self).nfts@.update(token_id - 1, NFT {
                    circulating_supply: sat_sub_u64(n.circulating_supply, shares_to_sell),
                    ..n
                })
                &&& share_set(old(self).shares@, final(self).shares@, collection_id, token_id, seller,
                    shares_after_removal(held, shares_to_sell))
                &&& *final(self) == (NftMarketplace {
                    nfts: final(self).nfts,
                    shares: final(self).shares,
                    ..*old(self)
                })
            },
    {
        if self.paused {
            return Err(NFTError::MarketplacePaused);
        }
        if shares_to_sell == 0 {
            return Err(NFTError::InvalidShareAmount);
        }
        if !self.shares_initialized {
            return Err(NFTError::NotFractionalized);
        }
        let held = match self.get_fractional_shares(collection_id, token_id, seller) {
            Some(p) => p,
            None => {
                return Err(NFTError::InsufficientBalance);
            },
        };
        if held.shares < shares_to_sell {
            return Err(NFTError::InsufficientBalance);
        }
        let nlen: usize = self.nfts.len();
        if token_id < 1 || token_id > nlen as u64 || self.nfts[(token_id - 1) as usize].collection_id != collection_id {
            return Err(NFTError::NFTNotFound);
        }
        let ti: usize = (token_id - 1) as usize;
        let remaining: u64 = held.shares - shares_to_sell;
        if remaining == 0 {
            self.remove_share(collection_id, token_id, seller);
        } else {
            self.set_share(FractionalShare { shares: remaining, ..held });
        }
        let n = &mut self.nfts[ti];
        n.circulating_supply = n.circulating_supply.saturating_sub(shares_to_sell);
        Ok(())
    }

    /// Move shares between two accounts.
    pub fn transfer_fractional_shares(&mut self, from: AccountId, to: AccountId, collection_id: u64, token_id: u64, shares: u64, now: u64) -> (r: Result<(), NFTError>)
        requires
            old(self).wf(),
        ensures
            final(self).wf(),
            transfer_shares_error(*old(self), from, to, collection_id, token_id, shares) matches Some(e)
                ==> r == Err::<(), NFTError>(e) && *final(self) == *old(self),
            transfer_shares_error(*old(self), from, to, collection_id, token_id, shares) is None ==> {
                let n = old(self).nfts@[token_id - 1];
                let held = share_of(old(self).shares@, collection_id, token_id, from)->0;
                &&& r is Ok
                &&& shares_transferred(old(self).shares@, final(self).shares@, from, to, collection_id, token_id, shares, n.total_supply, now)
                &&& *final(self) == (NftMarketplace { shares: final(self).shares, ..*old(self) })
            },
    {
        if self.paused {
            return Err(NFTError::MarketplacePaused);
        }
        if self.is_frozen(from) {
            return Err(NFTError::UserFrozen);
        }
        if shares == 0 {
            return Err(NFTError::InvalidShareAmount);
        }
        if from == to {
            return Err(NFTError::SelfDealing);
        }
        let nlen: usize = self.nfts.len();
        if token_id < 1 || token_id > nlen as u64 || self.nfts[(token_id - 1) as usize].collection_id != collection_id {
            return Err(NFTError::NFTNotFound);
        }
        let ti: usize = (token_id - 1) as usize;
        if !self.nfts[ti].is_fractionalized {
            return Err(NFTError::NotFractionalized);
        }
        if !self.shares_initialized {
            return Err(NFTError::NotFractionalized);
        }
        let held = match self.get_fractional_shares(collection_id, token_id, from) {
            Some(p) => p,
            None => {
                return Err(NFTError::InsufficientBalance);
            },
        };
        if held.shares < shares {
            return Err(NFTError::InsufficientBalance);
        }
        let total_supply: u64 = self.nfts[ti].total_supply;
        let remaining: u64 = held.shares - shares;
        if remaining == 0 {
            self.remove_share(collection_id, token_id, from);
        } else {
            self.set_share(FractionalShare { shares: remaining, ..held });
        }
        let received = match self.get_fractional_shares(collection_id, token_id, to) {
            Some(p) => FractionalShare { shares: p.shares.saturating_add(shares), acquired_at: now, ..p },
            None => FractionalShare {
                token_id,
                collection_id,
                shareholder: to,
                shares,
                total_shares: total_supply,
                purchase_price: 0,
                acquired_at: now,
            },
        };
        self.set_share(received);
        Ok(())
    }

    /// Make a fractionalized token whole again; the caller must hold every
    /// share. All share records of the token go.
    pub fn defractionalize_nft(&mut self, owner: AccountId, collection_id: u64, token_id: u64) -> (r: Result<(), NFTError>)
        requires
            old(self).wf(),
        ensures
            final(self).wf(),
            defractionalize_error(*old(self), owner, collection_id, token_id) matches Some(e)
                ==> r == Err::<(), NFTError>(e) && *final(self) == *old(self),
            defractionalize_error(*old(self), owner, collection_id, token_id) is None ==> {
                &&& r is Ok
                &&& final(self).nfts@ == old(self).nfts@.update(token_id - 1, NFT {
                    is_fractionalized: false,
                    total_supply: 1,
                    circulating_supply: 1,
                    ..old(self).nfts@[token_id - 1]
                })
                &&& final(self).shares@ == without_token(old(self).shares@, collection_id, token_id)
                &&& *final(self) == (NftMarketplace {
                    nfts: final(self).nfts,
                    shares: final(self).shares,
                    ..*old(self)
                })
            },
    {
        if self.paused {
            return Err(NFTError::MarketplacePaused);
        }
        let nlen: usize = self.nfts.len();
        if token_id < 1 || token_id > nlen as u64 || self.nfts[(token_id - 1) as usize].collection_id != collection_id {
            return Err(NFTError::NFTNotFound);
        }
        let ti: usize = (token_id - 1) as usize;
        if !self.nfts[ti].is_fractionalized {
            return Err(NFTError::NotFractionalized);
        }
        if !self.shares_initialized {
            return Err(NFTError::NotFractionalized);
        }
        let held = match self.get_fractional_shares(collection_id, token_id, owner) {
            Some(p) => p,
            None => {
                return Err(NFTError::InsufficientBalance);
            },
        };
        if held.shares != self.nfts[ti].total_supply {
            return Err(NFTError::InsufficientBalance);
        }
        let n = &mut self.nfts[ti];
        n.is_fractionalized = false;
        n.total_supply = 1;
        n.circulating_supply = 1;
        self.remove_token_shares(collection_id, token_id);
        Ok(())
    }

    /// Holders of a token's shares, in the order they first got them.
    pub fn get_shareholders(&self, collection_id: u64, token_id: u64) -> (r: Vec<AccountId>)
        ensures
            r@ == holders_of(self.shares@, collection_id, token_id),
    {
        let mut r: Vec<AccountId> = Vec::new();
        let mut i: usize = 0;
        while i < self.shares.len()
            invariant
                i <= self.shares.len(),
                r@ == holders_of(self.shares@.take(i as int), collection_id, token_id),
            decreases self.shares.len() - i,
        {
            let s = self.shares[i];
            proof {
                assert(self.shares@.take(i as int + 1).drop_last() == self.shares@.take(i as int));
            }
            if s.collection_id == collection_id && s.token_id == token_id {
                r.push(s.shareholder);
            }
            i = i + 1;
        }
        proof {
            assert(self.shares@.take(self.shares@.len() as int) == self.shares@);
        }
        r
    }

    /// Total shares of a fractionalized token (0 otherwise).
    pub fn get_total_shares(&self, collection_id: u64, token_id: u64) -> (r: u64)
        ensures
            r == (if nft_exists(self.nfts@, collection_id, token_id) && self.nfts@[token_id - 1].is_fractionalized {
                self.nfts@[token_id - 1].total_supply
            } else {
                0
            }),
    {
        let nlen: usize = self.nfts.len();
        if token_id < 1 || token_id > nlen as u64 {
            return 0;
        }
        let n = &self.nfts[(token_id - 1) as usize];
        if n.collection_id == collection_id && n.is_fractionalized {
            n.total_supply
        } else {
            0
        }
    }

    /// Circulating supply of a token (0 when it does not exist).
    pub fn get_circulating_shares(&self, collection_id: u64, token_id: u64) -> (r: u64)
        ensures
            r == (if nft_exists(self.nfts@, collection_id, token_id) { self.nfts@[token_id - 1].circulating_supply } else { 0 }),
    {
        let nlen: usize = self.nfts.len();
        if token_id < 1 || token_id > nlen as u64 {
            return 0;
        }
        let n = &self.nfts[(token_id - 1) as usize];
        if n.collection_id == collection_id {
            n.circulating_supply
        } else {
            0
        }
    }

    /// Whether a token is fractionalized (false when it does not exist).
    pub fn is_fractionalized(&self, collection_id: u64, token_id: u64) -> (r: bool)
        ensures
            r == (nft_exists(self.nfts@, collection_id, token_id) && self.nfts@[token_id - 1].is_fractionalized),
    {
        let nlen: usize = self.nfts.len();
        if token_id < 1 || token_id > nlen as u64 {
            return false;
        }
        let n = &self.nfts[(token_id - 1) as usize];
        n.collection_id == collection_id && n.is_fractionalized
    }

    /// Ownership of a holder in a token, in basis points.
    pub fn get_ownership_percentage(&self, collection_id: u64, token_id: u64, shareholder: AccountId) -> (r: u32)
        ensures
            r == ownership_bps(*self, collection_id, token_id, shareholder),
    {
        let share = match self.get_fractional_shares(collection_id, token_id, shareholder) {
            Some(s) => s,
            None => {
                return 0;
            },
        };
        let nlen: usize = self.nfts.len();
        if token_id < 1 || token_id > nlen as u64 || self.nfts[(token_id - 1) as usize].collection_id != collection_id {
            return 0;
        }
        let total: u64 = self.nfts[(token_id - 1) as usize].total_supply;
        if total > 0 {
            ((share.shares as u128 * 10000) / total as u128) as u32
        } else {
            0
        }
    }
}

// ---------------------------------------------------------------------
// Portfolio and share bookkeeping
// ---------------------------------------------------------------------

impl NftMarketplace {
    /// Take out the portfolio of an account (a fresh one when it has none);
    /// the portfolios of other accounts are kept.
    fn take_portfolio(&mut self, owner: AccountId) -> (p: NFTPortfolio)
        ensures
            p@ == portfolio_of(old(self).portfolios@, owner),
            p.owner == owner,
            forall|b: AccountId| b != owner ==> #[trigger] portfolio_of(final(self).portfolios@, b) == portfolio_of(old(self).portfolios@, b),
            *final(self) == (NftMarketplace { portfolios: final(self).portfolios, ..*old(self) }),
    {
        let mut i: usize = self.portfolios.len();
        proof {
            assert(self.portfolios@.take(self.portfolios@.len() as int) == self.portfolios@);
        }
        while i > 0
            invariant
                i <= self.portfolios.len(),
                *self == *old(self),
                portfolio_of(self.portfolios@, owner) == portfolio_of(self.portfolios@.take(i as int), owner),
            decreases i,
        {
            proof {
                assert(self.portfolios@.take(i as int).drop_last() == self.portfolios@.take(i as int - 1));
                assert(self.portfolios@.take(i as int).last() == self.portfolios@[i - 1]);
            }
            if self.portfolios[i - 1].owner == owner {
                let ghost before: Seq<NFTPortfolio> = self.portfolios@;
                let p = self.portfolios.remove(i - 1);
                proof {
                    assert forall|b: AccountId| b != owner implies #[trigger] portfolio_of(self.portfolios@, b) == portfolio_of(before, b) by {
                        lemma_portfolio_remove(before, i - 1, b);
                    }
                }
                return p;
            }
            i = i - 1;
        }
        NFTPortfolio::new(owner)
    }

    /// Store a portfolio as its owner's.
    fn put_portfolio(&mut self, p: NFTPortfolio)
        ensures
            final(self).portfolios@ == old(self).portfolios@.push(p),
            portfolio_of(final(self).portfolios@, p.owner) == p@,
            forall|b: AccountId| b != p.owner ==> #[trigger] portfolio_of(final(self).portfolios@, b) == portfolio_of(old(self).portfolios@, b),
            *final(self) == (NftMarketplace { portfolios: final(self).portfolios, ..*old(self) }),
    {
        let ghost before: Seq<NFTPortfolio> = self.portfolios@;
        self.portfolios.push(p);
        proof {
            assert(self.portfolios@.drop_last() == before);
        }
    }

    /// Count one more (or one fewer) active listing for an account.
    fn adjust_listing_count(&mut self, owner: AccountId, up: bool)
        ensures
            portfolio_set(old(self).portfolios@, final(self).portfolios@, owner, PortfolioView {
                active_listings: if up {
                    sat_inc_u32(portfolio_of(old(self).portfolios@, owner).active_listings)
                } else {
                    sat_dec_u32(portfolio_of(old(self).portfolios@, owner).active_listings)
                },
                ..portfolio_of(old(self).portfolios@, owner)
            }),
            *final(self) == (NftMarketplace { portfolios: final(self).portfolios, ..*old(self) }),
    {
        let mut p = self.take_portfolio(owner);
        if up {
            p.active_listings = p.active_listings.saturating_add(1);
        } else {
            p.active_listings = p.active_listings.saturating_sub(1);
        }
        self.put_portfolio(p);
    }

    /// Count one more (or one fewer) active offer for an account.
    fn adjust_offer_count(&mut self, owner: AccountId, up: bool)
        ensures
            portfolio_set(old(self).portfolios@, final(self).portfolios@, owner, PortfolioView {
                active_offers: if up {
                    sat_inc_u32(portfolio_of(old(self).portfolios@, owner).active_offers)
                } else {
                    sat_dec_u32(portfolio_of(old(self).portfolios@, owner).active_offers)
                },
                ..portfolio_of(old(self).portfolios@, owner)
            }),
            *final(self) == (NftMarketplace { portfolios: final(self).portfolios, ..*old(self) }),
    {
        let mut p = self.take_portfolio(owner);
        if up {
            p.active_offers = p.active_offers.saturating_add(1);
        } else {
            p.active_offers = p.active_offers.saturating_sub(1);
        }
        self.put_portfolio(p);
    }

    /// Add a minted token to its owner's portfolio.
    fn add_token_to_portfolio(&mut self, owner: AccountId, token_id: u64, collection_id: u64)
        ensures
            portfolio_set(old(self).portfolios@, final(self).portfolios@, owner, PortfolioView {
                owned_tokens: portfolio_of(old(self).portfolios@, owner).owned_tokens.push(token_id),
                collections: if portfolio_of(old(self).portfolios@, owner).collections.contains(collection_id) {
                    portfolio_of(old(self).portfolios@, owner).collections
                } else {
                    portfolio_of(old(self).portfolios@, owner).collections.push(collection_id)
                },
                total_nfts: sat_inc_u32(portfolio_of(old(self).portfolios@, owner).total_nfts),
                ..portfolio_of(old(self).portfolios@, owner)
            }),
            *final(self) == (NftMarketplace { portfolios: final(self).portfolios, ..*old(self) }),
    {
        let mut p = self.take_portfolio(owner);
        p.add_nft(token_id, collection_id);
        self.put_portfolio(p);
    }

    /// Portfolio of an account (an empty one when it has none).
    pub fn get_portfolio(&self, owner: AccountId) -> (p: NFTPortfolio)
        ensures
            p@ == portfolio_of(self.portfolios@, owner),
    {
        let mut i: usize = self.portfolios.len();
        proof {
            assert(self.portfolios@.take(self.portfolios@.len() as int) == self.portfolios@);
        }
        while i > 0
            invariant
                i <= self.portfolios.len(),
                portfolio_of(self.portfolios@, owner) == portfolio_of(self.portfolios@.take(i as int), owner),
            decreases i,
        {
            proof {
                assert(self.portfolios@.take(i as int).drop_last() == self.portfolios@.take(i as int - 1));
            }
            let p = &self.portfolios[i - 1];
            if p.owner == owner {
                let owned = copy_ids(&p.owned_tokens);
                let cols = copy_ids(&p.collections);
                return NFTPortfolio {
                    owner: p.owner,
                    owned_tokens: owned,
                    collections: cols,
                    total_nfts: p.total_nfts,
                    total_value: p.total_value,
                    trades_count: p.trades_count,
                    volume_traded: p.volume_traded,
                    active_listings: p.active_listings,
                    active_offers: p.active_offers,
                    active_loans: p.active_loans,
                    loans_given: p.loans_given,
                };
            }
            i = i - 1;
        }
        NFTPortfolio::new(owner)
    }

    /// Position of the share record of `(collection_id, token_id, holder)`.
    fn share_position(&self, collection_id: u64, token_id: u64, holder: AccountId) -> (r: Option<usize>)
        ensures
            r is None ==> share_of(self.shares@, collection_id, token_id, holder) is None,
            r matches Some(i) ==> i < self.shares@.len()
                && share_of(self.shares@, collection_id, token_id, holder) == Some(self.shares@[i as int])
                && share_last(self.shares@, i as int, collection_id, token_id, holder),
    {
        let mut i: usize = self.shares.len();
        proof {
            assert(self.shares@.take(self.shares@.len() as int) == self.shares@);
        }
        while i > 0
            invariant
                i <= self.shares.len(),
                share_of(self.shares@, collection_id, token_id, holder) == share_of(self.shares@.take(i as int), collection_id, token_id, holder),
                forall|j: int| i <= j < self.shares@.len() ==> !(#[trigger] self.shares@[j].collection_id == collection_id
                    && self.shares@[j].token_id == token_id && self.shares@[j].shareholder == holder),
            decreases i,
        {
            proof {
                assert(self.shares@.take(i as int).drop_last() == self.shares@.take(i as int - 1));
            }
            let s = self.shares[i - 1];
            if s.collection_id == collection_id && s.token_id == token_id && s.shareholder == holder {
                return Some(i - 1);
            }
            i = i - 1;
        }
        None
    }

    /// Shares of an account in a token.
    pub fn get_fractional_shares(&self, collection_id: u64, token_id: u64, shareholder: AccountId) -> (r: Option<FractionalShare>)
        ensures
            r == share_of(self.shares@, collection_id, token_id, shareholder),
            r matches Some(x) ==> x.collection_id == collection_id && x.token_id == token_id && x.shareholder == shareholder,
    {
        match self.share_position(collection_id, token_id, shareholder) {
            Some(i) => Some(self.shares[i]),
            None => None,
        }
    }

    /// Record the shares of an account: its record is replaced in place, or
    /// appended when it has none.
    fn set_share(&mut self, share: FractionalShare)
        ensures
            share_set(old(self).shares@, final(self).shares@, share.collection_id, share.token_id, share.shareholder, Some(share)),
            share_of(old(self).shares@, share.collection_id, share.token_id, share.shareholder) is None
                ==> final(self).shares@ == old(self).shares@.push(share),
            share_of(old(self).shares@, share.collection_id, share.token_id, share.shareholder) is Some
                ==> exists|i: int| 0 <= i < old(self).shares@.len() && final(self).shares@ == old(self).shares@.update(i, share)
                    && share_of_token(old(self).shares@[i], share.collection_id, share.token_id),
            *final(self) == (NftMarketplace { shares: final(self).shares, ..*old(self) }),
    {
        match self.share_position(share.collection_id, share.token_id, share.shareholder) {
            Some(i) => {
                let ghost before: Seq<FractionalShare> = self.shares@;
                self.shares.set(i, share);
                proof {
                    lemma_share_update(before, i as int, share);
                    assert(share_of_token(before[i as int], share.collection_id, share.token_id));
                }
            },
            None => {
                let ghost before: Seq<FractionalShare> = self.shares@;
                self.shares.push(share);
                proof {
                    assert(self.shares@.drop_last() == before);
                }
            },
        }
    }

    /// Remove the share record of `(collection_id, token_id, holder)`.
    fn remove_share(&mut self, collection_id: u64, token_id: u64, holder: AccountId)
        ensures
            final(self).shares@ == without_key(old(self).shares@, collection_id, token_id, holder),
            share_set(old(self).shares@, final(self).shares@, collection_id, token_id, holder, None),
            *final(self) == (NftMarketplace { shares: final(self).shares, ..*old(self) }),
    {
        let ghost src: Seq<FractionalShare> = self.shares@;
        let mut kept: Vec<FractionalShare> = Vec::new();
        let mut i: usize = 0;
        while i < self.shares.len()
            invariant
                i <= self.shares.len(),
                self.shares@ == src,
                kept@ == src.take(i as int).filter(|s: FractionalShare|
                    !(s.collection_id == collection_id && s.token_id == token_id && s.shareholder == holder)),
            decreases self.shares.len() - i,
        {
            let s = self.shares[i];
            proof {
                assert(src.take(i as int + 1).drop_last() == src.take(i as int));
                reveal_with_fuel(Seq::filter, 1);
            }
            if !(s.collection_id == collection_id && s.token_id == token_id && s.shareholder == holder) {
                kept.push(s);
            }
            i = i + 1;
        }
        proof {
            assert(src.take(src.len() as int) == src);
            lemma_share_filter_key(src, collection_id, token_id, holder);
        }
        self.shares = kept;
    }

    /// Remove every share record of a token.
    fn remove_token_shares(&mut self, collection_id: u64, token_id: u64)
        ensures
            final(self).shares@ == without_token(old(self).shares@, collection_id, token_id),
            forall|h: AccountId| #[trigger] share_of(final(self).shares@, collection_id, token_id, h) is None,
            forall|c: u64, t: u64, h: AccountId| !(c == collection_id && t == token_id)
                ==> #[trigger] share_of(final(self).shares@, c, t, h) == share_of(old(self).shares@, c, t, h),
            *final(self) == (NftMarketplace { shares: final(self).shares, ..*old(self) }),
    {
        let ghost src: Seq<FractionalShare> = self.shares@;
        let mut kept: Vec<FractionalShare> = Vec::new();
        let mut i: usize = 0;
        while i < self.shares.len()
            invariant
                i <= self.shares.len(),
                self.shares@ == src,
                kept@ == src.take(i as int).filter(|s: FractionalShare| !share_of_token(s, collection_id, token_id)),
            decreases self.shares.len() - i,
        {
            let s = self.shares[i];
            proof {
                assert(src.take(i as int + 1).drop_last() == src.take(i as int));
                reveal_with_fuel(Seq::filter, 1);
            }
            if !(s.collection_id == collection_id && s.token_id == token_id) {
                kept.push(s);
            }
            i = i + 1;
        }
        proof {
            assert(src.take(src.len() as int) == src);
            lemma_share_filter_token(src, collection_id, token_id);
        }
        self.shares = kept;
    }
}

/// The share records of other tokens.
pub open spec fn without_token(s: Seq<FractionalShare>, collection_id: u64, token_id: u64) -> Seq<FractionalShare> {
    s.filter(|x: FractionalShare| !share_of_token(x, collection_id, token_id))
}

/// Position `i` holds the last record of `(collection_id, token_id, holder)`.
pub open spec fn share_last(s: Seq<FractionalShare>, i: int, collection_id: u64, token_id: u64, holder: AccountId) -> bool {
    &&& 0 <= i < s.len()
    &&& s[i].collection_id == collection_id && s[i].token_id == token_id && s[i].shareholder == holder
    &&& forall|j: int| i < j < s.len() ==> !(#[trigger] s[j].collection_id == collection_id
        && s[j].token_id == token_id && s[j].shareholder == holder)
}

/// A copy of a list of ids.
fn copy_ids(v: &Vec<u64>) -> (r: Vec<u64>)
    ensures
        r@ == v@,
{
    let mut r: Vec<u64> = Vec::new();
    let mut i: usize = 0;
    while i < v.len()
        invariant
            i <= v.len(),
            r@ == v@.take(i as int),
        decreases v.len() - i,
    {
        proof {
            assert(v@.take(i as int + 1) == v@.take(i as int).push(v@[i as int]));
        }
        r.push(v[i]);
        i = i + 1;
    }
    proof {
        assert(v@.take(v@.len() as int) == v@);
    }
    r
}

proof fn lemma_portfolio_remove(s: Seq<NFTPortfolio>, i: int, b: AccountId)
    requires
        0 <= i < s.len(),
        s[i].owner != b,
    ensures
        portfolio_of(s.remove(i), b) == portfolio_of(s, b),
    decreases s.len(),
{
    if i == s.len() - 1 {
        assert(s.remove(i) == s.drop_last());
    } else {
        assert(s.remove(i).last() == s.last());
        assert(s.remove(i).drop_last() == s.drop_last().remove(i));
        lemma_portfolio_remove(s.drop_last(), i, b);
    }
}

proof fn lemma_share_update(s: Seq<FractionalShare>, i: int, x: FractionalShare)
    requires
        share_last(s, i, x.collection_id, x.token_id, x.shareholder),
    ensures
        share_of(s.update(i, x), x.collection_id, x.token_id, x.shareholder) == Some(x),
        forall|c: u64, t: u64, h: AccountId| !(c == x.collection_id && t == x.token_id && h == x.shareholder)
            ==> #[trigger] share_of(s.update(i, x), c, t, h) == share_of(s, c, t, h),
    decreases s.len(),
{
    let u = s.update(i, x);
    if i == s.len() - 1 {
        assert(u.drop_last() == s.drop_last());
        assert(u.last() == x);
        assert forall|c: u64, t: u64, h: AccountId| !(c == x.collection_id && t == x.token_id && h == x.shareholder)
            implies #[trigger] share_of(u, c, t, h) == share_of(s, c, t, h) by {
            assert(s.last() == s[i]);
        }
    } else {
        let d = s.drop_last();
        assert(u.last() == s.last());
        assert(u.drop_last() == d.update(i, x));
        assert(s.last() == s[s.len() - 1]);
        assert forall|j: int| i < j < d.len() implies !(#[trigger] d[j].collection_id == x.collection_id
            && d[j].token_id == x.token_id && d[j].shareholder == x.shareholder) by {
            assert(d[j] == s[j]);
        }
        lemma_share_update(d, i, x);
        assert forall|c: u64, t: u64, h: AccountId| !(c == x.collection_id && t == x.token_id && h == x.shareholder)
            implies #[trigger] share_of(u, c, t, h) == share_of(s, c, t, h) by {
            assert(share_of(d.update(i, x), c, t, h) == share_of(d, c, t, h));
        }
    }
}

/// The share records of other keys.
pub open spec fn without_key(s: Seq<FractionalShare>, collection_id: u64, token_id: u64, holder: AccountId) -> Seq<FractionalShare> {
    s.filter(|x: FractionalShare| !(x.collection_id == collection_id && x.token_id == token_id && x.shareholder == holder))
}

proof fn lemma_share_filter_key(s: Seq<FractionalShare>, collection_id: u64, token_id: u64, holder: AccountId)
    ensures
        share_of(without_key(s, collection_id, token_id, holder), collection_id, token_id, holder) is None,
        forall|c: u64, t: u64, h: AccountId| !(c == collection_id && t == token_id && h == holder)
            ==> #[trigger] share_of(without_key(s, collection_id, token_id, holder), c, t, h) == share_of(s, c, t, h),
    decreases s.len(),
{
    reveal_with_fuel(Seq::filter, 1);
    let p = |x: FractionalShare| !(x.collection_id == collection_id && x.token_id == token_id && x.shareholder == holder);
    if s.len() > 0 {
        let d = s.drop_last();
        lemma_share_filter_key(d, collection_id, token_id, holder);
        let f = without_key(d, collection_id, token_id, holder);
        assert(without_key(s, collection_id, token_id, holder) == if p(s.last()) { f.push(s.last()) } else { f });
        if p(s.last()) {
            assert(f.push(s.last()).drop_last() == f);
            assert(f.push(s.last()).last() == s.last());
        }
        assert forall|c: u64, t: u64, h: AccountId| !(c == collection_id && t == token_id && h == holder)
            implies #[trigger] share_of(without_key(s, collection_id, token_id, holder), c, t, h) == share_of(s, c, t, h) by {
            assert(share_of(f, c, t, h) == share_of(d, c, t, h));
        }
    } else {
        assert(without_key(s, collection_id, token_id, holder).len() == 0);
    }
}

proof fn lemma_share_filter_token(s: Seq<FractionalShare>, collection_id: u64, token_id: u64)
    ensures
        forall|h: AccountId| #[trigger] share_of(without_token(s, collection_id, token_id), collection_id, token_id, h) is None,
        forall|c: u64, t: u64, h: AccountId| !(c == collection_id && t == token_id)
            ==> #[trigger] share_of(without_token(s, collection_id, token_id), c, t, h) == share_of(s, c, t, h),
    decreases s.len(),
{
    reveal_with_fuel(Seq::filter, 1);
    let p = |x: FractionalShare| !share_of_token(x, collection_id, token_id);
    if s.len() > 0 {
        let d = s.drop_last();
        lemma_share_filter_token(d, collection_id, token_id);
        let f = without_token(d, collection_id, token_id);
        assert(without_token(s, collection_id, token_id) == if p(s.last()) { f.push(s.last()) } else { f });
        if p(s.last()) {
            assert(f.push(s.last()).drop_last() == f);
            assert(f.push(s.last()).last() == s.last());
        }
        assert forall|h: AccountId| #[trigger] share_of(without_token(s, collection_id, token_id), collection_id, token_id, h) is None by {
            assert(share_of(f, collection_id, token_id, h) is None);
        }
        assert forall|c: u64, t: u64, h: AccountId| !(c == collection_id && t == token_id)
            implies #[trigger] share_of(without_token(s, collection_id, token_id), c, t, h) == share_of(s, c, t, h) by {
            assert(share_of(f, c, t, h) == share_of(d, c, t, h));
        }
    } else {
        assert(without_token(s, collection_id, token_id).len() == 0);
    }
}

/// After a trade the token belongs to the buyer, every other token is
/// unchanged, and the trade is the last one recorded.
pub proof fn lemma_trade_transfers_ownership(
    old: NftMarketplace,
    new: NftMarketplace,
    collection_id: u64,
    token_id: u64,
    seller: AccountId,
    buyer: AccountId,
    price: i128,
    payment_token: TokenId,
    amount: u64,
    now: u64,
)
    requires
        traded(old, new, collection_id, token_id, seller, buyer, price, payment_token, amount, now),
        nft_exists(old.nfts@, collection_id, token_id),
    ensures
        new.nfts@[token_id - 1].owner == buyer,
        forall|k: int| 0 <= k < old.nfts@.len() && k != token_id - 1 ==> #[trigger] new.nfts@[k] == old.nfts@[k],
        new.trades@.len() == old.trades@.len() + 1,
        new.trades@.last().buyer == buyer && new.trades@.last().seller == seller && new.trades@.last().price == price,
{
}

} // verus!
