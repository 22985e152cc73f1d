use swaptrade::nft_errors::NFTError;
use swaptrade::nft_market::NftMarketplace;
use swaptrade::nft_types::{NFTCollection, NFTListing, NFTLoan, NFTPortfolio, NFTStandard, NFTOffer};

const CONTRACT: u64 = 1000;
const CREATOR: u64 = 1;
const BUYER: u64 = 2;
const OTHER: u64 = 3;
const XLM: u64 = 30;
const T0: u64 = 1_000_000;
const DAY: u64 = 86400;

/// A marketplace with one collection (royalty 5%) and one single token.
fn market() -> (NftMarketplace, u64, u64) {
    let mut m = NftMarketplace::new(CONTRACT);
    let cid = m
        .create_collection(CREATOR, b"Apes".to_vec(), b"APE".to_vec(), b"desc".to_vec(), b"ipfs://apes/".to_vec(), 100, 500, CREATOR, T0)
        .unwrap();
    let tid = m.mint_nft(CREATOR, cid, b"ipfs://apes/1".to_vec(), NFTStandard::ERC721, 1, T0).unwrap();
    (m, cid, tid)
}

#[test]
fn collection_and_token_ids_start_at_one() {
    let (m, cid, tid) = market();
    assert_eq!((cid, tid), (1, 1));
    let nft = m.get_nft(cid, tid).unwrap();
    assert_eq!(nft.owner, CREATOR);
    assert_eq!(nft.contract_address, CONTRACT);
    assert_eq!(nft.metadata_uri, b"ipfs://apes/1".to_vec());
    assert_eq!(m.get_collection(cid).unwrap().total_supply, 1);
    assert_eq!(m.get_total_collections(), 1);
    assert_eq!(m.get_total_nfts(), 1);
    assert_eq!(m.get_nfts_by_owner(CREATOR), vec![(cid, tid)]);
    assert_eq!(m.get_collections_by_owner(CREATOR), vec![cid]);
    let p: NFTPortfolio = m.get_portfolio(CREATOR);
    assert_eq!(p.owned_tokens, vec![tid]);
    assert_eq!(p.collections, vec![cid]);
    assert_eq!(p.total_nfts, 1);
}

#[test]
fn collection_creation_errors_in_order() {
    let mut m = NftMarketplace::new(CONTRACT);
    let mk = |m: &mut NftMarketplace, name: &[u8], supply: u64, royalty: u32| {
        m.create_collection(CREATOR, name.to_vec(), vec![], vec![], vec![], supply, royalty, CREATOR, T0)
    };
    assert_eq!(mk(&mut m, b"", 10, 100), Err(NFTError::InvalidMetadata));
    assert_eq!(mk(&mut m, b"x", 10, 1001), Err(NFTError::ExcessiveRoyalty));
    assert_eq!(mk(&mut m, b"x", 1_000_001, 100), Err(NFTError::MaxSupplyReached));
    m.set_frozen(CREATOR, true);
    assert_eq!(mk(&mut m, b"x", 10, 100), Err(NFTError::UserFrozen));
    m.set_marketplace_paused(true);
    assert_eq!(mk(&mut m, b"x", 10, 100), Err(NFTError::MarketplacePaused));
    assert_eq!(m.get_total_collections(), 0);
}

#[test]
fn minting_rules() {
    let (mut m, cid, _) = market();
    assert_eq!(m.mint_nft(BUYER, cid, vec![], NFTStandard::ERC721, 1, T0), Err(NFTError::NotCreator));
    assert_eq!(m.mint_nft(CREATOR, 9, vec![], NFTStandard::ERC721, 1, T0), Err(NFTError::CollectionNotFound));
    assert_eq!(m.mint_nft(CREATOR, cid, vec![], NFTStandard::ERC721, 2, T0), Err(NFTError::InvalidAmount));
    assert_eq!(m.mint_nft(CREATOR, cid, vec![], NFTStandard::ERC1155, 0, T0), Err(NFTError::InvalidAmount));
    let multi = m.mint_nft(CREATOR, cid, vec![], NFTStandard::ERC1155, 40, T0).unwrap();
    assert_eq!(m.get_nft(cid, multi).unwrap().total_supply, 40);
    let single = m.mint_nft(CREATOR, cid, vec![], NFTStandard::ERC721, 0, T0).unwrap();
    assert_eq!(m.get_nft(cid, single).unwrap().total_supply, 1);
    m.set_minting_status(CREATOR, cid, false).unwrap();
    assert_eq!(m.mint_nft(CREATOR, cid, vec![], NFTStandard::ERC721, 1, T0), Err(NFTError::MintingNotActive));
    assert_eq!(m.set_minting_status(BUYER, cid, true), Err(NFTError::NotOwner));
}

#[test]
fn supply_cap_stops_minting() {
    let mut m = NftMarketplace::new(CONTRACT);
    let cid = m.create_collection(CREATOR, b"c".to_vec(), vec![], vec![], vec![], 2, 0, CREATOR, T0).unwrap();
    m.mint_nft(CREATOR, cid, vec![], NFTStandard::ERC721, 1, T0).unwrap();
    m.mint_nft(CREATOR, cid, vec![], NFTStandard::ERC721, 1, T0).unwrap();
    assert_eq!(m.mint_nft(CREATOR, cid, vec![], NFTStandard::ERC721, 1, T0), Err(NFTError::MaxSupplyReached));
    assert!(m.get_collection(cid).unwrap().is_minting_complete());
}

#[test]
fn fixed_price_sale_pays_fees_and_moves_the_token() {
    let (mut m, cid, tid) = market();
    let lid = m.create_listing(CREATOR, cid, tid, 10_000, XLM, 1, 0, false, 0, T0).unwrap();
    let l: NFTListing = m.get_listing(lid).unwrap();
    assert_eq!(l.expires_at, T0 + 7 * DAY);
    assert_eq!(m.get_total_listings(), 1);
    assert_eq!(m.get_portfolio(CREATOR).active_listings, 1);
    m.buy_nft(BUYER, lid, T0 + 10).unwrap();
    assert!(m.is_owner(cid, tid, BUYER));
    assert!(!m.is_owner(cid, tid, CREATOR));
    assert_eq!(m.get_nfts_by_owner(BUYER), vec![(cid, tid)]);
    assert!(m.get_nfts_by_owner(CREATOR).is_empty());
    let trade = m.trades[0];
    assert_eq!(trade.price, 10_000);
    assert_eq!(trade.platform_fee, 250);
    assert_eq!(trade.royalty_amount, 500);
    assert_eq!(trade.timestamp, T0 + 10);
    let c: NFTCollection = m.get_collection(cid).unwrap();
    assert_eq!(c.total_volume, 10_000);
    assert_eq!(c.floor_price, 10_000);
    assert!(!m.get_listing(lid).unwrap().is_active);
    assert_eq!(m.get_total_listings(), 0);
    assert_eq!(m.get_portfolio(CREATOR).active_listings, 0);
    assert_eq!(m.total_trade_volume, 10_000);
}

#[test]
fn buying_is_refused_in_order() {
    let (mut m, cid, tid) = market();
    let lid = m.create_listing(CREATOR, cid, tid, 500, XLM, 1, DAY, false, 0, T0).unwrap();
    assert_eq!(m.buy_nft(BUYER, 99, T0), Err(NFTError::ListingNotFound));
    assert_eq!(m.buy_nft(CREATOR, lid, T0), Err(NFTError::SelfDealing));
    assert_eq!(m.buy_nft(BUYER, lid, T0 + DAY + 1), Err(NFTError::ListingExpired));
    m.set_frozen(BUYER, true);
    assert_eq!(m.buy_nft(BUYER, lid, T0), Err(NFTError::UserFrozen));
    m.set_frozen(BUYER, false);
    assert!(!m.is_frozen(BUYER));
    let aid = m.create_listing(CREATOR, cid, tid, 500, XLM, 1, DAY, true, 100, T0).unwrap();
    assert_eq!(m.buy_nft(BUYER, aid, T0), Err(NFTError::UnsupportedOperation));
    m.set_marketplace_paused(true);
    assert_eq!(m.buy_nft(BUYER, lid, T0), Err(NFTError::MarketplacePaused));
}

#[test]
fn listing_validation() {
    let (mut m, cid, tid) = market();
    assert_eq!(m.create_listing(CREATOR, cid, tid, 0, XLM, 1, 0, false, 0, T0), Err(NFTError::InvalidPrice));
    assert_eq!(m.create_listing(CREATOR, cid, 7, 10, XLM, 1, 0, false, 0, T0), Err(NFTError::NFTNotFound));
    assert_eq!(m.create_listing(BUYER, cid, tid, 10, XLM, 1, 0, false, 0, T0), Err(NFTError::NotOwner));
    assert_eq!(m.create_listing(CREATOR, cid, tid, 10, XLM, 2, 0, false, 0, T0), Err(NFTError::InvalidAmount));
    assert_eq!(m.create_listing(CREATOR, cid, tid, 10, XLM, 1, 0, true, 0, T0), Err(NFTError::InvalidBid));
    let lid = m.create_listing(CREATOR, cid, tid, 10, XLM, 1, 100 * DAY, false, 0, T0).unwrap();
    assert_eq!(m.get_listing(lid).unwrap().expires_at, T0 + 30 * DAY);
    m.create_loan(NFTLoan {
        loan_id: 1,
        token_id: tid,
        collection_id: cid,
        borrower: CREATOR,
        lender: OTHER,
        loan_amount: 100,
        interest_rate_bps: 10,
        repayment_amount: 110,
        start_time: T0,
        duration: DAY,
        due_date: T0 + DAY,
        is_active: true,
        is_repaid: false,
        is_liquidated: false,
    });
    assert_eq!(m.get_loan_by_collateral(cid, tid), Some(1));
    assert_eq!(m.create_listing(CREATOR, cid, tid, 10, XLM, 1, 0, false, 0, T0), Err(NFTError::AlreadyCollateralized));
    assert_eq!(m.get_token_listings(cid, tid), vec![lid]);
}

#[test]
fn cancelled_listing_cannot_be_cancelled_again() {
    let (mut m, cid, tid) = market();
    let lid = m.create_listing(CREATOR, cid, tid, 10, XLM, 1, 0, false, 0, T0).unwrap();
    assert_eq!(m.cancel_listing(BUYER, lid), Err(NFTError::NotOwner));
    m.cancel_listing(CREATOR, lid).unwrap();
    assert_eq!(m.cancel_listing(CREATOR, lid), Err(NFTError::ListingNotActive));
    assert_eq!(m.cancel_listing(CREATOR, 5), Err(NFTError::ListingNotFound));
    assert_eq!(m.get_total_listings(), 0);
}

#[test]
fn auction_goes_to_the_highest_bidder() {
    let (mut m, cid, tid) = market();
    let aid = m.create_listing(CREATOR, cid, tid, 1_000, XLM, 1, DAY, true, 100, T0).unwrap();
    assert_eq!(m.place_bid(BUYER, aid, 99, T0), Err(NFTError::InvalidBid));
    m.place_bid(BUYER, aid, 150, T0 + 1).unwrap();
    assert_eq!(m.place_bid(OTHER, aid, 150, T0 + 2), Err(NFTError::InvalidBid));
    m.place_bid(OTHER, aid, 200, T0 + 3).unwrap();
    assert_eq!(m.place_bid(CREATOR, aid, 300, T0 + 4), Err(NFTError::SelfDealing));
    assert_eq!(m.finalize_auction(aid, T0 + DAY), Err(NFTError::AuctionActive));
    assert_eq!(m.place_bid(BUYER, aid, 500, T0 + DAY + 1), Err(NFTError::ListingExpired));
    m.finalize_auction(aid, T0 + DAY + 1).unwrap();
    assert!(m.is_owner(cid, tid, OTHER));
    assert_eq!(m.trades[0].price, 200);
    assert_eq!(m.trades[0].royalty_amount, 10);
    assert_eq!(m.trades[0].platform_fee, 5);
    assert_eq!(m.finalize_auction(aid, T0 + DAY + 2), Err(NFTError::NotOwner));
}

#[test]
fn auction_without_bids_cannot_be_finalized() {
    let (mut m, cid, tid) = market();
    let aid = m.create_listing(CREATOR, cid, tid, 1_000, XLM, 1, DAY, true, 100, T0).unwrap();
    assert_eq!(m.finalize_auction(aid, T0 + DAY + 1), Err(NFTError::InvalidBid));
    let fixed = m.create_listing(CREATOR, cid, tid, 1_000, XLM, 1, DAY, false, 0, T0).unwrap();
    assert_eq!(m.finalize_auction(fixed, T0 + DAY + 1), Err(NFTError::UnsupportedOperation));
    assert_eq!(m.place_bid(BUYER, fixed, 500, T0), Err(NFTError::UnsupportedOperation));
}

#[test]
fn offers_are_made_cancelled_and_accepted() {
    let (mut m, cid, tid) = market();
    assert_eq!(m.create_offer(CREATOR, cid, tid, 100, XLM, 1, 0, T0), Err(NFTError::SelfDealing));
    assert_eq!(m.create_offer(BUYER, cid, tid, 0, XLM, 1, 0, T0), Err(NFTError::InvalidPrice));
    assert_eq!(m.create_offer(BUYER, cid, tid, 100, XLM, 2, 0, T0), Err(NFTError::InvalidAmount));
    let o1 = m.create_offer(BUYER, cid, tid, 100, XLM, 0, 0, T0).unwrap();
    let offer: NFTOffer = m.get_offer(o1).unwrap();
    assert_eq!(offer.quantity, 1);
    assert_eq!(offer.expires_at, T0 + 3 * DAY);
    let o2 = m.create_offer(OTHER, cid, tid, 300, XLM, 1, 30 * DAY, T0).unwrap();
    assert_eq!(m.get_offer(o2).unwrap().expires_at, T0 + 7 * DAY);
    assert_eq!(m.get_token_offers(cid, tid), vec![o1, o2]);
    assert_eq!(m.get_total_offers(), 2);
    assert_eq!(m.cancel_offer(OTHER, o1), Err(NFTError::Unauthorized));
    m.cancel_offer(BUYER, o1).unwrap();
    assert_eq!(m.cancel_offer(BUYER, o1), Err(NFTError::OfferNotActive));
    assert_eq!(m.accept_offer(CREATOR, o1, T0), Err(NFTError::OfferExpired));
    assert_eq!(m.accept_offer(BUYER, o2, T0), Err(NFTError::NotOwner));
    m.accept_offer(CREATOR, o2, T0 + 5).unwrap();
    assert!(m.is_owner(cid, tid, OTHER));
    assert_eq!(m.get_total_offers(), 0);
    assert_eq!(m.get_portfolio(OTHER).active_offers, 0);
    assert_eq!(m.trades[0].price, 300);
}

#[test]
fn floor_price_only_falls_after_the_first_sale() {
    let (mut m, cid, tid) = market();
    let l1 = m.create_listing(CREATOR, cid, tid, 1_000, XLM, 1, 0, false, 0, T0).unwrap();
    m.buy_nft(BUYER, l1, T0).unwrap();
    let l2 = m.create_listing(BUYER, cid, tid, 2_000, XLM, 1, 0, false, 0, T0).unwrap();
    m.buy_nft(OTHER, l2, T0).unwrap();
    assert_eq!(m.get_collection(cid).unwrap().floor_price, 1_000);
    let l3 = m.create_listing(OTHER, cid, tid, 400, XLM, 1, 0, false, 0, T0).unwrap();
    m.buy_nft(CREATOR, l3, T0).unwrap();
    let c = m.get_collection(cid).unwrap();
    assert_eq!(c.floor_price, 400);
    assert_eq!(c.total_volume, 3_400);
}

#[test]
fn fractional_shares_lifecycle() {
    let (mut m, cid, tid) = market();
    assert_eq!(m.fractionalize_nft(CREATOR, cid, tid, 1, 10, T0), Err(NFTError::FractionalizationLimit));
    assert_eq!(m.fractionalize_nft(CREATOR, cid, tid, 100, 0, T0), Err(NFTError::InvalidPrice));
    assert_eq!(m.fractionalize_nft(BUYER, cid, tid, 100, 10, T0), Err(NFTError::NotOwner));
    assert_eq!(m.sell_fractional_shares(CREATOR, cid, tid, 1, 1), Err(NFTError::NotFractionalized));
    m.fractionalize_nft(CREATOR, cid, tid, 100, 10, T0).unwrap();
    assert_eq!(m.fractionalize_nft(CREATOR, cid, tid, 100, 10, T0), Err(NFTError::AlreadyFractionalized));
    assert!(m.is_fractionalized(cid, tid));
    assert_eq!(m.get_total_shares(cid, tid), 100);
    assert_eq!(m.get_circulating_shares(cid, tid), 0);
    assert_eq!(m.get_fractional_shares(cid, tid, CREATOR).unwrap().shares, 100);
    assert_eq!(m.get_ownership_percentage(cid, tid, CREATOR), 10000);

    m.buy_fractional_shares(BUYER, cid, tid, 30, 12, T0 + 1).unwrap();
    assert_eq!(m.get_circulating_shares(cid, tid), 30);
    assert_eq!(m.get_ownership_percentage(cid, tid, BUYER), 3000);
    assert_eq!(m.buy_fractional_shares(BUYER, cid, tid, 71, 12, T0 + 1), Err(NFTError::NoFractionsAvailable));
    assert_eq!(m.buy_fractional_shares(BUYER, cid, tid, 0, 12, T0 + 1), Err(NFTError::InvalidShareAmount));

    m.transfer_fractional_shares(BUYER, OTHER, cid, tid, 10, T0 + 2).unwrap();
    assert_eq!(m.get_fractional_shares(cid, tid, BUYER).unwrap().shares, 20);
    assert_eq!(m.get_fractional_shares(cid, tid, OTHER).unwrap().shares, 10);
    assert_eq!(m.transfer_fractional_shares(OTHER, OTHER, cid, tid, 1, T0), Err(NFTError::SelfDealing));
    assert_eq!(m.transfer_fractional_shares(OTHER, BUYER, cid, tid, 11, T0), Err(NFTError::InsufficientBalance));
    assert_eq!(m.get_shareholders(cid, tid), vec![CREATOR, BUYER, OTHER]);

    m.sell_fractional_shares(OTHER, cid, tid, 10, 1).unwrap();
    assert_eq!(m.get_fractional_shares(cid, tid, OTHER), None);
    assert_eq!(m.get_circulating_shares(cid, tid), 20);
    assert_eq!(m.get_shareholders(cid, tid), vec![CREATOR, BUYER]);

    assert_eq!(m.defractionalize_nft(BUYER, cid, tid), Err(NFTError::InsufficientBalance));
    m.defractionalize_nft(CREATOR, cid, tid).unwrap();
    assert!(!m.is_fractionalized(cid, tid));
    assert_eq!(m.get_total_shares(cid, tid), 0);
    assert!(m.get_shareholders(cid, tid).is_empty());
    assert_eq!(m.get_nft(cid, tid).unwrap().total_supply, 1);
}

#[test]
fn multi_token_cannot_be_fractionalized() {
    let (mut m, cid, _) = market();
    let multi = m.mint_nft(CREATOR, cid, vec![], NFTStandard::ERC1155, 5, T0).unwrap();
    assert_eq!(m.fractionalize_nft(CREATOR, cid, multi, 10, 1, T0), Err(NFTError::UnsupportedOperation));
    assert_eq!(m.create_listing(CREATOR, cid, multi, 10, XLM, 6, 0, false, 0, T0), Err(NFTError::InvalidAmount));
    assert!(m.create_listing(CREATOR, cid, multi, 10, XLM, 5, 0, false, 0, T0).is_ok());
}

#[test]
fn collection_metadata_and_ownership_updates() {
    let (mut m, cid, _) = market();
    assert_eq!(m.update_collection_metadata(CREATOR, cid, Some(b"new".to_vec()), Some(1001)), Err(NFTError::ExcessiveRoyalty));
    assert_eq!(m.get_collection(cid).unwrap().base_uri, b"ipfs://apes/".to_vec());
    m.update_collection_metadata(CREATOR, cid, Some(b"new".to_vec()), Some(250)).unwrap();
    let c = m.get_collection(cid).unwrap();
    assert_eq!(c.base_uri, b"new".to_vec());
    assert_eq!(c.royalty_bps, 250);
    assert_eq!(c.calculate_royalty(10_000), 250);
    assert_eq!(m.transfer_collection_ownership(BUYER, cid, OTHER), Err(NFTError::NotOwner));
    m.transfer_collection_ownership(CREATOR, cid, OTHER).unwrap();
    assert_eq!(m.get_collection(cid).unwrap().owner, OTHER);
    assert_eq!(m.get_collections_by_owner(CREATOR), vec![cid]);
    assert_eq!(m.mint_nft(CREATOR, cid, vec![], NFTStandard::ERC721, 1, T0), Err(NFTError::NotCreator));
}

#[test]
fn error_codes_are_stable() {
    assert_eq!(NFTError::NFTNotFound.code(), 1000);
    assert_eq!(NFTError::NotOwner.code(), 1100);
    assert_eq!(NFTError::MintingNotActive.code(), 1200);
    assert_eq!(NFTError::ListingNotFound.code(), 1300);
    assert_eq!(NFTError::AlreadyFractionalized.code(), 1400);
    assert_eq!(NFTError::LoanNotFound.code(), 1500);
    assert_eq!(NFTError::RoyaltyPaymentFailed.code(), 1600);
    assert_eq!(NFTError::InvalidChainId.code(), 1700);
    assert_eq!(NFTError::OraclePriceNotAvailable.code(), 1802);
}
