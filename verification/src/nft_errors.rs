//! Errors of the NFT marketplace, each with its stable numeric code.
use vstd::prelude::*;

verus! {

/// Errors of the NFT marketplace.
#[derive(Clone, Copy, Debug, PartialEq, Eq, Structural)]
pub enum NFTError {
    /// NFT not found
    NFTNotFound,
    /// Collection not found
    CollectionNotFound,
    /// Unauthorized operation
    Unauthorized,
    /// Invalid token ID
    InvalidTokenId,
    /// Invalid collection ID
    InvalidCollectionId,
    /// Invalid amount specified
    InvalidAmount,
    /// Invalid price specified
    InvalidPrice,
    /// Operation not supported for this NFT type
    UnsupportedOperation,
    /// NFT marketplace is paused
    MarketplacePaused,
    /// Contract is frozen for this user
    UserFrozen,
    /// Caller is not the owner
    NotOwner,
    /// Caller is not the creator
    NotCreator,
    /// Caller is not approved
    NotApproved,
    /// NFT already owned
    AlreadyOwned,
    /// Insufficient balance for ERC-1155
    InsufficientBalance,
    /// Token does not exist
    TokenDoesNotExist,
    /// Minting is not active for this collection
    MintingNotActive,
    /// Collection has reached max supply
    MaxSupplyReached,
    /// Invalid metadata URI
    InvalidMetadata,
    /// Collection name already exists
    CollectionNameExists,
    /// Invalid royalty percentage
    InvalidRoyalty,
    /// Listing not found
    ListingNotFound,
    /// Offer not found
    OfferNotFound,
    /// Listing is not active
    ListingNotActive,
    /// Offer is not active
    OfferNotActive,
    /// Listing has expired
    ListingExpired,
    /// Offer has expired
    OfferExpired,
    /// Invalid bid amount
    InvalidBid,
    /// Auction has ended
    AuctionEnded,
    /// Auction is still active
    AuctionActive,
    /// Self-dealing not allowed
    SelfDealing,
    /// Insufficient funds for purchase
    InsufficientFunds,
    /// Price slippage exceeded
    SlippageExceeded,
    /// NFT is already fractionalized
    AlreadyFractionalized,
    /// NFT is not fractionalized
    NotFractionalized,
    /// No fractions available
    NoFractionsAvailable,
    /// Invalid share amount
    InvalidShareAmount,
    /// Fractionalization limit exceeded
    FractionalizationLimit,
    /// Cannot transfer full NFT while fractionalized
    TransferWhileFractionalized,
    /// Loan not found
    LoanNotFound,
    /// NFT is already used as collateral
    AlreadyCollateralized,
    /// NFT is not collateralized
    NotCollateralized,
    /// Loan is not active
    LoanNotActive,
    /// Loan is already repaid
    LoanAlreadyRepaid,
    /// Loan has been liquidated
    LoanLiquidated,
    /// Loan is not overdue
    LoanNotOverdue,
    /// Invalid interest rate
    InvalidInterestRate,
    /// Invalid loan duration
    InvalidDuration,
    /// Cannot liquidate active loan
    CannotLiquidate,
    /// Insufficient repayment amount
    InsufficientRepayment,
    /// Loan is not undercollateralized
    LoanNotUnderCollat,
    /// Liquidation queue is full
    LiqQueueFull,
    /// No bids in liquidation auction
    NoAuctionBids,
    /// Invalid liquidation bid
    InvalidLiqBid,
    /// Royalty payment failed
    RoyaltyPaymentFailed,
    /// Invalid royalty recipient
    InvalidRoyaltyRecipient,
    /// Royalty exceeds maximum
    ExcessiveRoyalty,
    /// Invalid chain ID
    InvalidChainId,
    /// Bridge not available
    BridgeNotAvailable,
    /// Cross-chain transfer failed
    CrossChainFailed,
    /// Wrapped NFT not found
    WrappedNFTNotFound,
    /// Valuation not available
    ValuationNotAvailable,
    /// Invalid valuation method
    InvalidValuationMethod,
    /// Oracle price not available
    OraclePriceNotAvailable,
}

impl NFTError {
    /// Stable numeric code of the error: general errors in the 1000s,
    /// ownership 1100s, minting 1200s, marketplace 1300s, fractional 1400s,
    /// loans 1500s, royalties 1600s, cross-chain 1700s, valuation 1800s.
    pub fn code(&self) -> (c: u32)
        ensures
            c == error_code(*self),
    {
        match self {
            NFTError::NFTNotFound => 1000,
            NFTError::CollectionNotFound => 1001,
            NFTError::Unauthorized => 1002,
            NFTError::InvalidTokenId => 1003,
            NFTError::InvalidCollectionId => 1004,
            NFTError::InvalidAmount => 1005,
            NFTError::InvalidPrice => 1006,
            NFTError::UnsupportedOperation => 1007,
            NFTError::MarketplacePaused => 1008,
            NFTError::UserFrozen => 1009,
            NFTError::NotOwner => 1100,
            NFTError::NotCreator => 1101,
            NFTError::NotApproved => 1102,
            NFTError::AlreadyOwned => 1103,
            NFTError::InsufficientBalance => 1104,
            NFTError::TokenDoesNotExist => 1105,
            NFTError::MintingNotActive => 1200,
            NFTError::MaxSupplyReached => 1201,
            NFTError::InvalidMetadata => 1202,
            NFTError::CollectionNameExists => 1203,
            NFTError::InvalidRoyalty => 1204,
            NFTError::ListingNotFound => 1300,
            NFTError::OfferNotFound => 1301,
            NFTError::ListingNotActive => 1302,
            NFTError::OfferNotActive => 1303,
            NFTError::ListingExpired => 1304,
            NFTError::OfferExpired => 1305,
            NFTError::InvalidBid => 1306,
            NFTError::AuctionEnded => 1307,
            NFTError::AuctionActive => 1308,
            NFTError::SelfDealing => 1309,
            NFTError::InsufficientFunds => 1310,
            NFTError::SlippageExceeded => 1311,
            NFTError::AlreadyFractionalized => 1400,
            NFTError::NotFractionalized => 1401,
            NFTError::NoFractionsAvailable => 1402,
            NFTError::InvalidShareAmount => 1403,
            NFTError::FractionalizationLimit => 1404,
            NFTError::TransferWhileFractionalized => 1405,
            NFTError::LoanNotFound => 1500,
            NFTError::AlreadyCollateralized => 1501,
            NFTError::NotCollateralized => 1502,
            NFTError::LoanNotActive => 1503,
            NFTError::LoanAlreadyRepaid => 1504,
            NFTError::LoanLiquidated => 1505,
            NFTError::LoanNotOverdue => 1506,
            NFTError::InvalidInterestRate => 1507,
            NFTError::InvalidDuration => 1508,
            NFTError::CannotLiquidate => 1509,
            NFTError::InsufficientRepayment => 1510,
            NFTError::LoanNotUnderCollat => 1511,
            NFTError::LiqQueueFull => 1512,
            NFTError::NoAuctionBids => 1513,
            NFTError::InvalidLiqBid => 1514,
            NFTError::RoyaltyPaymentFailed => 1600,
            NFTError::InvalidRoyaltyRecipient => 1601,
            NFTError::ExcessiveRoyalty => 1602,
            NFTError::InvalidChainId => 1700,
            NFTError::BridgeNotAvailable => 1701,
            NFTError::CrossChainFailed => 1702,
            NFTError::WrappedNFTNotFound => 1703,
            NFTError::ValuationNotAvailable => 1800,
            NFTError::InvalidValuationMethod => 1801,
            NFTError::OraclePriceNotAvailable => 1802,
        }
    }
}

/// Numeric code of an error.
pub open spec fn error_code(e: NFTError) -> u32 {
    match e {
        NFTError::NFTNotFound => 1000,
        NFTError::CollectionNotFound => 1001,
        NFTError::Unauthorized => 1002,
        NFTError::InvalidTokenId => 1003,
        NFTError::InvalidCollectionId => 1004,
        NFTError::InvalidAmount => 1005,
        NFTError::InvalidPrice => 1006,
        NFTError::UnsupportedOperation => 1007,
        NFTError::MarketplacePaused => 1008,
        NFTError::UserFrozen => 1009,
        NFTError::NotOwner => 1100,
        NFTError::NotCreator => 1101,
        NFTError::NotApproved => 1102,
        NFTError::AlreadyOwned => 1103,
        NFTError::InsufficientBalance => 1104,
        NFTError::TokenDoesNotExist => 1105,
        NFTError::MintingNotActive => 1200,
        NFTError::MaxSupplyReached => 1201,
        NFTError::InvalidMetadata => 1202,
        NFTError::CollectionNameExists => 1203,
        NFTError::InvalidRoyalty => 1204,
        NFTError::ListingNotFound => 1300,
        NFTError::OfferNotFound => 1301,
        NFTError::ListingNotActive => 1302,
        NFTError::OfferNotActive => 1303,
        NFTError::ListingExpired => 1304,
        NFTError::OfferExpired => 1305,
        NFTError::InvalidBid => 1306,
        NFTError::AuctionEnded => 1307,
        NFTError::AuctionActive => 1308,
        NFTError::SelfDealing => 1309,
        NFTError::InsufficientFunds => 1310,
        NFTError::SlippageExceeded => 1311,
        NFTError::AlreadyFractionalized => 1400,
        NFTError::NotFractionalized => 1401,
        NFTError::NoFractionsAvailable => 1402,
        NFTError::InvalidShareAmount => 1403,
        NFTError::FractionalizationLimit => 1404,
        NFTError::TransferWhileFractionalized => 1405,
        NFTError::LoanNotFound => 1500,
        NFTError::AlreadyCollateralized => 1501,
        NFTError::NotCollateralized => 1502,
        NFTError::LoanNotActive => 1503,
        NFTError::LoanAlreadyRepaid => 1504,
        NFTError::LoanLiquidated => 1505,
        NFTError::LoanNotOverdue => 1506,
        NFTError::InvalidInterestRate => 1507,
        NFTError::InvalidDuration => 1508,
        NFTError::CannotLiquidate => 1509,
        NFTError::InsufficientRepayment => 1510,
        NFTError::LoanNotUnderCollat => 1511,
        NFTError::LiqQueueFull => 1512,
        NFTError::NoAuctionBids => 1513,
        NFTError::InvalidLiqBid => 1514,
        NFTError::RoyaltyPaymentFailed => 1600,
        NFTError::InvalidRoyaltyRecipient => 1601,
        NFTError::ExcessiveRoyalty => 1602,
        NFTError::InvalidChainId => 1700,
        NFTError::BridgeNotAvailable => 1701,
        NFTError::CrossChainFailed => 1702,
        NFTError::WrappedNFTNotFound => 1703,
        NFTError::ValuationNotAvailable => 1800,
        NFTError::InvalidValuationMethod => 1801,
        NFTError::OraclePriceNotAvailable => 1802,
    }
}

} // verus!
