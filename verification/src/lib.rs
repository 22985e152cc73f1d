//! Verified core of a trading-fee, congestion and marketplace engine.
#![allow(unused_imports)]

pub mod congestion;
pub mod dynamic_fee;
pub mod emergency;
pub mod isqrt;
pub mod fee_history;
pub mod fee_manager;
pub mod rate_limit;
pub mod zkp;
pub mod compression;
pub mod liquidity_pool;
pub mod nft_errors;
pub mod nft_types;
pub mod nft_market;
pub mod keyed;
pub mod waitlist;
pub mod credit_waitlist;
pub mod referral;
pub mod bounty;
pub mod oracle;
pub mod analytics;
pub mod alerts;
pub mod orderbook;
pub mod connection;
pub mod validation;
pub mod historical;
pub mod ddos;
pub mod aggregation;
pub mod subscriptions;
pub mod history_store;
pub mod connection_manager;
pub mod rate_limiter;
pub mod data_sources;
