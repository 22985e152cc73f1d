use swaptrade::compression::{CompressionEngine, CompressionType};
use swaptrade::isqrt::integer_sqrt;
use swaptrade::liquidity_pool::PoolRegistry;
use swaptrade::zkp::{
    AuditEventType, AuditTrailManager, CircuitParameters, PrivateTransactionBuilder, ProofBuilder, ProofGenerator,
    ProofScheme, ProofVerificationResult, ProofVerifier, TransactionWitness, WitnessManager, ZKProof,
};

// Token ids ordered as the symbols they stand for.
const BTC: u64 = 1;
const DAI: u64 = 2;
const ETH: u64 = 3;
const TOKA: u64 = 10;
const TOKB: u64 = 11;
const TOKC: u64 = 12;
const TOKD: u64 = 13;
const TOKE: u64 = 14;
const TOKF: u64 = 15;
const USDC: u64 = 20;
const USDT: u64 = 21;
const XLM: u64 = 30;

const PROVIDER: u64 = 500;

#[test]
fn test_register_pool() {
    let mut reg = PoolRegistry::new();
    let pool_id = reg.register_pool(BTC, ETH, 1000, 2000, 30).unwrap();
    assert_eq!(pool_id, 1);
    let pool = reg.get_pool(pool_id).unwrap();
    assert_eq!(pool.reserve_a, 1000);
    assert_eq!(pool.reserve_b, 2000);
    assert_eq!(pool.fee_tier, 30);
}

#[test]
fn test_pool_add_liquidity() {
    let mut reg = PoolRegistry::new();
    let pool_id = reg.register_pool(USDT, DAI, 1000, 1000, 5).unwrap();
    let lp_tokens = reg.add_liquidity(pool_id, 500, 500, PROVIDER).unwrap();
    assert!(lp_tokens > 0);
    let pool = reg.get_pool(pool_id).unwrap();
    assert_eq!(pool.reserve_a, 1500);
    assert_eq!(pool.reserve_b, 1500);
}

#[test]
fn test_pool_swap() {
    let mut reg = PoolRegistry::new();
    let pool_id = reg.register_pool(TOKA, TOKB, 10000, 10000, 30).unwrap();
    let amount_out = reg.swap(pool_id, TOKA, 100, 90).unwrap();
    assert!(amount_out >= 90);
    assert!(amount_out < 100);
}

#[test]
fn test_pool_remove_liquidity() {
    let mut reg = PoolRegistry::new();
    let pool_id = reg.register_pool(TOKA, TOKB, 1000, 2000, 30).unwrap();
    let lp_tokens = reg.add_liquidity(pool_id, 1000, 2000, PROVIDER).unwrap();
    let (amount_a, amount_b) = reg.remove_liquidity(pool_id, lp_tokens / 2, PROVIDER).unwrap();
    assert!(amount_a > 0);
    assert!(amount_b > 0);
}

#[test]
fn test_find_best_route_direct() {
    let mut reg = PoolRegistry::new();
    reg.register_pool(XLM, USDC, 10000, 10000, 30).unwrap();
    let route = reg.find_best_route(XLM, USDC, 100);
    assert!(route.is_some());
    let r = route.unwrap();
    assert_eq!(r.pools.len(), 1);
    assert_eq!(r.tokens.len(), 2);
    assert!(r.total_price_impact_bps > 0);
}

#[test]
fn test_find_best_route_multihop() {
    let mut reg = PoolRegistry::new();
    reg.register_pool(XLM, USDC, 10000, 10000, 30).unwrap();
    reg.register_pool(USDC, BTC, 10000, 5000, 30).unwrap();
    let route = reg.find_best_route(XLM, BTC, 100);
    assert!(route.is_some());
    let r = route.unwrap();
    assert_eq!(r.pools.len(), 2);
    assert_eq!(r.tokens.len(), 3);
    assert!(r.total_price_impact_bps > 0);
}

#[test]
fn test_multiple_fee_tiers() {
    let mut reg = PoolRegistry::new();
    let pool1 = reg.register_pool(TOKA, TOKB, 10000, 10000, 1).unwrap();
    let pool2 = reg.register_pool(TOKC, TOKD, 10000, 10000, 5).unwrap();
    let pool3 = reg.register_pool(TOKE, TOKF, 10000, 10000, 30).unwrap();
    assert_eq!(reg.get_pool(pool1).unwrap().fee_tier, 1);
    assert_eq!(reg.get_pool(pool2).unwrap().fee_tier, 5);
    assert_eq!(reg.get_pool(pool3).unwrap().fee_tier, 30);
}

#[test]
fn test_pool_lp_balance() {
    let mut reg = PoolRegistry::new();
    let pool_id = reg.register_pool(TOKA, TOKB, 1000, 1000, 30).unwrap();
    let lp_tokens = reg.add_liquidity(pool_id, 500, 500, PROVIDER).unwrap();
    assert_eq!(reg.get_lp_balance(pool_id, PROVIDER), lp_tokens);
}

#[test]
#[should_panic(expected = "InvalidAmount")]
fn test_invalid_fee_tier() {
    let mut reg = PoolRegistry::new();
    reg.register_pool(TOKA, TOKB, 1000, 1000, 100).unwrap();
}

#[test]
fn first_deposit_mints_floor_square_root() {
    let mut reg = PoolRegistry::new();
    let pool_id = reg.register_pool(TOKA, TOKB, 1000, 2000, 30).unwrap();
    assert_eq!(reg.get_pool(pool_id).unwrap().total_lp_tokens, 1414);
    assert_eq!(integer_sqrt(1_000_000), 1000);
    assert_eq!(integer_sqrt(2_000_000), 1414);
}

#[test]
fn swap_keeps_the_reserve_product_from_falling() {
    let mut reg = PoolRegistry::new();
    let pool_id = reg.register_pool(TOKA, TOKB, 10000, 10000, 30).unwrap();
    let before = reg.get_pool(pool_id).unwrap();
    let out = reg.swap(pool_id, TOKA, 1000, 0).unwrap();
    let after = reg.get_pool(pool_id).unwrap();
    assert_eq!(after.reserve_a, before.reserve_a + 1000);
    assert_eq!(after.reserve_b, before.reserve_b - out);
    assert!(after.reserve_a * after.reserve_b >= before.reserve_a * before.reserve_b);
}

// ---- zero-knowledge proofs ----

fn params() -> CircuitParameters {
    CircuitParameters { domain: Vec::new(), generator_g: Vec::new(), generator_h: Vec::new(), hash_function: 1 }
}

#[test]
fn zkp_proof_generation_test_range_proof_generation() {
    let blinding: Vec<u8> = Vec::new();
    assert!(ProofGenerator::generate_range_proof(100, &blinding, 64).is_ok());
}

#[test]
fn test_range_proof_invalid_bit_length() {
    let blinding: Vec<u8> = Vec::new();
    assert!(ProofGenerator::generate_range_proof(100, &blinding, 0).is_err());
    assert!(ProofGenerator::generate_range_proof(100, &blinding, 300).is_err());
}

#[test]
fn test_witness_validation() {
    let witness = TransactionWitness { amount: 100, amount_blinding: Vec::new(), nonce: Vec::new(), sender_balance: 50, balance_blinding: Vec::new() };
    assert!(ProofGenerator::generate_transaction_proof(&witness, ProofScheme::Bulletproof).is_err());
}

#[test]
fn test_proof_builder() {
    let builder = ProofBuilder::new(ProofScheme::Bulletproof);
    assert_eq!(builder.bit_length, 64);
    let builder_with_length = builder.with_bit_length(128);
    assert_eq!(builder_with_length.bit_length, 128);
}

#[test]
fn test_proof_verifier_creation() {
    let verifier = ProofVerifier::new(params());
    assert_eq!(verifier.params.hash_function, 1);
}

#[test]
fn test_verify_empty_proof() {
    let verifier = ProofVerifier::new(params());
    let empty_proof = ZKProof { proof_data: Vec::new(), scheme: ProofScheme::Bulletproof };
    assert_eq!(verifier.verify_proof_structure(&empty_proof), ProofVerificationResult::MalformedProof);
}

#[test]
fn test_transaction_builder() {
    let builder = PrivateTransactionBuilder::new(vec![1], vec![2], 1000);
    assert_eq!(builder.amount, 1000);
}

#[test]
fn test_witness_manager() {
    let witness = WitnessManager::create_witness(100, 500, 200, vec![0u8; 32], vec![1u8; 32], vec![2u8; 32]);
    assert_eq!(witness.amount, 100);
    assert_eq!(witness.sender_balance, 500);
}

#[test]
fn test_audit_entry_creation() {
    let tx_id: Vec<u8> = Vec::new();
    let entry = AuditTrailManager::create_audit_entry(&tx_id, AuditEventType::ProofVerified, ProofVerificationResult::Valid, 0, vec![9u8; 32]);
    assert_eq!(entry.event_type, AuditEventType::ProofVerified);
    assert_eq!(entry.verification_result, ProofVerificationResult::Valid);
}

// ---- compression ----

#[test]
fn test_compression_ratio() {
    let mut engine = CompressionEngine::new();
    let data = vec![0u8; 1024];
    let compressed = engine.compress(&data, CompressionType::LZ4).unwrap();
    let ratio = compressed.len() as f64 / data.len() as f64;
    assert!(ratio < 0.5, "Compression ratio should be better than 50%");
}

#[test]
fn checksum_is_the_ieee_crc32() {
    assert_eq!(CompressionEngine::checksum(b"123456789"), 0xCBF43926);
    assert!(CompressionEngine::verify_data_integrity(b"123456789", 0xCBF43926));
    assert!(!CompressionEngine::verify_data_integrity(b"123456780", 0xCBF43926));
}

#[test]
fn zstd_payload_round_trips_and_is_detected() {
    let mut engine = CompressionEngine::new();
    let data: Vec<u8> = (0..2000u32).map(|i| (i % 7) as u8).collect();
    let compressed = engine.compress(&data, CompressionType::Zstd).unwrap();
    assert_ne!(compressed, data);
    assert_eq!(CompressionEngine::detect_compression_type(&compressed), CompressionType::Zstd);
    let restored = engine.decompress(&compressed).unwrap();
    assert_eq!(restored, data);
    let stats = engine.get_compression_stats();
    assert_eq!(stats.total_compressions, 1);
    assert_eq!(stats.total_decompressions, 1);
    assert_eq!(stats.total_original_bytes, 2000);
}

#[test]
fn lz4_block_differs_from_input() {
    let mut engine = CompressionEngine::new();
    let data = vec![5u8; 4096];
    let compressed = engine.compress(&data, CompressionType::LZ4).unwrap();
    assert!(compressed.len() < data.len());
}

#[test]
fn lz4_payload_round_trips_and_is_detected() {
    let mut engine = CompressionEngine::new();
    let data: Vec<u8> = (0..3000u32).map(|i| (i % 11) as u8).collect();
    let compressed = engine.compress(&data, CompressionType::LZ4).unwrap();
    assert_eq!(&compressed[..4], &[0x04u8, 0x22, 0x4D, 0x18]);
    assert_eq!(CompressionEngine::detect_compression_type(&compressed), CompressionType::LZ4);
    assert_eq!(engine.decompress(&compressed).unwrap(), data);
}

#[test]
fn uncompressed_payload_passes_through() {
    let mut engine = CompressionEngine::new();
    let data = vec![1u8, 2, 3];
    assert_eq!(engine.compress(&data, CompressionType::Uncompressed).unwrap(), data);
    assert_eq!(CompressionEngine::detect_compression_type(&data), CompressionType::Uncompressed);
    assert_eq!(engine.decompress(&data).unwrap(), data);
}
