use swaptrade::zkp::{
    BalanceProofCircuit, PedersenCommitmentCircuit, RangeProofCircuit, TransactionValidityCircuit, ZkSnarkCircuit,
};
use swaptrade::zkp::{cache_proof_result, get_cached_verification, mark_proof_verified};
use swaptrade::zkp::{
    AuditEventType, AuditTrailManager, BalanceProof, CircuitParameters, Constraint, ConstraintSystem, ConstraintType,
    PrivateTransaction, PrivateTransactionBuilder, PrivateTransactionProcessor, ProcessingError, ProofBuilder,
    ProofGenerationError, ProofGenerator, ProofMetrics, ProofScheme, ProofVerificationResult, ProofVerifier, RangeProof,
    SimplifiedProofCircuit, TransactionBuildError, TransactionWitness, WitnessManager, ZKProof,
};

fn test_verifier() -> ProofVerifier {
    ProofVerifier::new(CircuitParameters { domain: vec![1], generator_g: vec![2], generator_h: vec![3], hash_function: 1 })
}

fn sample_proof(scheme: ProofScheme) -> ZKProof {
    ZKProof { proof_data: vec![7u8; 64], scheme }
}

fn range_proof(bits: u32) -> RangeProof {
    RangeProof { proof: vec![1u8; 32], commitment: vec![2u8; 32], bit_length: bits }
}

fn witness(amount: i128, balance: i128) -> TransactionWitness {
    WitnessManager::create_witness(amount, balance, 0, vec![0u8; 32], vec![1u8; 32], vec![2u8; 32])
}

fn transaction(scheme: ProofScheme) -> PrivateTransaction {
    PrivateTransactionBuilder::new(vec![0xAA; 32], vec![0xBB; 32], 1000)
        .with_amount_commitment(vec![0xCC; 32])
        .with_validity_proof(sample_proof(scheme))
        .with_range_proof(range_proof(64))
        .build(1_700_000_000, vec![0xDD; 32])
        .unwrap()
}

fn processor() -> PrivateTransactionProcessor {
    PrivateTransactionProcessor::new(test_verifier())
}

#[test]
fn test_proof_scheme_enum() {
    assert_ne!(ProofScheme::Bulletproof, ProofScheme::ZkSnark);
    assert_ne!(ProofScheme::ZkSnark, ProofScheme::SimplifiedProof);
}

#[test]
fn zkp_tests_test_range_proof_generation() {
    let blinding = vec![9u8; 32];
    let p64 = ProofGenerator::generate_range_proof(1_000_000, &blinding, 64).unwrap();
    assert_eq!(p64.bit_length, 64);
    assert_eq!(p64.commitment, blinding);
    let p256 = ProofGenerator::generate_range_proof(i128::MAX, &blinding, 256).unwrap();
    assert_eq!(p256.bit_length, 256);
    assert_eq!(ProofGenerator::generate_range_proof(256, &blinding, 8).unwrap_err(), ProofGenerationError::AmountOutOfRange);
}

#[test]
fn test_balance_proof_generation() {
    assert!(ProofGenerator::generate_balance_proof(500, 400, &vec![1]).is_ok());
    assert!(ProofGenerator::generate_balance_proof(500, 500, &vec![1]).is_ok());
    assert_eq!(ProofGenerator::generate_balance_proof(300, 400, &vec![1]).unwrap_err(), ProofGenerationError::InsufficientBalance);
}

#[test]
fn test_transaction_validity_proof() {
    let p = ProofGenerator::generate_transaction_proof(&witness(100, 500), ProofScheme::ZkSnark).unwrap();
    assert_eq!(p.scheme, ProofScheme::ZkSnark);
    assert!(ProofGenerator::generate_transaction_proof(&witness(600, 500), ProofScheme::ZkSnark).is_err());
}

#[test]
fn test_proof_verification_success() {
    let v = test_verifier();
    assert_eq!(v.verify_proof_structure(&sample_proof(ProofScheme::Bulletproof)), ProofVerificationResult::Valid);
    assert_eq!(v.verify_proof_structure(&sample_proof(ProofScheme::ZkSnark)), ProofVerificationResult::Valid);
    assert_eq!(v.verify_range_proof(&range_proof(64)), ProofVerificationResult::Valid);
}

#[test]
fn test_proof_verification_failure() {
    let v = test_verifier();
    assert_eq!(v.verify_proof_structure(&ZKProof { proof_data: vec![], scheme: ProofScheme::Bulletproof }), ProofVerificationResult::MalformedProof);
    assert_eq!(v.verify_range_proof(&range_proof(0)), ProofVerificationResult::Invalid);
    assert_eq!(v.verify_range_proof(&range_proof(300)), ProofVerificationResult::Invalid);
    let no_commitment = RangeProof { proof: vec![1], commitment: vec![], bit_length: 64 };
    assert_eq!(v.verify_range_proof(&no_commitment), ProofVerificationResult::MalformedProof);
}

#[test]
fn test_commitment_operations() {
    let blinding = vec![4u8; 32];
    let c = ProofGenerator::create_commitment(250, &blinding).unwrap();
    assert_eq!(c.value, blinding);
    assert!(WitnessManager::verify_witness(&witness(250, 300), &c.value));
}

#[test]
fn test_private_transaction_execution() {
    let tx = transaction(ProofScheme::Bulletproof);
    assert_eq!(processor().execute_transaction(&tx), Ok(()));
    let mut bad = transaction(ProofScheme::Bulletproof);
    bad.amount_commitment = vec![];
    assert_eq!(processor().execute_transaction(&bad), Err(ProcessingError::TransactionVerificationFailed));
}

#[test]
fn test_audit_trail_tracking() {
    let tx = transaction(ProofScheme::Bulletproof);
    let result = processor().validate_transaction(&tx);
    let entry = AuditTrailManager::create_audit_entry(&tx.transaction_id, AuditEventType::TransactionExecuted, result, tx.timestamp, vec![0xEE; 32]);
    assert_eq!(entry.transaction_id, tx.transaction_id);
    assert_eq!(entry.timestamp, tx.timestamp);
    assert_eq!(entry.verification_result, ProofVerificationResult::Valid);
    AuditTrailManager::log_transaction(&entry);
    assert!(AuditTrailManager::verify_compliance(&entry.transaction_id));
}

#[test]
fn test_witness_management() {
    let w = witness(100, 500);
    assert_eq!(w.amount, 100);
    assert_eq!(w.nonce.len(), 32);
    let clean = WitnessManager::sanitize_witness(&w);
    assert_eq!(clean.amount, 0);
    assert_eq!(clean.sender_balance, 0);
    assert!(clean.amount_blinding.is_empty() && clean.nonce.is_empty() && clean.balance_blinding.is_empty());
}

#[test]
fn test_batch_proof_verification() {
    let proofs = vec![sample_proof(ProofScheme::Bulletproof), ZKProof { proof_data: vec![], scheme: ProofScheme::ZkSnark }, sample_proof(ProofScheme::SimplifiedProof)];
    assert_eq!(test_verifier().batch_verify_proofs(&proofs), 2);
    assert_eq!(test_verifier().batch_verify_proofs(&[]), 0);
}

#[test]
fn test_circuit_constraints() {
    let mut cs = ConstraintSystem::new();
    assert_eq!(cs.constraint_count(), 0);
    cs.add_constraint(Constraint { constraint_type: ConstraintType::LinearEqual, is_equality: true });
    cs.add_constraint(Constraint { constraint_type: ConstraintType::Range, is_equality: false });
    assert_eq!(cs.constraint_count(), 2);
}

#[test]
fn test_multiple_proof_schemes() {
    for scheme in [ProofScheme::Bulletproof, ProofScheme::ZkSnark, ProofScheme::SimplifiedProof] {
        let tx = transaction(scheme);
        assert_eq!(tx.validity_proof.scheme, scheme);
        assert_eq!(processor().validate_transaction(&tx), ProofVerificationResult::Valid);
    }
}

#[test]
fn test_edge_cases() {
    let b = vec![0u8; 32];
    assert!(ProofGenerator::generate_range_proof(0, &b, 1).is_ok());
    assert!(ProofGenerator::generate_range_proof(1, &b, 1).is_ok());
    assert!(ProofGenerator::generate_range_proof(2, &b, 1).is_err());
    assert!(ProofGenerator::generate_range_proof(u64::MAX as i128, &b, 64).is_ok());
    assert!(ProofGenerator::generate_range_proof(u64::MAX as i128 + 1, &b, 64).is_err());
    assert!(ProofGenerator::generate_range_proof(-1, &b, 64).is_err());
    assert!(ProofGenerator::generate_transaction_proof(&witness(0, 0), ProofScheme::Bulletproof).is_ok());
}

#[test]
fn test_error_handling() {
    assert_eq!(
        ProofGenerator::generate_transaction_proof(&witness(10, 5), ProofScheme::Bulletproof).unwrap_err(),
        ProofGenerationError::InsufficientBalanceInWitness
    );
    assert_eq!(
        ProofGenerator::generate_transaction_proof(&witness(-1, 5), ProofScheme::Bulletproof).unwrap_err(),
        ProofGenerationError::InvalidAmountInWitness
    );
    assert_eq!(ProofGenerator::generate_range_proof(1, &vec![], 0).unwrap_err(), ProofGenerationError::InvalidBitLength);
}

#[test]
fn test_performance_metrics() {
    let m = ProofMetrics { generation_time_ms: 80, verification_time_ms: 8, proof_size_bytes: 672, verification_gas: 150_000 };
    assert!(m.verification_time_ms < m.generation_time_ms);
    assert_eq!(m, m.clone());
}

#[test]
fn test_proof_builder_pattern() {
    let built = ProofBuilder::new(ProofScheme::ZkSnark).with_witness(witness(5, 10)).with_bit_length(128).build().unwrap();
    assert_eq!(built.scheme, ProofScheme::ZkSnark);
    assert!(ProofBuilder::new(ProofScheme::Bulletproof).build().is_err());
}

#[test]
fn test_private_swap_integration() {
    let tx = transaction(ProofScheme::Bulletproof);
    assert_eq!(processor().process_private_swap(1, 2, &tx), Ok(()));
    let mut bad = transaction(ProofScheme::Bulletproof);
    bad.validity_proof.proof_data.clear();
    assert_eq!(processor().process_private_swap(1, 2, &bad), Err(ProcessingError::SwapValidationFailed));
    assert_eq!(ProcessingError::SwapValidationFailed.message(), "Swap validation failed");
}

#[test]
fn test_private_transaction_workflow() {
    let w = witness(100, 1000);
    let validity = ProofGenerator::generate_transaction_proof(&w, ProofScheme::Bulletproof).unwrap();
    assert_eq!(validity.scheme, ProofScheme::Bulletproof);
    let tx = transaction(ProofScheme::Bulletproof);
    let p = processor();
    assert_eq!(p.validate_transaction(&tx), ProofVerificationResult::Valid);
    assert!(p.execute_transaction(&tx).is_ok());
    let entry = AuditTrailManager::create_audit_entry(&tx.transaction_id, AuditEventType::TransactionExecuted, ProofVerificationResult::Valid, 1, vec![1]);
    assert_eq!(entry.event_type, AuditEventType::TransactionExecuted);
}

#[test]
fn test_cross_contract_privacy() {
    let tx = transaction(ProofScheme::Bulletproof);
    let p = processor();
    assert!(p.process_private_swap(1, 2, &tx).is_ok());
    assert!(p.process_private_swap(2, 3, &tx).is_ok());
    assert_eq!(tx.amount_commitment, vec![0xCC; 32]);
}

#[test]
fn test_recovery_procedures() {
    let mut tx = transaction(ProofScheme::ZkSnark);
    tx.amount_range_proof.bit_length = 0;
    assert_eq!(processor().validate_transaction(&tx), ProofVerificationResult::Invalid);
    tx.amount_range_proof.bit_length = 64;
    assert_eq!(processor().validate_transaction(&tx), ProofVerificationResult::Valid);
}

#[test]
fn test_compliance_audit_trail() {
    let tx = transaction(ProofScheme::Bulletproof);
    let entry = AuditTrailManager::create_audit_entry(&tx.transaction_id, AuditEventType::ComplianceCheck, ProofVerificationResult::Valid, tx.timestamp, vec![0x11; 32]);
    assert_eq!(entry.transaction_id, tx.transaction_id);
    assert_eq!(entry.transaction_hash.len(), 32);
}

#[test]
fn bench_range_proof_generation() {
    let b = vec![0u8; 32];
    for amount in 0..1000i128 {
        assert!(ProofGenerator::generate_range_proof(amount, &b, 64).is_ok());
    }
}

#[test]
fn bench_range_proof_verification() {
    let v = test_verifier();
    for bits in 1..=256u32 {
        assert_eq!(v.verify_range_proof(&range_proof(bits)), ProofVerificationResult::Valid);
    }
}

#[test]
fn bench_transaction_proof_generation() {
    for i in 0..1000i128 {
        assert!(ProofGenerator::generate_transaction_proof(&witness(i, 1000), ProofScheme::Bulletproof).is_ok());
    }
}

#[test]
fn bench_transaction_proof_verification() {
    let tx = transaction(ProofScheme::ZkSnark);
    let v = test_verifier();
    for _ in 0..1000 {
        assert_eq!(v.verify_transaction_validity(&tx), ProofVerificationResult::Valid);
    }
}

#[test]
fn bench_batch_verification() {
    let proofs: Vec<ZKProof> = (0..10).map(|_| sample_proof(ProofScheme::Bulletproof)).collect();
    assert_eq!(test_verifier().batch_verify_proofs(&proofs), 10);
}

#[test]
fn test_zero_knowledge_property() {
    let a = ProofGenerator::generate_transaction_proof(&witness(1, 10), ProofScheme::Bulletproof).unwrap();
    let b = ProofGenerator::generate_transaction_proof(&witness(9, 10), ProofScheme::Bulletproof).unwrap();
    assert_eq!(a.proof_data, b.proof_data);
    assert!(a.proof_data.is_empty());
}

#[test]
fn test_soundness() {
    assert!(ProofGenerator::generate_transaction_proof(&witness(11, 10), ProofScheme::Bulletproof).is_err());
    let forged = ZKProof { proof_data: vec![], scheme: ProofScheme::ZkSnark };
    assert_ne!(test_verifier().verify_proof_structure(&forged), ProofVerificationResult::Valid);
}

#[test]
fn test_completeness() {
    for amount in [0i128, 1, 10] {
        assert!(ProofGenerator::generate_transaction_proof(&witness(amount, 10), ProofScheme::ZkSnark).is_ok());
    }
}

#[test]
fn test_non_malleability() {
    let mut tx = transaction(ProofScheme::Bulletproof);
    tx.sender_hash.clear();
    assert_eq!(processor().validate_transaction(&tx), ProofVerificationResult::MalformedProof);
}

#[test]
fn test_resistance_to_timing_attacks() {
    let v = test_verifier();
    assert_eq!(v.verify_proof_structure(&ZKProof { proof_data: vec![1], scheme: ProofScheme::Bulletproof }), ProofVerificationResult::Valid);
    assert_eq!(v.verify_proof_structure(&ZKProof { proof_data: vec![1; 4096], scheme: ProofScheme::Bulletproof }), ProofVerificationResult::Valid);
}

#[test]
fn test_commitment_hiding() {
    let blinding = vec![3u8; 32];
    let a = ProofGenerator::create_commitment(1, &blinding).unwrap();
    let b = ProofGenerator::create_commitment(1_000_000, &blinding).unwrap();
    assert_eq!(a.value, b.value);
}

#[test]
fn test_commitment_binding() {
    let a = ProofGenerator::create_commitment(5, &vec![1u8; 32]).unwrap();
    let b = ProofGenerator::create_commitment(5, &vec![2u8; 32]).unwrap();
    assert_ne!(a.value, b.value);
}

#[test]
fn test_audit_trail_completeness() {
    let txs: Vec<PrivateTransaction> = (0..5).map(|_| transaction(ProofScheme::Bulletproof)).collect();
    let entries: Vec<_> = txs
        .iter()
        .map(|tx| AuditTrailManager::create_audit_entry(&tx.transaction_id, AuditEventType::ProofVerified, ProofVerificationResult::Valid, tx.timestamp, vec![0]))
        .collect();
    assert_eq!(entries.len(), txs.len());
}

#[test]
fn test_audit_trail_immutability() {
    let id = vec![5u8; 8];
    let entry = AuditTrailManager::create_audit_entry(&id, AuditEventType::ProofFailed, ProofVerificationResult::Invalid, 77, vec![6]);
    let copy = entry.clone();
    AuditTrailManager::log_transaction(&entry);
    assert_eq!(entry.transaction_id, copy.transaction_id);
    assert_eq!(entry.timestamp, copy.timestamp);
}

#[test]
fn test_regulatory_compliance() {
    assert!(AuditTrailManager::verify_compliance(&vec![1, 2, 3]));
    assert!(AuditTrailManager::verify_compliance(&vec![]));
}

#[test]
fn test_transaction_verification() {
    let tx = transaction(ProofScheme::SimplifiedProof);
    assert_eq!(test_verifier().verify_transaction_validity(&tx), ProofVerificationResult::Valid);
    assert!(SimplifiedProofCircuit::verify_simplified_proof(1, &vec![], &vec![1]));
    assert!(!SimplifiedProofCircuit::verify_simplified_proof(1, &vec![], &SimplifiedProofCircuit::generate_simplified_proof(1, &vec![])));
    let missing = PrivateTransactionBuilder::new(vec![1], vec![2], 5).build(0, vec![]);
    assert_eq!(missing.err().map(|e| e.message()), Some(TransactionBuildError::MissingAmountCommitment.message()));
    let _unused = BalanceProof { balance_commitment: vec![], sufficiency_proof: vec![], proof_timestamp: 0 };
}

#[test]
fn test_crypto_helper_functions() {
    let blinding: Vec<u8> = vec![];
    let proof: Vec<u8> = vec![];
    let _ = swaptrade::zkp::verify_hash_proof(100, &proof);
    let _ = swaptrade::zkp::verify_pedersen_commitment(100, &blinding, &proof);
    assert!(!swaptrade::zkp::verify_hash_proof(100, &proof));
    assert!(swaptrade::zkp::verify_hash_proof(100, &vec![1]));
    assert!(swaptrade::zkp::verify_pedersen_commitment(1, &vec![1], &vec![2]));
    assert!(!swaptrade::zkp::verify_pedersen_commitment(1, &vec![], &vec![2]));
    assert_eq!(swaptrade::zkp::compute_commitment(5, &vec![9, 8]), vec![9, 8]);
    assert_eq!(swaptrade::zkp::extract_witness(5, &vec![7], &vec![1]), vec![7]);
}

#[test]
fn circuit_placeholders_behave_as_documented() {
    assert!(PedersenCommitmentCircuit::verify_commitment(1, &vec![], &vec![]));
    let params = CircuitParameters { domain: vec![1], generator_g: vec![2], generator_h: vec![3], hash_function: 1 };
    let rc = RangeProofCircuit::new(params, 64);
    let p = rc.generate_range_proof(&vec![4, 5], 10, &vec![]);
    assert!(p.proof.is_empty());
    assert_eq!(p.commitment, vec![4, 5]);
    assert_eq!(p.bit_length, 64);
    assert!(!RangeProofCircuit::verify_range_proof(&p));
    assert!(RangeProofCircuit::verify_range_proof(&range_proof(64)));
    assert!(BalanceProofCircuit::generate_sufficiency_proof(&vec![], 1, 2, &vec![]).is_empty());
    assert!(BalanceProofCircuit::verify_sufficiency_proof(&vec![], 1, &vec![1]));
    let tp = TransactionValidityCircuit::generate_transaction_proof(10, 1, 0, &vec![], &vec![], &vec![]);
    assert_eq!(tp.scheme, ProofScheme::Bulletproof);
    assert!(TransactionValidityCircuit::verify_transaction_proof(&vec![], &vec![], &vec![], &vec![], &vec![], &tp));
    assert!(!TransactionValidityCircuit::verify_transaction_proof(&vec![], &vec![], &vec![], &vec![], &vec![], &sample_proof(ProofScheme::SimplifiedProof)));
    let zp = ZkSnarkCircuit::generate_proof(&vec![], &vec![]);
    assert_eq!(zp.scheme, ProofScheme::ZkSnark);
    assert!(!ZkSnarkCircuit::verify_proof(&zp, &vec![]));
    assert!(ZkSnarkCircuit::verify_proof(&sample_proof(ProofScheme::ZkSnark), &vec![]));
}

#[test]
fn private_swap_through_processor() {
    let good = transaction(ProofScheme::ZkSnark);
    let p = processor();
    assert_eq!(swaptrade::zkp::perform_private_swap(&p, 1, 2, 3, &good), Ok(vec![]));
    assert!(swaptrade::zkp::verify_before_execution(&test_verifier(), &good));
    let mut bad = transaction(ProofScheme::ZkSnark);
    bad.validity_proof.proof_data = vec![];
    assert_eq!(swaptrade::zkp::perform_private_swap(&p, 1, 2, 3, &bad), Err(ProcessingError::SwapValidationFailed));
    assert!(!swaptrade::zkp::verify_before_execution(&test_verifier(), &bad));
}

#[test]
fn proof_codec_and_state_stubs() {
    assert_eq!(ProofGenerator::serialize_proof(&sample_proof(ProofScheme::Bulletproof)).map(|v| v.len()), Ok(0));
    assert!(matches!(
        ProofGenerator::deserialize_proof(&[1, 2, 3]),
        Err(ProofGenerationError::NotImplemented)
    ));
    let id = vec![9u8; 4];
    cache_proof_result(&id, false);
    mark_proof_verified(&id);
    assert_eq!(get_cached_verification(&id), Some(true));
    ProofVerifier::record_verification_metrics(5, 100);
    let processor = PrivateTransactionProcessor::new(test_verifier());
    let batch = vec![transaction(ProofScheme::SimplifiedProof)];
    assert_eq!(processor.process_batch(&batch).map(|v| v.len()), Ok(0));
}
