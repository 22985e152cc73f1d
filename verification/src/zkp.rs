//! Zero-knowledge proof plumbing: proof and witness types, structural proof
//! checks, input validation of proof generation, and the constraint system.
//! Byte strings are plain byte vectors.
use vstd::prelude::*;
use vstd::arithmetic::power2::{pow2, lemma2_to64, lemma2_to64_rest, lemma_pow2_adds, lemma_pow2_strictly_increases, lemma_pow2_pos};

verus! {

/// Proof scheme.
#[derive(Clone, Copy, Debug, PartialEq, Eq, Structural)]
pub enum ProofScheme {
    Bulletproof,
    ZkSnark,
    SimplifiedProof,
}

/// Outcome of a proof verification.
#[derive(Clone, Copy, Debug, PartialEq, Eq, Structural)]
pub enum ProofVerificationResult {
    Valid,
    Invalid,
    MalformedProof,
    ExpiredProof,
}

/// Audit event type.
#[derive(Clone, Copy, Debug, PartialEq, Eq, Structural)]
pub enum AuditEventType {
    ProofGenerated,
    ProofVerified,
    ProofFailed,
    TransactionExecuted,
    ComplianceCheck,
}

/// Errors of the zero-knowledge proof subsystem.
#[derive(Clone, Copy, Debug, PartialEq, Eq, Structural)]
pub enum ZKPError {
    ProofVerificationFailed,
    InvalidProofFormat,
    ProofExpired,
    CommitmentOpeningFailed,
    RangeProofViolation,
    InsufficientPrivateBalance,
    TransactionValidityFailed,
    UnsupportedProofScheme,
    ProofGenerationFailed,
    CircuitConstraintFailed,
    InvalidWitness,
    ProofLimitExceeded,
    AuditTrailVerificationFailed,
    ComplianceCheckFailed,
    CryptoOperationFailed,
}

impl ZKPError {
    /// Numeric error code of the contract interface.
    pub fn code(&self) -> (c: u32)
        ensures
            500 <= c <= 514,
    {
        match self {
            ZKPError::ProofVerificationFailed => 500,
            ZKPError::InvalidProofFormat => 501,
            ZKPError::ProofExpired => 502,
            ZKPError::CommitmentOpeningFailed => 503,
            ZKPError::RangeProofViolation => 504,
            ZKPError::InsufficientPrivateBalance => 505,
            ZKPError::TransactionValidityFailed => 506,
            ZKPError::UnsupportedProofScheme => 507,
            ZKPError::ProofGenerationFailed => 508,
            ZKPError::CircuitConstraintFailed => 509,
            ZKPError::InvalidWitness => 510,
            ZKPError::ProofLimitExceeded => 511,
            ZKPError::AuditTrailVerificationFailed => 512,
            ZKPError::ComplianceCheckFailed => 513,
            ZKPError::CryptoOperationFailed => 514,
        }
    }
}

/// A commitment.
#[derive(Clone, Debug)]
pub struct Commitment {
    pub value: Vec<u8>,
}

/// A zero-knowledge proof.
#[derive(Clone, Debug)]
pub struct ZKProof {
    pub proof_data: Vec<u8>,
    pub scheme: ProofScheme,
}

/// A range proof.
#[derive(Clone, Debug)]
pub struct RangeProof {
    pub proof: Vec<u8>,
    pub commitment: Vec<u8>,
    pub bit_length: u32,
}

/// A balance sufficiency proof.
#[derive(Clone, Debug)]
pub struct BalanceProof {
    pub balance_commitment: Vec<u8>,
    pub sufficiency_proof: Vec<u8>,
    pub proof_timestamp: u64,
}

/// Private witness of a transaction.
#[derive(Clone, Debug)]
pub struct TransactionWitness {
    pub amount: i128,
    pub amount_blinding: Vec<u8>,
    pub nonce: Vec<u8>,
    pub sender_balance: i128,
    pub balance_blinding: Vec<u8>,
}

/// A private transaction.
#[derive(Clone, Debug)]
pub struct PrivateTransaction {
    pub sender_hash: Vec<u8>,
    pub receiver_hash: Vec<u8>,
    pub amount_commitment: Vec<u8>,
    pub sender_new_balance_commitment: Vec<u8>,
    pub receiver_new_balance_commit: Vec<u8>,
    pub validity_proof: ZKProof,
    pub amount_range_proof: RangeProof,
    pub timestamp: u64,
    pub transaction_id: Vec<u8>,
}

/// Circuit parameters.
#[derive(Clone, Debug)]
pub struct CircuitParameters {
    pub domain: Vec<u8>,
    pub generator_g: Vec<u8>,
    pub generator_h: Vec<u8>,
    pub hash_function: u32,
}

/// Audit log entry.
#[derive(Clone, Debug)]
pub struct AuditLogEntry {
    pub transaction_id: Vec<u8>,
    pub event_type: AuditEventType,
    pub timestamp: u64,
    pub verification_result: ProofVerificationResult,
    pub transaction_hash: Vec<u8>,
}

/// Proof performance metrics.
#[derive(Clone, Copy, Debug, PartialEq, Eq, Structural)]
pub struct ProofMetrics {
    pub generation_time_ms: u64,
    pub verification_time_ms: u64,
    pub proof_size_bytes: u32,
    pub verification_gas: u64,
}

/// Zero-knowledge proof configuration.
#[derive(Clone, Copy, Debug, PartialEq, Eq, Structural)]
pub struct ZKPConfig {
    pub max_amount: i128,
    pub min_amount: i128,
    pub proof_ttl_seconds: u64,
    pub max_proofs_per_block: u32,
    pub enabled_schemes: u32,
}

/// Structural check of a range proof: non-empty proof, bit length 1-256,
/// non-empty commitment.
pub open spec fn range_proof_check(p: RangeProof) -> ProofVerificationResult {
    if p.proof@.len() == 0 {
        ProofVerificationResult::MalformedProof
    } else if p.bit_length == 0 || p.bit_length > 256 {
        ProofVerificationResult::Invalid
    } else if p.commitment@.len() == 0 {
        ProofVerificationResult::MalformedProof
    } else {
        ProofVerificationResult::Valid
    }
}

/// Structural check of a proof: non-empty proof data.
pub open spec fn proof_structure_check(p: ZKProof) -> ProofVerificationResult {
    if p.proof_data@.len() == 0 {
        ProofVerificationResult::MalformedProof
    } else {
        ProofVerificationResult::Valid
    }
}

/// Structural check of a private transaction.
pub open spec fn transaction_check(tx: PrivateTransaction) -> ProofVerificationResult {
    if tx.sender_hash@.len() == 0 || tx.receiver_hash@.len() == 0 || tx.amount_commitment@.len() == 0 {
        ProofVerificationResult::MalformedProof
    } else if range_proof_check(tx.amount_range_proof) != ProofVerificationResult::Valid {
        range_proof_check(tx.amount_range_proof)
    } else {
        proof_structure_check(tx.validity_proof)
    }
}

/// Number of proofs that pass the structural check.
pub open spec fn count_valid(s: Seq<ZKProof>) -> int
    decreases s.len(),
{
    if s.len() == 0 {
        0
    } else {
        count_valid(s.drop_last()) + if proof_structure_check(s.last()) == ProofVerificationResult::Valid { 1int } else { 0 }
    }
}

/// Proof verifier.
pub struct ProofVerifier {
    pub params: CircuitParameters,
}

impl ProofVerifier {
    pub fn new(params: CircuitParameters) -> (v: Self)
        ensures
            v.params == params,
    {
        ProofVerifier { params }
    }

    /// Structural verification of a range proof.
    pub fn verify_range_proof(&self, proof: &RangeProof) -> (r: ProofVerificationResult)
        ensures
            r == range_proof_check(*proof),
    {
        if proof.proof.len() == 0 {
            return ProofVerificationResult::MalformedProof;
        }
        if proof.bit_length == 0 || proof.bit_length > 256 {
            return ProofVerificationResult::Invalid;
        }
        if proof.commitment.len() == 0 {
            return ProofVerificationResult::MalformedProof;
        }
        ProofVerificationResult::Valid
    }

    /// Structural verification of a balance proof.
    pub fn verify_balance_proof(&self, proof: &BalanceProof, required_balance: i128) -> (r: ProofVerificationResult)
        ensures
            r == (if proof.balance_commitment@.len() == 0 || proof.sufficiency_proof@.len() == 0 {
                ProofVerificationResult::MalformedProof
            } else {
                ProofVerificationResult::Valid
            }),
    {
        if proof.balance_commitment.len() == 0 {
            return ProofVerificationResult::MalformedProof;
        }
        if proof.sufficiency_proof.len() == 0 {
            return ProofVerificationResult::MalformedProof;
        }
        ProofVerificationResult::Valid
    }

    /// Structural verification of a private transaction.
    pub fn verify_transaction_validity(&self, tx: &PrivateTransaction) -> (r: ProofVerificationResult)
        ensures
            r == transaction_check(*tx),
    {
        if tx.sender_hash.len() == 0 || tx.receiver_hash.len() == 0 || tx.amount_commitment.len() == 0 {
            return ProofVerificationResult::MalformedProof;
        }
        let range_result = self.verify_range_proof(&tx.amount_range_proof);
        if range_result != ProofVerificationResult::Valid {
            return range_result;
        }
        match tx.validity_proof.scheme {
            ProofScheme::Bulletproof => self.verify_bulletproof_transaction(&tx.validity_proof),
            ProofScheme::ZkSnark => self.verify_zksnark_transaction(&tx.validity_proof),
            ProofScheme::SimplifiedProof => self.verify_simplified_transaction(&tx.validity_proof),
        }
    }

    /// A Bulletproof transaction proof: malformed without proof bytes.
    fn verify_bulletproof_transaction(&self, proof: &ZKProof) -> (r: ProofVerificationResult)
        ensures
            r == if proof.proof_data@.len() == 0 { ProofVerificationResult::MalformedProof } else { ProofVerificationResult::Valid },
    {
        if proof.proof_data.len() == 0 {
            return ProofVerificationResult::MalformedProof;
        }
        ProofVerificationResult::Valid
    }

    /// A zk-SNARK transaction proof: malformed without proof bytes.
    fn verify_zksnark_transaction(&self, proof: &ZKProof) -> (r: ProofVerificationResult)
        ensures
            r == if proof.proof_data@.len() == 0 { ProofVerificationResult::MalformedProof } else { ProofVerificationResult::Valid },
    {
        if proof.proof_data.len() == 0 {
            return ProofVerificationResult::MalformedProof;
        }
        ProofVerificationResult::Valid
    }

    /// A simplified transaction proof: malformed without proof bytes.
    fn verify_simplified_transaction(&self, proof: &ZKProof) -> (r: ProofVerificationResult)
        ensures
            r == if proof.proof_data@.len() == 0 { ProofVerificationResult::MalformedProof } else { ProofVerificationResult::Valid },
    {
        if proof.proof_data.len() == 0 {
            return ProofVerificationResult::MalformedProof;
        }
        ProofVerificationResult::Valid
    }

    /// Number of structurally valid proofs.
    pub fn batch_verify_proofs(&self, proofs: &[ZKProof]) -> (r: usize)
        ensures
            r == count_valid(proofs@),
    {
        let mut count: usize = 0;
        let mut i: usize = 0;
        while i < proofs.len()
            invariant
                i <= proofs@.len(),
                count == count_valid(proofs@.take(i as int)),
                count <= i,
            decreases proofs.len() - i,
        {
            proof {
                assert(proofs@.take(i as int + 1).drop_last() == proofs@.take(i as int));
                assert(proofs@.take(i as int + 1).last() == proofs@[i as int]);
            }
            if self.verify_proof_structure(&proofs[i]) == ProofVerificationResult::Valid {
                count = count + 1;
            }
            i = i + 1;
        }
        proof {
            assert(proofs@.take(proofs@.len() as int) == proofs@);
        }
        count
    }

    /// Structural verification of a proof.
    pub fn verify_proof_structure(&self, proof: &ZKProof) -> (r: ProofVerificationResult)
        ensures
            r == proof_structure_check(*proof),
    {
        if proof.proof_data.len() == 0 {
            return ProofVerificationResult::MalformedProof;
        }
        ProofVerificationResult::Valid
    }
}

/// Errors of proof generation.
#[derive(Clone, Copy, Debug, PartialEq, Eq, Structural)]
pub enum ProofGenerationError {
    InvalidBitLength,
    AmountOutOfRange,
    InvalidAmountInWitness,
    InsufficientBalanceInWitness,
    InsufficientBalance,
    MissingWitness,
    /// Decoding proofs from bytes is not supported.
    NotImplemented,
}

/// Whether an amount fits a range proof of a bit length: `0 <= amount < 2^bits`.
pub open spec fn amount_in_range(amount: i128, bit_length: u32) -> bool {
    0 <= amount && amount < pow2(bit_length as nat)
}

/// Proof generator (input validation; the proof bytes themselves are
/// produced by the cryptographic backend and are empty here).
pub struct ProofGenerator;

impl ProofGenerator {
    /// Range proof for an amount: the bit length must be 1-256 and the amount
    /// must lie in `[0, 2^bit_length)`.
    pub fn generate_range_proof(amount: i128, blinding_factor: &Vec<u8>, bit_length: u32) -> (r: Result<RangeProof, ProofGenerationError>)
        ensures
            (bit_length == 0 || bit_length > 256) ==> r == Err::<RangeProof, ProofGenerationError>(ProofGenerationError::InvalidBitLength),
            1 <= bit_length <= 256 && !amount_in_range(amount, bit_length) ==> r == Err::<RangeProof, ProofGenerationError>(ProofGenerationError::AmountOutOfRange),
            1 <= bit_length <= 256 && amount_in_range(amount, bit_length) ==> r is Ok && r->Ok_0.bit_length == bit_length
                && r->Ok_0.commitment@ == blinding_factor@ && r->Ok_0.proof@.len() == 0,
    {
        if bit_length == 0 || bit_length > 256 {
            return Err(ProofGenerationError::InvalidBitLength);
        }
        if amount < 0 {
            return Err(ProofGenerationError::AmountOutOfRange);
        }
        let a: u128 = amount as u128;
        let in_range: bool = if bit_length >= 128 {
            proof {
                lemma2_to64();
                lemma2_to64_rest();
                lemma_pow2_adds(64, 63);
                lemma_pow2_pos(63);
                assert(pow2(127) == pow2(64) * pow2(63));
                assert(pow2(127) > i128::MAX);
                if bit_length > 127 {
                    lemma_pow2_strictly_increases(127, bit_length as nat);
                }
                assert(amount < pow2(bit_length as nat));
            }
            true
        } else {
            let shift: u128 = bit_length as u128;
            proof {
                vstd::bits::lemma_u128_shr_is_div(a, shift);
                lemma_pow2_pos(bit_length as nat);
                if bit_length == 127 {
                    lemma2_to64();
                lemma2_to64_rest();
                    lemma_pow2_adds(64, 63);
                }
                if bit_length < 127 {
                    lemma2_to64();
                lemma2_to64_rest();
                    lemma_pow2_adds(64, 63);
                    lemma_pow2_strictly_increases(bit_length as nat, 127);
                }
            }
            proof {
                let p: int = pow2(bit_length as nat) as int;
                assert((a as int / p == 0) <==> (a as int) < p) by (nonlinear_arith)
                    requires p > 0, a >= 0;
            }
            (a >> shift) == 0
        };
        if !in_range {
            return Err(ProofGenerationError::AmountOutOfRange);
        }
        Ok(RangeProof { proof: Vec::new(), commitment: blinding_factor.clone(), bit_length })
    }

    /// Transaction proof: the witness amount must be non-negative and covered
    /// by the sender balance.
    pub fn generate_transaction_proof(witness: &TransactionWitness, scheme: ProofScheme) -> (r: Result<ZKProof, ProofGenerationError>)
        ensures
            witness.amount < 0 ==> r == Err::<ZKProof, ProofGenerationError>(ProofGenerationError::InvalidAmountInWitness),
            witness.amount >= 0 && witness.sender_balance < witness.amount ==> r == Err::<ZKProof, ProofGenerationError>(ProofGenerationError::InsufficientBalanceInWitness),
            witness.amount >= 0 && witness.sender_balance >= witness.amount ==> r is Ok && r->Ok_0.scheme == scheme
                && r->Ok_0.proof_data@.len() == 0,
    {
        if witness.amount < 0 {
            return Err(ProofGenerationError::InvalidAmountInWitness);
        }
        if witness.sender_balance < witness.amount {
            return Err(ProofGenerationError::InsufficientBalanceInWitness);
        }
        Ok(ZKProof { proof_data: Vec::new(), scheme })
    }

    /// Balance proof: the balance must cover the required amount.
    pub fn generate_balance_proof(balance: i128, required_amount: i128, balance_blinding: &Vec<u8>) -> (r: Result<BalanceProof, ProofGenerationError>)
        ensures
            balance < required_amount ==> r == Err::<BalanceProof, ProofGenerationError>(ProofGenerationError::InsufficientBalance),
            balance >= required_amount ==> r is Ok && r->Ok_0.proof_timestamp == 0,
    {
        if balance < required_amount {
            return Err(ProofGenerationError::InsufficientBalance);
        }
        Ok(BalanceProof { balance_commitment: Vec::new(), sufficiency_proof: Vec::new(), proof_timestamp: 0 })
    }

    /// Commitment to an amount with a blinding factor.
    pub fn create_commitment(amount: i128, blinding_factor: &Vec<u8>) -> (r: Result<Commitment, ProofGenerationError>)
        ensures
            r is Ok && r->Ok_0.value@ == blinding_factor@,
    {
        Ok(Commitment { value: blinding_factor.clone() })
    }
}

/// Builder of transaction proofs.
pub struct ProofBuilder {
    pub scheme: ProofScheme,
    pub witness: Option<TransactionWitness>,
    pub bit_length: u32,
}

impl ProofBuilder {
    /// A builder with no witness and a 64-bit length.
    pub fn new(scheme: ProofScheme) -> (b: Self)
        ensures
            b.scheme == scheme,
            b.witness is None,
            b.bit_length == 64,
    {
        ProofBuilder { scheme, witness: None, bit_length: 64 }
    }

    pub fn with_witness(self, witness: TransactionWitness) -> (b: Self)
        ensures
            b.scheme == self.scheme,
            b.witness == Some(witness),
            b.bit_length == self.bit_length,
    {
        ProofBuilder { witness: Some(witness), ..self }
    }

    pub fn with_bit_length(self, bit_length: u32) -> (b: Self)
        ensures
            b.scheme == self.scheme,
            b.witness == self.witness,
            b.bit_length == bit_length,
    {
        ProofBuilder { bit_length, ..self }
    }

    /// Build the proof; a witness is required.
    pub fn build(self) -> (r: Result<ZKProof, ProofGenerationError>)
        ensures
            self.witness is None ==> r == Err::<ZKProof, ProofGenerationError>(ProofGenerationError::MissingWitness),
            self.witness matches Some(w) ==> (w.amount < 0 ==> r == Err::<ZKProof, ProofGenerationError>(ProofGenerationError::InvalidAmountInWitness))
                && (w.amount >= 0 && w.sender_balance < w.amount ==> r == Err::<ZKProof, ProofGenerationError>(ProofGenerationError::InsufficientBalanceInWitness))
                && (w.amount >= 0 && w.sender_balance >= w.amount ==> r is Ok && r->Ok_0.scheme == self.scheme),
    {
        match self.witness {
            Some(w) => ProofGenerator::generate_transaction_proof(&w, self.scheme),
            None => Err(ProofGenerationError::MissingWitness),
        }
    }
}

/// Types of circuit constraints.
#[derive(Clone, Copy, Debug, PartialEq, Eq, Structural)]
pub enum ConstraintType {
    LinearEqual,
    Multiplication,
    Range,
    Commitment,
}

/// A single circuit constraint.
#[derive(Clone, Copy, Debug, PartialEq, Eq, Structural)]
pub struct Constraint {
    pub constraint_type: ConstraintType,
    pub is_equality: bool,
}

/// A constraint system: the constraints in the order they were added.
pub struct ConstraintSystem {
    constraints: Vec<Constraint>,
}

impl ConstraintSystem {
    /// The constraints, in order.
    pub closed spec fn view(&self) -> Seq<Constraint> {
        self.constraints@
    }

    /// An empty system.
    pub fn new() -> (cs: Self)
        ensures
            cs.view() == Seq::<Constraint>::empty(),
    {
        ConstraintSystem { constraints: Vec::new() }
    }

    /// Append a constraint.
    pub fn add_constraint(&mut self, constraint: Constraint)
        ensures
            final(self).view() == old(self).view().push(constraint),
    {
        self.constraints.push(constraint);
    }

    /// Number of constraints.
    pub fn constraint_count(&self) -> (n: usize)
        ensures
            n == self.view().len(),
    {
        self.constraints.len()
    }
}

impl Default for ConstraintSystem {
    fn default() -> (cs: Self)
        ensures
            cs.view() == Seq::<Constraint>::empty(),
    {
        Self::new()
    }
}


/// Hash-based single-value proofs.
pub struct SimplifiedProofCircuit;

impl SimplifiedProofCircuit {
    /// Proof of a value with a salt (the hash is computed by the host; this
    /// circuit produces an empty proof).
    pub fn generate_simplified_proof(value: i128, salt: &Vec<u8>) -> (p: Vec<u8>)
        ensures
            p@.len() == 0,
    {
        Vec::new()
    }

    /// A simplified proof is accepted when it is non-empty.
    pub fn verify_simplified_proof(value: i128, salt: &Vec<u8>, proof: &Vec<u8>) -> (r: bool)
        ensures
            r == (proof@.len() > 0),
    {
        proof.len() > 0
    }
}

/// Witnesses of private transactions.
pub struct WitnessManager;

impl WitnessManager {
    /// A witness of a transfer, with the host's nonce and blinding factors.
    pub fn create_witness(amount: i128, sender_balance: i128, receiver_balance: i128, nonce: Vec<u8>, amount_blinding: Vec<u8>, balance_blinding: Vec<u8>) -> (w: TransactionWitness)
        ensures
            w.amount == amount,
            w.sender_balance == sender_balance,
            w.nonce == nonce,
            w.amount_blinding == amount_blinding,
            w.balance_blinding == balance_blinding,
    {
        TransactionWitness { amount, amount_blinding, nonce, sender_balance, balance_blinding }
    }

    /// Whether a witness opens a commitment; every witness is accepted.
    pub fn verify_witness(witness: &TransactionWitness, expected_commitment: &Vec<u8>) -> (r: bool)
        ensures
            r,
    {
        true
    }

    /// A copy of a witness with every sensitive value cleared.
    pub fn sanitize_witness(witness: &TransactionWitness) -> (w: TransactionWitness)
        ensures
            w.amount == 0,
            w.sender_balance == 0,
            w.amount_blinding@.len() == 0,
            w.nonce@.len() == 0,
            w.balance_blinding@.len() == 0,
    {
        TransactionWitness { amount: 0, amount_blinding: Vec::new(), nonce: Vec::new(), sender_balance: 0, balance_blinding: Vec::new() }
    }
}

/// Audit trail of private transactions.
pub struct AuditTrailManager;

impl AuditTrailManager {
    /// An audit entry for a transaction, with the host's time and the hash
    /// of the transaction id.
    pub fn create_audit_entry(transaction_id: &Vec<u8>, event_type: AuditEventType, verification_result: ProofVerificationResult, timestamp: u64, transaction_hash: Vec<u8>) -> (e: AuditLogEntry)
        ensures
            e.transaction_id@ == transaction_id@,
            e.event_type == event_type,
            e.verification_result == verification_result,
            e.timestamp == timestamp,
            e.transaction_hash == transaction_hash,
    {
        AuditLogEntry {
            transaction_id: copy_byte_vec(transaction_id),
            event_type,
            timestamp,
            verification_result,
            transaction_hash,
        }
    }

    /// Record an entry; entries are kept by the host, so nothing changes here.
    pub fn log_transaction(entry: &AuditLogEntry) {
    }

    /// Whether a transaction is compliant; every transaction is.
    pub fn verify_compliance(transaction_id: &Vec<u8>) -> (r: bool)
        ensures
            r,
    {
        true
    }
}

/// A copy of a byte string.
fn copy_byte_vec(v: &Vec<u8>) -> (r: Vec<u8>)
    ensures
        r@ == v@,
{
    let mut r: Vec<u8> = Vec::new();
    let mut i: usize = 0;
    while i < v.len()
        invariant
            i <= v.len(),
            r@ == v@.take(i as int),
        decreases v.len() - i,
    {
        proof {
            assert(v@.take(i as int + 1) == v@.take(i as int).push(v@[i as int]));
        }
        r.push(v[i]);
        i = i + 1;
    }
    proof {
        assert(v@.take(v@.len() as int) == v@);
    }
    r
}

/// Why a private transaction cannot be built.
#[derive(Clone, Copy, Debug, PartialEq, Eq, Structural)]
pub enum TransactionBuildError {
    MissingAmountCommitment,
    MissingValidityProof,
    MissingRangeProof,
}

/// Text of a transaction-building error.
pub open spec fn build_error_text(e: TransactionBuildError) -> Seq<char> {
    match e {
        TransactionBuildError::MissingAmountCommitment => "Missing amount commitment"@,
        TransactionBuildError::MissingValidityProof => "Missing validity proof"@,
        TransactionBuildError::MissingRangeProof => "Missing range proof"@,
    }
}

impl TransactionBuildError {
    /// Text of the error.
    pub fn message(&self) -> (r: &'static str)
        ensures
            r@ == build_error_text(*self),
    {
        match self {
            TransactionBuildError::MissingAmountCommitment => "Missing amount commitment",
            TransactionBuildError::MissingValidityProof => "Missing validity proof",
            TransactionBuildError::MissingRangeProof => "Missing range proof",
        }
    }
}

/// Builder of private transactions.
pub struct PrivateTransactionBuilder {
    pub sender_hash: Vec<u8>,
    pub receiver_hash: Vec<u8>,
    pub amount: i128,
    pub amount_commitment: Option<Vec<u8>>,
    pub validity_proof: Option<ZKProof>,
    pub range_proof: Option<RangeProof>,
}

impl PrivateTransactionBuilder {
    /// A builder for a transfer between two hashed parties.
    pub fn new(sender_hash: Vec<u8>, receiver_hash: Vec<u8>, amount: i128) -> (b: Self)
        ensures
            b.sender_hash == sender_hash,
            b.receiver_hash == receiver_hash,
            b.amount == amount,
            b.amount_commitment is None,
            b.validity_proof is None,
            b.range_proof is None,
    {
        PrivateTransactionBuilder { sender_hash, receiver_hash, amount, amount_commitment: None, validity_proof: None, range_proof: None }
    }

    /// Set the amount commitment.
    pub fn with_amount_commitment(self, commitment: Vec<u8>) -> (b: Self)
        ensures
            b == (PrivateTransactionBuilder { amount_commitment: Some(commitment), ..self }),
    {
        PrivateTransactionBuilder { amount_commitment: Some(commitment), ..self }
    }

    /// Set the validity proof.
    pub fn with_validity_proof(self, proof: ZKProof) -> (b: Self)
        ensures
            b == (PrivateTransactionBuilder { validity_proof: Some(proof), ..self }),
    {
        PrivateTransactionBuilder { validity_proof: Some(proof), ..self }
    }

    /// Set the range proof.
    pub fn with_range_proof(self, proof: RangeProof) -> (b: Self)
        ensures
            b == (PrivateTransactionBuilder { range_proof: Some(proof), ..self }),
    {
        PrivateTransactionBuilder { range_proof: Some(proof), ..self }
    }

    /// Build the transaction at a time with an id; each missing part is an
    /// error, checked in this order: commitment, validity proof, range proof.
    pub fn build(self, timestamp: u64, transaction_id: Vec<u8>) -> (r: Result<PrivateTransaction, TransactionBuildError>)
        ensures
            self.amount_commitment is None ==> r == Err::<PrivateTransaction, TransactionBuildError>(TransactionBuildError::MissingAmountCommitment),
            self.amount_commitment is Some && self.validity_proof is None
                ==> r == Err::<PrivateTransaction, TransactionBuildError>(TransactionBuildError::MissingValidityProof),
            self.amount_commitment is Some && self.validity_proof is Some && self.range_proof is None
                ==> r == Err::<PrivateTransaction, TransactionBuildError>(TransactionBuildError::MissingRangeProof),
            self.amount_commitment is Some && self.validity_proof is Some && self.range_proof is Some ==> (r matches Ok(tx)
                && tx.sender_hash == self.sender_hash
                && tx.receiver_hash == self.receiver_hash
                && tx.amount_commitment == self.amount_commitment->0
                && tx.validity_proof == self.validity_proof->0
                && tx.amount_range_proof == self.range_proof->0
                && tx.sender_new_balance_commitment@.len() == 0
                && tx.receiver_new_balance_commit@.len() == 0
                && tx.timestamp == timestamp
                && tx.transaction_id == transaction_id),
    {
        let amount_commitment = match self.amount_commitment {
            Some(c) => c,
            None => {
                return Err(TransactionBuildError::MissingAmountCommitment);
            },
        };
        let validity_proof = match self.validity_proof {
            Some(p) => p,
            None => {
                return Err(TransactionBuildError::MissingValidityProof);
            },
        };
        let range_proof = match self.range_proof {
            Some(p) => p,
            None => {
                return Err(TransactionBuildError::MissingRangeProof);
            },
        };
        Ok(PrivateTransaction {
            sender_hash: self.sender_hash,
            receiver_hash: self.receiver_hash,
            amount_commitment,
            sender_new_balance_commitment: Vec::new(),
            receiver_new_balance_commit: Vec::new(),
            validity_proof,
            amount_range_proof: range_proof,
            timestamp,
            transaction_id,
        })
    }
}

/// Why a private transaction was refused.
#[derive(Clone, Copy, Debug, PartialEq, Eq, Structural)]
pub enum ProcessingError {
    TransactionVerificationFailed,
    SwapValidationFailed,
}

/// Text of a processing error.
pub open spec fn processing_error_text(e: ProcessingError) -> Seq<char> {
    match e {
        ProcessingError::TransactionVerificationFailed => "Transaction verification failed"@,
        ProcessingError::SwapValidationFailed => "Swap validation failed"@,
    }
}

impl ProcessingError {
    /// Text of the error.
    pub fn message(&self) -> (r: &'static str)
        ensures
            r@ == processing_error_text(*self),
    {
        match self {
            ProcessingError::TransactionVerificationFailed => "Transaction verification failed",
            ProcessingError::SwapValidationFailed => "Swap validation failed",
        }
    }
}

/// Processor of private transactions.
pub struct PrivateTransactionProcessor {
    pub verifier: ProofVerifier,
}

impl PrivateTransactionProcessor {
    pub fn new(verifier: ProofVerifier) -> (p: Self)
        ensures
            p.verifier == verifier,
    {
        PrivateTransactionProcessor { verifier }
    }

    /// Validate a private transaction.
    pub fn validate_transaction(&self, tx: &PrivateTransaction) -> (r: ProofVerificationResult)
        ensures
            r == transaction_check(*tx),
    {
        self.verifier.verify_transaction_validity(tx)
    }

    /// Execute a transaction: accepted exactly when it validates.
    pub fn execute_transaction(&self, tx: &PrivateTransaction) -> (r: Result<(), ProcessingError>)
        ensures
            r is Ok <==> transaction_check(*tx) == ProofVerificationResult::Valid,
            r is Err ==> r == Err::<(), ProcessingError>(ProcessingError::TransactionVerificationFailed),
    {
        if self.validate_transaction(tx) != ProofVerificationResult::Valid {
            return Err(ProcessingError::TransactionVerificationFailed);
        }
        Ok(())
    }

    /// Process a private swap: accepted exactly when the transaction
    /// validates.
    pub fn process_private_swap(&self, from_token: u64, to_token: u64, tx: &PrivateTransaction) -> (r: Result<(), ProcessingError>)
        ensures
            r is Ok <==> transaction_check(*tx) == ProofVerificationResult::Valid,
            r is Err ==> r == Err::<(), ProcessingError>(ProcessingError::SwapValidationFailed),
    {
        if self.validate_transaction(tx) != ProofVerificationResult::Valid {
            return Err(ProcessingError::SwapValidationFailed);
        }
        Ok(())
    }
}

/// Performs a private swap for a user: the swap's checks decide; on
/// success an (empty) confirmation hash is returned.
pub fn perform_private_swap(
    processor: &PrivateTransactionProcessor,
    user: u64,
    from_token: u64,
    to_token: u64,
    private_tx: &PrivateTransaction,
) -> (r: Result<Vec<u8>, ProcessingError>)
    ensures
        transaction_check(*private_tx) == ProofVerificationResult::Valid ==> (r matches Ok(h) && h@.len() == 0),
        transaction_check(*private_tx) != ProofVerificationResult::Valid ==> r matches Err(ProcessingError::SwapValidationFailed),
{
    let _validation_result = processor.validate_transaction(private_tx);
    match processor.process_private_swap(from_token, to_token, private_tx) {
        Ok(()) => Ok(Vec::new()),
        Err(e) => Err(e),
    }
}

/// Pedersen commitment circuit (commitments are not checked cryptographically).
pub struct PedersenCommitmentCircuit {
    pub params: CircuitParameters,
}

impl PedersenCommitmentCircuit {
    /// A circuit with the given parameters.
    pub fn new(params: CircuitParameters) -> (c: Self)
        ensures
            c.params == params,
    {
        PedersenCommitmentCircuit { params }
    }

    /// Accepts every commitment: no elliptic-curve check is made.
    pub fn verify_commitment(value: i128, blinding_factor: &Vec<u8>, commitment: &Vec<u8>) -> (r: bool)
        ensures
            r,
    {
        true
    }
}

/// Range proof circuit over a number of bits.
pub struct RangeProofCircuit {
    pub params: CircuitParameters,
    pub bit_length: u32,
}

impl RangeProofCircuit {
    /// A circuit for ranges of `bit_length` bits.
    pub fn new(params: CircuitParameters, bit_length: u32) -> (c: Self)
        ensures
            c.params == params,
            c.bit_length == bit_length,
    {
        RangeProofCircuit { params, bit_length }
    }

    /// A range proof over the commitment, with no proof bytes.
    pub fn generate_range_proof(&self, commitment: &Vec<u8>, value: i128, blinding: &Vec<u8>) -> (p: RangeProof)
        ensures
            p.proof@.len() == 0,
            p.commitment@ == commitment@,
            p.bit_length == self.bit_length,
    {
        RangeProof { proof: Vec::new(), commitment: copy_byte_vec(commitment), bit_length: self.bit_length }
    }

    /// A range proof is accepted when it has proof bytes and 1 to 256 bits.
    pub fn verify_range_proof(proof: &RangeProof) -> (r: bool)
        ensures
            r == (proof.proof@.len() > 0 && 0 < proof.bit_length <= 256),
    {
        proof.proof.len() > 0 && proof.bit_length > 0 && proof.bit_length <= 256
    }
}

/// Balance sufficiency circuit.
pub struct BalanceProofCircuit {
    pub params: CircuitParameters,
}

impl BalanceProofCircuit {
    /// A circuit with the given parameters.
    pub fn new(params: CircuitParameters) -> (c: Self)
        ensures
            c.params == params,
    {
        BalanceProofCircuit { params }
    }

    /// A sufficiency proof: no proof bytes are produced.
    pub fn generate_sufficiency_proof(balance_commitment: &Vec<u8>, required_amount: i128, balance_value: i128, blinding: &Vec<u8>) -> (p: Vec<u8>)
        ensures
            p@.len() == 0,
    {
        Vec::new()
    }

    /// A sufficiency proof is accepted when it has bytes.
    pub fn verify_sufficiency_proof(commitment: &Vec<u8>, required_amount: i128, proof: &Vec<u8>) -> (r: bool)
        ensures
            r == (proof@.len() > 0),
    {
        proof.len() > 0
    }
}

/// Transaction validity circuit.
pub struct TransactionValidityCircuit {
    pub params: CircuitParameters,
}

impl TransactionValidityCircuit {
    /// A circuit with the given parameters.
    pub fn new(params: CircuitParameters) -> (c: Self)
        ensures
            c.params == params,
    {
        TransactionValidityCircuit { params }
    }

    /// A Bulletproof-scheme proof with no proof bytes.
    pub fn generate_transaction_proof(
        sender_balance: i128,
        amount: i128,
        receiver_balance: i128,
        sender_blinding: &Vec<u8>,
        receiver_blinding: &Vec<u8>,
        amount_blinding: &Vec<u8>,
    ) -> (p: ZKProof)
        ensures
            p.proof_data@.len() == 0,
            p.scheme == ProofScheme::Bulletproof,
    {
        ZKProof { proof_data: Vec::new(), scheme: ProofScheme::Bulletproof }
    }

    /// A transaction proof is accepted when its scheme is Bulletproof or zk-SNARK.
    pub fn verify_transaction_proof(
        sender_commitment: &Vec<u8>,
        receiver_commitment: &Vec<u8>,
        amount_commitment: &Vec<u8>,
        sender_new_commitment: &Vec<u8>,
        receiver_new_commitment: &Vec<u8>,
        proof: &ZKProof,
    ) -> (r: bool)
        ensures
            r == (proof.scheme == ProofScheme::Bulletproof || proof.scheme == ProofScheme::ZkSnark),
    {
        match proof.scheme {
            ProofScheme::Bulletproof => true,
            ProofScheme::ZkSnark => true,
            _ => false,
        }
    }
}

/// zk-SNARK circuit.
pub struct ZkSnarkCircuit {
    pub params: CircuitParameters,
}

impl ZkSnarkCircuit {
    /// A circuit with the given parameters.
    pub fn new(params: CircuitParameters) -> (c: Self)
        ensures
            c.params == params,
    {
        ZkSnarkCircuit { params }
    }

    /// A zk-SNARK-scheme proof with no proof bytes.
    pub fn generate_proof(witness: &Vec<u8>, public_input: &Vec<u8>) -> (p: ZKProof)
        ensures
            p.proof_data@.len() == 0,
            p.scheme == ProofScheme::ZkSnark,
    {
        ZKProof { proof_data: Vec::new(), scheme: ProofScheme::ZkSnark }
    }

    /// A zk-SNARK proof is accepted when it has proof bytes.
    pub fn verify_proof(proof: &ZKProof, public_input: &Vec<u8>) -> (r: bool)
        ensures
            r == (proof.proof_data@.len() > 0),
    {
        proof.proof_data.len() > 0
    }
}

/// Accepts a commitment opening when the commitment and the blinding
/// factor are both non-empty (no curve arithmetic is done).
pub fn verify_pedersen_commitment(value: i128, blinding: &Vec<u8>, commitment: &Vec<u8>) -> (r: bool)
    ensures
        r == (commitment@.len() > 0 && blinding@.len() > 0),
{
    commitment.len() > 0 && blinding.len() > 0
}

/// Accepts a hash proof when it is non-empty.
pub fn verify_hash_proof(value: i128, proof: &Vec<u8>) -> (r: bool)
    ensures
        r == (proof@.len() > 0),
{
    proof.len() > 0
}

/// Commitment to a value: the blinding factor itself.
pub fn compute_commitment(value: i128, blinding: &Vec<u8>) -> (c: Vec<u8>)
    ensures
        c@ == blinding@,
{
    copy_byte_vec(blinding)
}

/// Witness bytes of a value: the blinding factor itself.
pub fn extract_witness(value: i128, blinding: &Vec<u8>, nonce: &Vec<u8>) -> (w: Vec<u8>)
    ensures
        w@ == blinding@,
{
    copy_byte_vec(blinding)
}

/// Whether a private transaction may execute: its proofs verify.
pub fn verify_before_execution(verifier: &ProofVerifier, tx: &PrivateTransaction) -> (r: bool)
    ensures
        r == (transaction_check(*tx) == ProofVerificationResult::Valid),
{
    verifier.verify_transaction_validity(tx) == ProofVerificationResult::Valid
}

impl ProofGenerator {
    /// Encodes a proof as bytes: no encoding is defined, so the bytes are
    /// empty.
    pub fn serialize_proof(proof: &ZKProof) -> (r: Result<Vec<u8>, ProofGenerationError>)
        ensures
            r matches Ok(v) && v@.len() == 0,
    {
        Ok(Vec::new())
    }

    /// Decodes a proof from bytes: not supported.
    pub fn deserialize_proof(data: &[u8]) -> (r: Result<ZKProof, ProofGenerationError>)
        ensures
            r == Err::<ZKProof, ProofGenerationError>(ProofGenerationError::NotImplemented),
    {
        Err(ProofGenerationError::NotImplemented)
    }
}

impl ProofVerifier {
    /// Records the time and gas of a verification: nothing is kept.
    pub fn record_verification_metrics(time_ms: u64, gas_used: u64) {
    }
}

/// Records the outcome of verifying a proof: no cache is kept.
pub fn cache_proof_result(proof_id: &Vec<u8>, is_valid: bool) {
}

/// Earlier outcome of verifying a proof: every proof is reported verified.
pub fn get_cached_verification(proof_id: &Vec<u8>) -> (r: Option<bool>)
    ensures
        r == Some(true),
{
    Some(true)
}

/// Marks a proof verified: no set of verified proofs is kept.
pub fn mark_proof_verified(proof_id: &Vec<u8>) {
}

impl PrivateTransactionProcessor {
    /// Processes transactions as one batch: no batch processing is defined,
    /// so no confirmation comes back.
    pub fn process_batch(&self, transactions: &Vec<PrivateTransaction>) -> (r: Result<Vec<Vec<u8>>, ProcessingError>)
        ensures
            r matches Ok(v) && v@.len() == 0,
    {
        Ok(Vec::new())
    }
}

} // verus!
