//! The data that nodes exchange and keep.

use crate::sums::views;
use crate::text::copy_bytes;
use vstd::prelude::*;

verus! {

/// A 32-byte hash.
pub type Hash256 = [u8; 32];

/// What an optional value says.
pub open spec fn option_view<T: View>(value: Option<T>) -> Option<T::V> {
    match value {
        Some(v) => Some(v@),
        None => None,
    }
}

/// A type whose values can be copied without changing what they say.
pub trait Duplicate: View + Sized {
    fn duplicate(&self) -> (copy: Self)
        ensures
            copy@ == self@,
    ;
}

/// A copy of a list.
pub fn duplicate_list<T: Duplicate>(list: &Vec<T>) -> (copy: Vec<T>)
    ensures
        views(copy@) == views(list@),
{
    let mut copy: Vec<T> = Vec::new();
    let mut i: usize = 0;
    while i < list.len()
        invariant
            i <= list@.len(),
            copy@.len() == i,
            forall|j: int| 0 <= j < i ==> (#[trigger] copy@[j])@ == list@[j]@,
        decreases list@.len() - i,
    {
        copy.push(list[i].duplicate());
        i = i + 1;
    }
    assert(views(copy@) =~= views(list@));
    copy
}

/// A copy of a list of texts.
pub fn duplicate_texts(list: &Vec<String>) -> (copy: Vec<String>)
    ensures
        views(copy@) == views(list@),
{
    let mut copy: Vec<String> = Vec::new();
    let mut i: usize = 0;
    while i < list.len()
        invariant
            i <= list@.len(),
            copy@.len() == i,
            forall|j: int| 0 <= j < i ==> (#[trigger] copy@[j])@ == list@[j]@,
        decreases list@.len() - i,
    {
        copy.push(list[i].clone());
        i = i + 1;
    }
    assert(views(copy@) =~= views(list@));
    copy
}

/// A copy of an optional value.
pub fn duplicate_option<T: Duplicate>(value: &Option<T>) -> (copy: Option<T>)
    ensures
        option_view(copy) == option_view(*value),
{
    match value {
        Some(v) => Some(v.duplicate()),
        None => None,
    }
}

/// A copy of an optional text.
pub fn duplicate_text(value: &Option<String>) -> (copy: Option<String>)
    ensures
        option_view(copy) == option_view(*value),
{
    match value {
        Some(v) => Some(v.clone()),
        None => None,
    }
}

/// A copy of an optional byte string.
pub fn duplicate_bytes(value: &Option<Vec<u8>>) -> (copy: Option<Vec<u8>>)
    ensures
        option_view(copy) == option_view(*value),
{
    match value {
        Some(v) => Some(copy_bytes(v)),
        None => None,
    }
}

/// Whether two hashes are equal.
pub fn same_hash(a: &Hash256, b: &Hash256) -> (same: bool)
    ensures
        same == (a@ == b@),
{
    let mut i: usize = 0;
    while i < 32
        invariant
            i <= 32,
            forall|j: int| 0 <= j < i ==> a@[j] == b@[j],
        decreases 32 - i,
    {
        if a[i] != b[i] {
            assert(a@[i as int] != b@[i as int]);
            return false;
        }
        i = i + 1;
    }
    assert(a@ =~= b@);
    true
}

/// How a validator votes on a transaction.
#[derive(Clone, Copy, Debug, PartialEq, Eq, Structural)]
pub enum VoteDecision {
    Accept,
    Reject,
}

/// A signed vote of a validator on a transaction.
#[derive(Debug)]
pub struct TimeVote {
    pub chain_id: u32,
    pub txid: Hash256,
    pub tx_hash_commitment: Hash256,
    pub slot_index: u64,
    pub decision: VoteDecision,
    pub voter_mn_id: String,
    pub voter_weight: u64,
    pub signature: Vec<u8>,
}

/// What a `TimeVote` says.
#[verifier::ext_equal]
pub struct TimeVoteV {
    pub chain_id: u32,
    pub txid: Seq<u8>,
    pub tx_hash_commitment: Seq<u8>,
    pub slot_index: u64,
    pub decision: VoteDecision,
    pub voter_mn_id: Seq<char>,
    pub voter_weight: u64,
    pub signature: Seq<u8>,
}

impl View for TimeVote {
    type V = TimeVoteV;

    open spec fn view(&self) -> TimeVoteV {
        TimeVoteV {
            chain_id: self.chain_id,
            txid: self.txid@,
            tx_hash_commitment: self.tx_hash_commitment@,
            slot_index: self.slot_index,
            decision: self.decision,
            voter_mn_id: self.voter_mn_id@,
            voter_weight: self.voter_weight,
            signature: self.signature@,
        }
    }
}

impl Duplicate for TimeVote {
    fn duplicate(&self) -> (copy: Self) {
        TimeVote {
            chain_id: self.chain_id,
            txid: self.txid,
            tx_hash_commitment: self.tx_hash_commitment,
            slot_index: self.slot_index,
            decision: self.decision,
            voter_mn_id: self.voter_mn_id.clone(),
            voter_weight: self.voter_weight,
            signature: copy_bytes(&self.signature),
        }
    }
}

impl Clone for TimeVote {
    fn clone(&self) -> (copy: Self)
        ensures
            copy@ == self@,
    {
        self.duplicate()
    }
}

/// A vote that counts towards finality.
pub type FinalityVote = TimeVote;

/// The votes that prove a transaction final.
#[derive(Debug)]
pub struct TimeProof {
    pub txid: Hash256,
    pub slot_index: u64,
    pub votes: Vec<TimeVote>,
}

/// What a `TimeProof` says.
#[verifier::ext_equal]
pub struct TimeProofV {
    pub txid: Seq<u8>,
    pub slot_index: u64,
    pub votes: Seq<TimeVoteV>,
}

impl View for TimeProof {
    type V = TimeProofV;

    open spec fn view(&self) -> TimeProofV {
        TimeProofV {
            txid: self.txid@,
            slot_index: self.slot_index,
            votes: views(self.votes@),
        }
    }
}

impl Duplicate for TimeProof {
    fn duplicate(&self) -> (copy: Self) {
        TimeProof {
            txid: self.txid,
            slot_index: self.slot_index,
            votes: duplicate_list(&self.votes),
        }
    }
}

impl Clone for TimeProof {
    fn clone(&self) -> (copy: Self)
        ensures
            copy@ == self@,
    {
        self.duplicate()
    }
}

/// A record of competing proofs for one transaction.
#[derive(Debug)]
pub struct TimeProofConflictInfo {
    pub txid: Hash256,
    pub slot_index: u64,
    pub proof_count: usize,
    pub proof_weights: Vec<u64>,
    pub max_weight: u64,
    pub winning_proof_index: usize,
    /// Seconds since the Unix epoch.
    pub detected_at: u64,
    pub resolved: bool,
}

/// What a `TimeProofConflictInfo` says.
#[verifier::ext_equal]
pub struct TimeProofConflictInfoV {
    pub txid: Seq<u8>,
    pub slot_index: u64,
    pub proof_count: usize,
    pub proof_weights: Seq<u64>,
    pub max_weight: u64,
    pub winning_proof_index: usize,
    pub detected_at: u64,
    pub resolved: bool,
}

impl View for TimeProofConflictInfo {
    type V = TimeProofConflictInfoV;

    open spec fn view(&self) -> TimeProofConflictInfoV {
        TimeProofConflictInfoV {
            txid: self.txid@,
            slot_index: self.slot_index,
            proof_count: self.proof_count,
            proof_weights: self.proof_weights@,
            max_weight: self.max_weight,
            winning_proof_index: self.winning_proof_index,
            detected_at: self.detected_at,
            resolved: self.resolved,
        }
    }
}

impl Duplicate for TimeProofConflictInfo {
    fn duplicate(&self) -> (copy: Self) {
        TimeProofConflictInfo {
            txid: self.txid,
            slot_index: self.slot_index,
            proof_count: self.proof_count,
            proof_weights: vstd::slice::slice_to_vec(&self.proof_weights),
            max_weight: self.max_weight,
            winning_proof_index: self.winning_proof_index,
            detected_at: self.detected_at,
            resolved: self.resolved,
        }
    }
}

impl Clone for TimeProofConflictInfo {
    fn clone(&self) -> (copy: Self)
        ensures
            copy@ == self@,
    {
        self.duplicate()
    }
}

/// Where a transaction stands. Times are milliseconds since the Unix epoch.
#[derive(Debug)]
pub enum TransactionStatus {
    Voting { confidence: u32, counter: u32, started_at: i64 },
    FallbackResolution { started_at: i64, round: u32, alerts_count: u32 },
    Finalized { finalized_at: i64, vfp_weight: u64 },
    Rejected { rejected_at: i64, reason: String },
}

/// What a `TransactionStatus` says.
pub enum TransactionStatusV {
    Voting { confidence: u32, counter: u32, started_at: i64 },
    FallbackResolution { started_at: i64, round: u32, alerts_count: u32 },
    Finalized { finalized_at: i64, vfp_weight: u64 },
    Rejected { rejected_at: i64, reason: Seq<char> },
}

impl View for TransactionStatus {
    type V = TransactionStatusV;

    open spec fn view(&self) -> TransactionStatusV {
        match *self {
            TransactionStatus::Voting { confidence, counter, started_at } =>
                TransactionStatusV::Voting { confidence, counter, started_at },
            TransactionStatus::FallbackResolution { started_at, round, alerts_count } =>
                TransactionStatusV::FallbackResolution { started_at, round, alerts_count },
            TransactionStatus::Finalized { finalized_at, vfp_weight } =>
                TransactionStatusV::Finalized { finalized_at, vfp_weight },
            TransactionStatus::Rejected { rejected_at, reason } =>
                TransactionStatusV::Rejected { rejected_at, reason: reason@ },
        }
    }
}

impl Duplicate for TransactionStatus {
    fn duplicate(&self) -> (copy: Self) {
        match self {
            TransactionStatus::Voting { confidence, counter, started_at } =>
                TransactionStatus::Voting {
                    confidence: *confidence,
                    counter: *counter,
                    started_at: *started_at,
                },
            TransactionStatus::FallbackResolution { started_at, round, alerts_count } =>
                TransactionStatus::FallbackResolution {
                    started_at: *started_at,
                    round: *round,
                    alerts_count: *alerts_count,
                },
            TransactionStatus::Finalized { finalized_at, vfp_weight } =>
                TransactionStatus::Finalized {
                    finalized_at: *finalized_at,
                    vfp_weight: *vfp_weight,
                },
            TransactionStatus::Rejected { rejected_at, reason } => TransactionStatus::Rejected {
                rejected_at: *rejected_at,
                reason: reason.clone(),
            },
        }
    }
}

impl Clone for TransactionStatus {
    fn clone(&self) -> (copy: Self)
        ensures
            copy@ == self@,
    {
        self.duplicate()
    }
}

/// One poll of the validators, in encoded form.
#[derive(Debug)]
pub struct PollResult {
    pub encoded: Vec<u8>,
}

/// What a `PollResult` says.
#[verifier::ext_equal]
pub struct PollResultV {
    pub encoded: Seq<u8>,
}

impl View for PollResult {
    type V = PollResultV;

    open spec fn view(&self) -> PollResultV {
        PollResultV {
            encoded: self.encoded@,
        }
    }
}

impl Duplicate for PollResult {
    fn duplicate(&self) -> (copy: Self) {
        PollResult {
            encoded: copy_bytes(&self.encoded),
        }
    }
}

impl Clone for PollResult {
    fn clone(&self) -> (copy: Self)
        ensures
            copy@ == self@,
    {
        self.duplicate()
    }
}

/// A report that a transaction is stuck in voting.
#[derive(Debug)]
pub struct LivenessAlert {
    pub chain_id: u32,
    pub txid: Hash256,
    pub tx_hash_commitment: Hash256,
    pub slot_index: u64,
    pub poll_history: Vec<PollResult>,
    pub current_confidence: u32,
    pub stall_duration_ms: u64,
    pub reporter_mn_id: String,
    pub reporter_signature: Vec<u8>,
}

/// What a `LivenessAlert` says.
#[verifier::ext_equal]
pub struct LivenessAlertV {
    pub chain_id: u32,
    pub txid: Seq<u8>,
    pub tx_hash_commitment: Seq<u8>,
    pub slot_index: u64,
    pub poll_history: Seq<PollResultV>,
    pub current_confidence: u32,
    pub stall_duration_ms: u64,
    pub reporter_mn_id: Seq<char>,
    pub reporter_signature: Seq<u8>,
}

impl View for LivenessAlert {
    type V = LivenessAlertV;

    open spec fn view(&self) -> LivenessAlertV {
        LivenessAlertV {
            chain_id: self.chain_id,
            txid: self.txid@,
            tx_hash_commitment: self.tx_hash_commitment@,
            slot_index: self.slot_index,
            poll_history: views(self.poll_history@),
            current_confidence: self.current_confidence,
            stall_duration_ms: self.stall_duration_ms,
            reporter_mn_id: self.reporter_mn_id@,
            reporter_signature: self.reporter_signature@,
        }
    }
}

impl Duplicate for LivenessAlert {
    fn duplicate(&self) -> (copy: Self) {
        LivenessAlert {
            chain_id: self.chain_id,
            txid: self.txid,
            tx_hash_commitment: self.tx_hash_commitment,
            slot_index: self.slot_index,
            poll_history: duplicate_list(&self.poll_history),
            current_confidence: self.current_confidence,
            stall_duration_ms: self.stall_duration_ms,
            reporter_mn_id: self.reporter_mn_id.clone(),
            reporter_signature: copy_bytes(&self.reporter_signature),
        }
    }
}

impl Clone for LivenessAlert {
    fn clone(&self) -> (copy: Self)
        ensures
            copy@ == self@,
    {
        self.duplicate()
    }
}

/// What a fallback leader proposes.
#[derive(Clone, Copy, Debug, PartialEq, Eq, Structural)]
pub enum FallbackDecision {
    Accept,
    Reject,
}

/// The proposal of a fallback leader for a stuck transaction.
#[derive(Debug)]
pub struct FinalityProposal {
    pub chain_id: u32,
    pub txid: Hash256,
    pub tx_hash_commitment: Hash256,
    pub slot_index: u64,
    pub decision: FallbackDecision,
    pub justification: String,
    pub leader_mn_id: String,
    pub leader_signature: Vec<u8>,
}

/// What a `FinalityProposal` says.
#[verifier::ext_equal]
pub struct FinalityProposalV {
    pub chain_id: u32,
    pub txid: Seq<u8>,
    pub tx_hash_commitment: Seq<u8>,
    pub slot_index: u64,
    pub decision: FallbackDecision,
    pub justification: Seq<char>,
    pub leader_mn_id: Seq<char>,
    pub leader_signature: Seq<u8>,
}

impl View for FinalityProposal {
    type V = FinalityProposalV;

    open spec fn view(&self) -> FinalityProposalV {
        FinalityProposalV {
            chain_id: self.chain_id,
            txid: self.txid@,
            tx_hash_commitment: self.tx_hash_commitment@,
            slot_index: self.slot_index,
            decision: self.decision,
            justification: self.justification@,
            leader_mn_id: self.leader_mn_id@,
            leader_signature: self.leader_signature@,
        }
    }
}

impl Duplicate for FinalityProposal {
    fn duplicate(&self) -> (copy: Self) {
        FinalityProposal {
            chain_id: self.chain_id,
            txid: self.txid,
            tx_hash_commitment: self.tx_hash_commitment,
            slot_index: self.slot_index,
            decision: self.decision,
            justification: self.justification.clone(),
            leader_mn_id: self.leader_mn_id.clone(),
            leader_signature: copy_bytes(&self.leader_signature),
        }
    }
}

impl Clone for FinalityProposal {
    fn clone(&self) -> (copy: Self)
        ensures
            copy@ == self@,
    {
        self.duplicate()
    }
}

/// How a validator votes on a proposal.
#[derive(Clone, Copy, Debug, PartialEq, Eq, Structural)]
pub enum FallbackVoteDecision {
    Approve,
    Reject,
}

/// A signed vote of a validator on a proposal.
#[derive(Debug)]
pub struct FallbackVote {
    pub chain_id: u32,
    pub proposal_hash: Hash256,
    pub vote: FallbackVoteDecision,
    pub voter_mn_id: String,
    pub voter_weight: u64,
    pub voter_signature: Vec<u8>,
}

/// What a `FallbackVote` says.
#[verifier::ext_equal]
pub struct FallbackVoteV {
    pub chain_id: u32,
    pub proposal_hash: Seq<u8>,
    pub vote: FallbackVoteDecision,
    pub voter_mn_id: Seq<char>,
    pub voter_weight: u64,
    pub voter_signature: Seq<u8>,
}

impl View for FallbackVote {
    type V = FallbackVoteV;

    open spec fn view(&self) -> FallbackVoteV {
        FallbackVoteV {
            chain_id: self.chain_id,
            proposal_hash: self.proposal_hash@,
            vote: self.vote,
            voter_mn_id: self.voter_mn_id@,
            voter_weight: self.voter_weight,
            voter_signature: self.voter_signature@,
        }
    }
}

impl Duplicate for FallbackVote {
    fn duplicate(&self) -> (copy: Self) {
        FallbackVote {
            chain_id: self.chain_id,
            proposal_hash: self.proposal_hash,
            vote: self.vote,
            voter_mn_id: self.voter_mn_id.clone(),
            voter_weight: self.voter_weight,
            voter_signature: copy_bytes(&self.voter_signature),
        }
    }
}

impl Clone for FallbackVote {
    fn clone(&self) -> (copy: Self)
        ensures
            copy@ == self@,
    {
        self.duplicate()
    }
}

/// Counts of what the fallback protocol did and holds.
#[derive(Debug, Clone, Copy)]
pub struct FallbackMetrics {
    pub total_fallback_activations: usize,
    pub total_stall_detections: usize,
    pub total_timelock_resolutions: usize,
    pub active_stalled_txs: usize,
    pub active_fallback_rounds: usize,
    pub byzantine_nodes_flagged: usize,
    pub pending_proposals: usize,
    pub total_fallback_votes: usize,
}

/// An output of an earlier transaction.
#[derive(Debug)]
pub struct OutPoint {
    pub txid: Hash256,
    pub vout: u32,
}

/// What a `OutPoint` says.
#[verifier::ext_equal]
pub struct OutPointV {
    pub txid: Seq<u8>,
    pub vout: u32,
}

impl View for OutPoint {
    type V = OutPointV;

    open spec fn view(&self) -> OutPointV {
        OutPointV {
            txid: self.txid@,
            vout: self.vout,
        }
    }
}

impl Duplicate for OutPoint {
    fn duplicate(&self) -> (copy: Self) {
        OutPoint {
            txid: self.txid,
            vout: self.vout,
        }
    }
}

impl Clone for OutPoint {
    fn clone(&self) -> (copy: Self)
        ensures
            copy@ == self@,
    {
        self.duplicate()
    }
}

/// A spent output, with what authorises the spending.
#[derive(Debug)]
pub struct TxInput {
    pub previous_output: OutPoint,
    pub script_sig: Vec<u8>,
    pub sequence: u32,
}

/// What a `TxInput` says.
#[verifier::ext_equal]
pub struct TxInputV {
    pub previous_output: OutPointV,
    pub script_sig: Seq<u8>,
    pub sequence: u32,
}

impl View for TxInput {
    type V = TxInputV;

    open spec fn view(&self) -> TxInputV {
        TxInputV {
            previous_output: self.previous_output@,
            script_sig: self.script_sig@,
            sequence: self.sequence,
        }
    }
}

impl Duplicate for TxInput {
    fn duplicate(&self) -> (copy: Self) {
        TxInput {
            previous_output: self.previous_output.duplicate(),
            script_sig: copy_bytes(&self.script_sig),
            sequence: self.sequence,
        }
    }
}

impl Clone for TxInput {
    fn clone(&self) -> (copy: Self)
        ensures
            copy@ == self@,
    {
        self.duplicate()
    }
}

/// An amount and who may spend it.
#[derive(Debug)]
pub struct TxOutput {
    pub value: u64,
    pub script_pubkey: Vec<u8>,
}

/// What a `TxOutput` says.
#[verifier::ext_equal]
pub struct TxOutputV {
    pub value: u64,
    pub script_pubkey: Seq<u8>,
}

impl View for TxOutput {
    type V = TxOutputV;

    open spec fn view(&self) -> TxOutputV {
        TxOutputV {
            value: self.value,
            script_pubkey: self.script_pubkey@,
        }
    }
}

impl Duplicate for TxOutput {
    fn duplicate(&self) -> (copy: Self) {
        TxOutput {
            value: self.value,
            script_pubkey: copy_bytes(&self.script_pubkey),
        }
    }
}

impl Clone for TxOutput {
    fn clone(&self) -> (copy: Self)
        ensures
            copy@ == self@,
    {
        self.duplicate()
    }
}

/// What a transaction that carries special data is for.
#[derive(Clone, Copy, Debug, PartialEq, Eq, Structural)]
pub enum SpecialKind {
    MasternodeReg,
    MasternodeDereg,
    Other,
}

/// What the rules read of the special data in a transaction.
#[derive(Debug)]
pub struct SpecialData {
    pub kind: SpecialKind,
    /// What is wrong with its fields, if anything is.
    pub field_error: Option<String>,
    pub signature_valid: bool,
    /// Whether the address in it belongs to the key in it.
    pub address_bound: bool,
}

/// What a `SpecialData` says.
#[verifier::ext_equal]
pub struct SpecialDataV {
    pub kind: SpecialKind,
    pub field_error: Option<Seq<char>>,
    pub signature_valid: bool,
    pub address_bound: bool,
}

impl View for SpecialData {
    type V = SpecialDataV;

    open spec fn view(&self) -> SpecialDataV {
        SpecialDataV {
            kind: self.kind,
            field_error: option_view(self.field_error),
            signature_valid: self.signature_valid,
            address_bound: self.address_bound,
        }
    }
}

impl Duplicate for SpecialData {
    fn duplicate(&self) -> (copy: Self) {
        SpecialData {
            kind: self.kind,
            field_error: duplicate_text(&self.field_error),
            signature_valid: self.signature_valid,
            address_bound: self.address_bound,
        }
    }
}

impl Clone for SpecialData {
    fn clone(&self) -> (copy: Self)
        ensures
            copy@ == self@,
    {
        self.duplicate()
    }
}

/// A transaction.
#[derive(Debug)]
pub struct Transaction {
    pub version: u32,
    pub inputs: Vec<TxInput>,
    pub outputs: Vec<TxOutput>,
    pub lock_time: u32,
    pub timestamp: i64,
    pub special_data: Option<SpecialData>,
    pub encrypted_memo: Option<Vec<u8>>,
}

/// What a `Transaction` says.
#[verifier::ext_equal]
pub struct TransactionV {
    pub version: u32,
    pub inputs: Seq<TxInputV>,
    pub outputs: Seq<TxOutputV>,
    pub lock_time: u32,
    pub timestamp: i64,
    pub special_data: Option<SpecialDataV>,
    pub encrypted_memo: Option<Seq<u8>>,
}

impl View for Transaction {
    type V = TransactionV;

    open spec fn view(&self) -> TransactionV {
        TransactionV {
            version: self.version,
            inputs: views(self.inputs@),
            outputs: views(self.outputs@),
            lock_time: self.lock_time,
            timestamp: self.timestamp,
            special_data: option_view(self.special_data),
            encrypted_memo: option_view(self.encrypted_memo),
        }
    }
}

impl Duplicate for Transaction {
    fn duplicate(&self) -> (copy: Self) {
        Transaction {
            version: self.version,
            inputs: duplicate_list(&self.inputs),
            outputs: duplicate_list(&self.outputs),
            lock_time: self.lock_time,
            timestamp: self.timestamp,
            special_data: duplicate_option(&self.special_data),
            encrypted_memo: duplicate_bytes(&self.encrypted_memo),
        }
    }
}

impl Clone for Transaction {
    fn clone(&self) -> (copy: Self)
        ensures
            copy@ == self@,
    {
        self.duplicate()
    }
}

/// An output that can be spent.
#[derive(Debug)]
pub struct UTXO {
    pub outpoint: OutPoint,
    pub value: u64,
    pub script_pubkey: Vec<u8>,
    pub address: String,
}

/// What a `UTXO` says.
#[verifier::ext_equal]
pub struct UTXOV {
    pub outpoint: OutPointV,
    pub value: u64,
    pub script_pubkey: Seq<u8>,
    pub address: Seq<char>,
}

impl View for UTXO {
    type V = UTXOV;

    open spec fn view(&self) -> UTXOV {
        UTXOV {
            outpoint: self.outpoint@,
            value: self.value,
            script_pubkey: self.script_pubkey@,
            address: self.address@,
        }
    }
}

impl Duplicate for UTXO {
    fn duplicate(&self) -> (copy: Self) {
        UTXO {
            outpoint: self.outpoint.duplicate(),
            value: self.value,
            script_pubkey: copy_bytes(&self.script_pubkey),
            address: self.address.clone(),
        }
    }
}

impl Clone for UTXO {
    fn clone(&self) -> (copy: Self)
        ensures
            copy@ == self@,
    {
        self.duplicate()
    }
}

/// The state of an output. Times are seconds since the Unix epoch.
#[derive(Clone, Copy, Debug)]
pub enum UTXOState {
    Unspent,
    Locked { txid: Hash256, locked_at: i64 },
    SpentPending { txid: Hash256, votes: u32, total_nodes: u32, spent_at: i64 },
    SpentFinalized { txid: Hash256 },
    Archived { txid: Hash256 },
}

/// The stake class of a masternode.
#[derive(Clone, Copy, Debug, PartialEq, Eq, Structural)]
pub enum MasternodeTier {
    Free,
    Bronze,
    Silver,
    Gold,
}

/// A registered validator.
#[derive(Debug)]
pub struct Masternode {
    pub address: String,
    pub wallet_address: String,
    pub collateral: u64,
    pub public_key: Hash256,
    pub tier: MasternodeTier,
    pub registered_at: u64,
}

/// What a `Masternode` says.
#[verifier::ext_equal]
pub struct MasternodeV {
    pub address: Seq<char>,
    pub wallet_address: Seq<char>,
    pub collateral: u64,
    pub public_key: Seq<u8>,
    pub tier: MasternodeTier,
    pub registered_at: u64,
}

impl View for Masternode {
    type V = MasternodeV;

    open spec fn view(&self) -> MasternodeV {
        MasternodeV {
            address: self.address@,
            wallet_address: self.wallet_address@,
            collateral: self.collateral,
            public_key: self.public_key@,
            tier: self.tier,
            registered_at: self.registered_at,
        }
    }
}

impl Duplicate for Masternode {
    fn duplicate(&self) -> (copy: Self) {
        Masternode {
            address: self.address.clone(),
            wallet_address: self.wallet_address.clone(),
            collateral: self.collateral,
            public_key: self.public_key,
            tier: self.tier,
            registered_at: self.registered_at,
        }
    }
}

impl Clone for Masternode {
    fn clone(&self) -> (copy: Self)
        ensures
            copy@ == self@,
    {
        self.duplicate()
    }
}

impl Masternode {
    /// A masternode from its parts.
    pub fn new_legacy(
        address: String,
        wallet_address: String,
        collateral: u64,
        public_key: [u8; 32],
        tier: MasternodeTier,
        registered_at: u64,
    ) -> (made: Self)
        ensures
            made@ == (MasternodeV {
                address: address@,
                wallet_address: wallet_address@,
                collateral,
                public_key: public_key@,
                tier,
                registered_at,
            }),
    {
        Masternode { address, wallet_address, collateral, public_key, tier, registered_at }
    }
}

/// A masternode as the registry knows it.
#[derive(Debug)]
pub struct MasternodeInfo {
    pub masternode: Masternode,
    pub reward_address: String,
    pub is_active: bool,
}

/// What a `MasternodeInfo` says.
#[verifier::ext_equal]
pub struct MasternodeInfoV {
    pub masternode: MasternodeV,
    pub reward_address: Seq<char>,
    pub is_active: bool,
}

impl View for MasternodeInfo {
    type V = MasternodeInfoV;

    open spec fn view(&self) -> MasternodeInfoV {
        MasternodeInfoV {
            masternode: self.masternode@,
            reward_address: self.reward_address@,
            is_active: self.is_active,
        }
    }
}

impl Duplicate for MasternodeInfo {
    fn duplicate(&self) -> (copy: Self) {
        MasternodeInfo {
            masternode: self.masternode.duplicate(),
            reward_address: self.reward_address.clone(),
            is_active: self.is_active,
        }
    }
}

impl Clone for MasternodeInfo {
    fn clone(&self) -> (copy: Self)
        ensures
            copy@ == self@,
    {
        self.duplicate()
    }
}

/// The sampling weight of each stake class.
#[derive(Debug, Clone, Copy)]
pub struct TierWeights {
    pub free: u64,
    pub bronze: u64,
    pub silver: u64,
    pub gold: u64,
}

impl TierWeights {
    /// The weight of a class.
    pub open spec fn weight(self, tier: MasternodeTier) -> u64 {
        match tier {
            MasternodeTier::Free => self.free,
            MasternodeTier::Bronze => self.bronze,
            MasternodeTier::Silver => self.silver,
            MasternodeTier::Gold => self.gold,
        }
    }

    /// The weight of a class.
    pub fn of(&self, tier: MasternodeTier) -> (weight: u64)
        ensures
            weight == self.weight(tier),
    {
        match tier {
            MasternodeTier::Free => self.free,
            MasternodeTier::Bronze => self.bronze,
            MasternodeTier::Silver => self.silver,
            MasternodeTier::Gold => self.gold,
        }
    }
}

/// The registered masternodes at one moment, and the weights of their classes.
#[derive(Debug)]
pub struct MasternodeRegistry {
    pub weights: TierWeights,
    pub nodes: Vec<MasternodeInfo>,
}

/// What a `MasternodeRegistry` says.
#[verifier::ext_equal]
pub struct MasternodeRegistryV {
    pub weights: TierWeights,
    pub nodes: Seq<MasternodeInfoV>,
}

impl View for MasternodeRegistry {
    type V = MasternodeRegistryV;

    open spec fn view(&self) -> MasternodeRegistryV {
        MasternodeRegistryV {
            weights: self.weights,
            nodes: views(self.nodes@),
        }
    }
}

impl Duplicate for MasternodeRegistry {
    fn duplicate(&self) -> (copy: Self) {
        MasternodeRegistry {
            weights: self.weights,
            nodes: duplicate_list(&self.nodes),
        }
    }
}

impl Clone for MasternodeRegistry {
    fn clone(&self) -> (copy: Self)
        ensures
            copy@ == self@,
    {
        self.duplicate()
    }
}

/// A validator and its sampling weight.
#[derive(Debug)]
pub struct ValidatorInfo {
    pub address: String,
    pub weight: u64,
}

/// What a `ValidatorInfo` says.
#[verifier::ext_equal]
pub struct ValidatorInfoV {
    pub address: Seq<char>,
    pub weight: u64,
}

impl View for ValidatorInfo {
    type V = ValidatorInfoV;

    open spec fn view(&self) -> ValidatorInfoV {
        ValidatorInfoV {
            address: self.address@,
            weight: self.weight,
        }
    }
}

impl Duplicate for ValidatorInfo {
    fn duplicate(&self) -> (copy: Self) {
        ValidatorInfo {
            address: self.address.clone(),
            weight: self.weight,
        }
    }
}

impl Clone for ValidatorInfo {
    fn clone(&self) -> (copy: Self)
        ensures
            copy@ == self@,
    {
        self.duplicate()
    }
}

/// The active validators of one slot.
#[derive(Debug)]
pub struct AVSSnapshot {
    pub slot_index: u64,
    pub validators: Vec<ValidatorInfo>,
}

/// What a `AVSSnapshot` says.
#[verifier::ext_equal]
pub struct AVSSnapshotV {
    pub slot_index: u64,
    pub validators: Seq<ValidatorInfoV>,
}

impl View for AVSSnapshot {
    type V = AVSSnapshotV;

    open spec fn view(&self) -> AVSSnapshotV {
        AVSSnapshotV {
            slot_index: self.slot_index,
            validators: views(self.validators@),
        }
    }
}

impl Duplicate for AVSSnapshot {
    fn duplicate(&self) -> (copy: Self) {
        AVSSnapshot {
            slot_index: self.slot_index,
            validators: duplicate_list(&self.validators),
        }
    }
}

impl Clone for AVSSnapshot {
    fn clone(&self) -> (copy: Self)
        ensures
            copy@ == self@,
    {
        self.duplicate()
    }
}

/// A request to be paid.
#[derive(Debug)]
pub struct PaymentRequest {
    pub id: String,
    /// Who asks to be paid.
    pub from_address: String,
    /// Who is asked to pay.
    pub to_address: String,
    /// Seconds since the Unix epoch.
    pub expires: i64,
}

/// What a `PaymentRequest` says.
#[verifier::ext_equal]
pub struct PaymentRequestV {
    pub id: Seq<char>,
    pub from_address: Seq<char>,
    pub to_address: Seq<char>,
    pub expires: i64,
}

impl View for PaymentRequest {
    type V = PaymentRequestV;

    open spec fn view(&self) -> PaymentRequestV {
        PaymentRequestV {
            id: self.id@,
            from_address: self.from_address@,
            to_address: self.to_address@,
            expires: self.expires,
        }
    }
}

impl Duplicate for PaymentRequest {
    fn duplicate(&self) -> (copy: Self) {
        PaymentRequest {
            id: self.id.clone(),
            from_address: self.from_address.clone(),
            to_address: self.to_address.clone(),
            expires: self.expires,
        }
    }
}

impl Clone for PaymentRequest {
    fn clone(&self) -> (copy: Self)
        ensures
            copy@ == self@,
    {
        self.duplicate()
    }
}

/// Which network a node runs on.
#[derive(Clone, Copy, Debug, PartialEq, Eq, Structural)]
pub enum NetworkType {
    Mainnet,
    Testnet,
}

impl MasternodeRegistryV {
    /// The masternodes that are active.
    pub open spec fn active(self) -> Seq<MasternodeInfoV> {
        active_among(self.nodes)
    }

    /// The active masternodes as validators.
    pub open spec fn validators(self) -> Seq<ValidatorInfoV> {
        let weights = self.weights;
        self.active().map_values(
            |info: MasternodeInfoV|
                ValidatorInfoV {
                    address: info.masternode.address,
                    weight: weights.weight(info.masternode.tier),
                },
        )
    }
}

/// Those of a list that are active.
pub open spec fn active_among(nodes: Seq<MasternodeInfoV>) -> Seq<MasternodeInfoV>
    decreases nodes.len(),
{
    if nodes.len() == 0 {
        seq![]
    } else if nodes.last().is_active {
        active_among(nodes.drop_last()).push(nodes.last())
    } else {
        active_among(nodes.drop_last())
    }
}

impl MasternodeRegistry {
    /// A registry without masternodes.
    pub fn new(weights: TierWeights) -> (made: Self)
        ensures
            made@.weights == weights,
            made@.nodes == Seq::<MasternodeInfoV>::empty(),
    {
        let made = MasternodeRegistry { weights, nodes: Vec::new() };
        assert(made@.nodes =~= Seq::<MasternodeInfoV>::empty());
        made
    }

    /// All masternodes.
    pub fn list_all(&self) -> (all: Vec<MasternodeInfo>)
        ensures
            views(all@) == self@.nodes,
    {
        duplicate_list(&self.nodes)
    }

    /// The active masternodes.
    pub fn list_active(&self) -> (active: Vec<MasternodeInfo>)
        ensures
            views(active@) == self@.active(),
    {
        let ghost all = views(self.nodes@);
        let mut active: Vec<MasternodeInfo> = Vec::new();
        let mut i: usize = 0;
        assert(views(active@) =~= active_among(all.take(0)));
        while i < self.nodes.len()
            invariant
                i <= self.nodes@.len(),
                all == views(self.nodes@),
                views(active@) == active_among(all.take(i as int)),
            decreases self.nodes@.len() - i,
        {
            proof {
                assert(all.take(i + 1).drop_last() =~= all.take(i as int));
                assert(all.take(i + 1).last() == self.nodes@[i as int]@);
            }
            if self.nodes[i].is_active {
                let ghost held = views(active@);
                let info = self.nodes[i].duplicate();
                active.push(info);
                assert(views(active@) =~= held.push(info@));
            }
            i = i + 1;
        }
        assert(all.take(i as int) =~= all);
        active
    }

    /// The active masternodes as validators, with their sampling weights.
    pub fn validators(&self) -> (validators: Vec<ValidatorInfo>)
        ensures
            views(validators@) == self@.validators(),
    {
        let active = self.list_active();
        let mut validators: Vec<ValidatorInfo> = Vec::new();
        let mut i: usize = 0;
        while i < active.len()
            invariant
                i <= active@.len(),
                validators@.len() == i,
                forall|j: int|
                    0 <= j < i ==> (#[trigger] validators@[j])@ == (ValidatorInfoV {
                        address: active@[j]@.masternode.address,
                        weight: self@.weights.weight(active@[j]@.masternode.tier),
                    }),
            decreases active@.len() - i,
        {
            let info = &active[i];
            validators.push(
                ValidatorInfo {
                    address: info.masternode.address.clone(),
                    weight: self.weights.of(info.masternode.tier),
                },
            );
            i = i + 1;
        }
        proof {
            let found = self@.validators();
            assert(views(active@) == self@.active());
            assert forall|j: int| 0 <= j < found.len() implies views(validators@)[j] == found[j] by {
                assert(self@.active()[j] == active@[j]@);
            }
            assert(views(validators@) =~= found);
        }
        validators
    }
}

/// Active masternodes are listed in order, and no others.
pub proof fn active_masternodes_are_listed(nodes: Seq<MasternodeInfoV>, node: MasternodeInfoV)
    ensures
        active_among(seq![]).len() == 0,
        node.is_active ==> active_among(nodes.push(node)) == active_among(nodes).push(node),
        !node.is_active ==> active_among(nodes.push(node)) == active_among(nodes),
{
    assert(nodes.push(node).drop_last() =~= nodes);
}

/// Every active masternode is a validator, under its address and with the weight of
/// its class, and nobody else is.
pub proof fn validators_have_the_weight_of_their_class(registry: MasternodeRegistryV, i: int)
    ensures
        registry.validators().len() == registry.active().len(),
        0 <= i < registry.active().len() ==> {
            let info = registry.active()[i].masternode;
            let validator = registry.validators()[i];
            &&& validator.address == info.address
            &&& info.tier == MasternodeTier::Free ==> validator.weight == registry.weights.free
            &&& info.tier == MasternodeTier::Bronze ==> validator.weight == registry.weights.bronze
            &&& info.tier == MasternodeTier::Silver ==> validator.weight == registry.weights.silver
            &&& info.tier == MasternodeTier::Gold ==> validator.weight == registry.weights.gold
        },
{
}

} // verus!
