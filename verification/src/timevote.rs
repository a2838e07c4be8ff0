//! Votes on transactions and blocks, and what becomes of them.

use crate::ballots::{voters_of, BoxV, PrecommitVoteAccumulator, PrepareVoteAccumulator};
use crate::clock::Clock;
use crate::crypto::hex_text;
use crate::fees::ceil_div;
use crate::names::merged;
use crate::sums::{lists, viewed, views};
use crate::table::Table;
use crate::text::{join2, join4, same_text};
use crate::types::{
    duplicate_list, AVSSnapshot, AVSSnapshotV, FallbackVote, FallbackVoteV, Hash256, LivenessAlert,
    LivenessAlertV, MasternodeInfo, MasternodeInfoV, MasternodeRegistry, MasternodeRegistryV,
    TimeProof, TimeProofConflictInfo, TimeProofConflictInfoV, TimeProofV, TimeVote, TimeVoteV,
    TransactionStatus, TransactionStatusV, ValidatorInfo, ValidatorInfoV, VoteDecision,
};
use std::sync::Arc;
use vstd::prelude::*;

verus! {

/// How many slots a validator snapshot is kept.
pub const SNAPSHOT_RETENTION: u64 = 100;

/// What can go wrong in voting.
#[derive(Debug)]
pub enum TimeVoteError {
    TransactionNotFound,
    InvalidPreference(String),
    InsufficientConfidence { got: usize, threshold: usize },
    QueryFailed(String),
    ChitAcquisitionFailed,
    ConfigError(String),
}

impl TimeVoteError {
    /// The text of an error.
    pub open spec fn text(&self) -> Seq<char> {
        match *self {
            TimeVoteError::TransactionNotFound => "Transaction not found"@,
            TimeVoteError::InvalidPreference(what) => "Invalid preference: "@ + what@,
            TimeVoteError::InsufficientConfidence { got, threshold } =>
                "Insufficient confidence: got "@ + crate::text::decimal(got as nat) + ", need "@
                    + crate::text::decimal(threshold as nat),
            TimeVoteError::QueryFailed(what) => "Query failed: "@ + what@,
            TimeVoteError::ChitAcquisitionFailed => "Chit acquisition failed"@,
            TimeVoteError::ConfigError(what) => "Configuration error: "@ + what@,
        }
    }

    /// Writes the error out.
    pub fn message(&self) -> (message: String)
        ensures
            message@ == self.text(),
    {
        match self {
            TimeVoteError::TransactionNotFound => String::from_str("Transaction not found"),
            TimeVoteError::InvalidPreference(what) => join2("Invalid preference: ", what.as_str()),
            TimeVoteError::InsufficientConfidence { got, threshold } => {
                let got = crate::text::decimal_text(*got as u64);
                let threshold = crate::text::decimal_text(*threshold as u64);
                join4(
                    "Insufficient confidence: got ",
                    got.as_str(),
                    ", need ",
                    threshold.as_str(),
                )
            },
            TimeVoteError::QueryFailed(what) => join2("Query failed: ", what.as_str()),
            TimeVoteError::ChitAcquisitionFailed => String::from_str("Chit acquisition failed"),
            TimeVoteError::ConfigError(what) => join2("Configuration error: ", what.as_str()),
        }
    }
}

/// The parameters of voting.
#[derive(Debug, Clone, Copy)]
pub struct TimeVoteConfig {
    /// How many validators are asked in a round.
    pub sample_size: usize,
    /// How many answers make a round count.
    pub quorum_size: usize,
    /// How many rounds in a row must agree.
    pub finality_confidence: usize,
    /// The share of the weight that makes a transaction final, in percent.
    pub q_finality_percent: u64,
    /// How long to wait for an answer, in milliseconds.
    pub query_timeout_ms: u64,
    /// How many rounds to try.
    pub max_rounds: usize,
}

impl Default for TimeVoteConfig {
    fn default() -> (config: Self)
        ensures
            config == (TimeVoteConfig {
                sample_size: 20,
                quorum_size: 14,
                finality_confidence: 20,
                q_finality_percent: 67,
                query_timeout_ms: 2000,
                max_rounds: 100,
            }),
    {
        TimeVoteConfig {
            sample_size: 20,
            quorum_size: 14,
            finality_confidence: 20,
            q_finality_percent: 67,
            query_timeout_ms: 2000,
            max_rounds: 100,
        }
    }
}

/// What a node prefers for a transaction.
#[derive(Debug, Clone, Copy, PartialEq, Eq, Structural)]
pub enum Preference {
    Accept,
    Reject,
}

impl Preference {
    /// The name of a preference.
    pub fn name(&self) -> (name: &'static str)
        ensures
            name@ == (match *self {
                Preference::Accept => "Accept"@,
                Preference::Reject => "Reject"@,
            }),
    {
        match self {
            Preference::Accept => "Accept",
            Preference::Reject => "Reject",
        }
    }
}

/// How much the consensus state holds.
#[derive(Debug, Clone, Copy)]
pub struct ConsensusMemoryStats {
    pub tx_state_entries: usize,
    pub finalized_txs: usize,
    pub avs_snapshots: usize,
    pub vfp_votes: usize,
}

/// A node's preference for a transaction, and the one that became final.
#[derive(Debug, Clone, Copy)]
pub struct VotingState {
    pub preference: Preference,
    pub last_finalized: Option<Preference>,
}

impl VotingState {
    /// A preference that is not final yet.
    pub fn new(initial_preference: Preference) -> (state: Self)
        ensures
            state == (VotingState { preference: initial_preference, last_finalized: None }),
    {
        VotingState { preference: initial_preference, last_finalized: None }
    }

    /// Makes the present preference final.
    pub fn finalize(&mut self)
        ensures
            *final(self) == (VotingState {
                preference: old(self).preference,
                last_finalized: Some(old(self).preference),
            }),
    {
        self.last_finalized = Some(self.preference);
    }
}

/// Counts of the voting rounds.
#[derive(Debug, Clone, Copy)]
pub struct TimeVoteMetrics {
    pub rounds_executed: usize,
    pub txs_finalized: usize,
    pub tracked_txs: usize,
}

/// One more, from the largest number to zero.
pub open spec fn bumped(n: usize) -> usize {
    if n == usize::MAX {
        0
    } else {
        (n + 1) as usize
    }
}

/// Counts one more.
pub fn bump(n: usize) -> (next: usize)
    ensures
        next == bumped(n),
{
    if n == usize::MAX {
        0
    } else {
        n + 1
    }
}

/// The weight of the votes in a list.
pub open spec fn vote_weight(votes: Seq<TimeVoteV>) -> nat
    decreases votes.len(),
{
    if votes.len() == 0 {
        0
    } else {
        vote_weight(votes.drop_last()) + votes.last().voter_weight as nat
    }
}

/// The votes in a list that accept.
pub open spec fn accepting(votes: Seq<TimeVoteV>) -> Seq<TimeVoteV>
    decreases votes.len(),
{
    if votes.len() == 0 {
        seq![]
    } else if votes.last().decision == VoteDecision::Accept {
        accepting(votes.drop_last()).push(votes.last())
    } else {
        accepting(votes.drop_last())
    }
}

/// Whether a voter stands in a list of votes.
pub open spec fn has_vote_of(votes: Seq<TimeVoteV>, voter: Seq<char>) -> bool {
    exists|i: int| 0 <= i < votes.len() && (#[trigger] votes[i]).voter_mn_id == voter
}

/// No voter stands twice in a list of votes.
pub open spec fn one_vote_each(votes: Seq<TimeVoteV>) -> bool {
    forall|i: int, j: int|
        0 <= i < j < votes.len() ==> (#[trigger] votes[i]).voter_mn_id != (
        #[trigger] votes[j]).voter_mn_id
}

/// The first of a list of masternodes with an address, if there is one.
pub open spec fn node_at(nodes: Seq<MasternodeInfoV>, address: Seq<char>) -> Option<MasternodeInfoV>
    decreases nodes.len(),
{
    if nodes.len() == 0 {
        None
    } else if nodes[0].masternode.address == address {
        Some(nodes[0])
    } else {
        node_at(nodes.drop_first(), address)
    }
}

/// The weight of the first of a list of validators with an address, if there is one.
pub open spec fn weight_at(validators: Seq<ValidatorInfoV>, address: Seq<char>) -> Option<u64>
    decreases validators.len(),
{
    if validators.len() == 0 {
        None
    } else if validators[0].address == address {
        Some(validators[0].weight)
    } else {
        weight_at(validators.drop_first(), address)
    }
}

/// The weight of a list of validators.
pub open spec fn validator_weight(validators: Seq<ValidatorInfoV>) -> nat
    decreases validators.len(),
{
    if validators.len() == 0 {
        0
    } else {
        validator_weight(validators.drop_last()) + validators.last().weight as nat
    }
}

/// The weight that a snapshot gives the accepting votes of its validators.
pub open spec fn snapshot_weight(
    votes: Seq<TimeVoteV>,
    validators: Seq<ValidatorInfoV>,
) -> nat
    decreases votes.len(),
{
    if votes.len() == 0 {
        0
    } else {
        let rest = snapshot_weight(votes.drop_last(), validators);
        match weight_at(validators, votes.last().voter_mn_id) {
            Some(weight) if votes.last().decision == VoteDecision::Accept => rest + weight as nat,
            _ => rest,
        }
    }
}

/// What is kept of the voters of a block once more voters came in.
pub open spec fn absorbed(
    held: Option<Seq<Seq<char>>>,
    voters: Seq<Seq<char>>,
) -> Option<Seq<Seq<char>>> {
    if voters.len() == 0 {
        held
    } else {
        match held {
            Some(names) => Some(merged(names, voters)),
            None => Some(voters),
        }
    }
}

/// The value of a map under a key, if there is one.
pub open spec fn at<K, V>(m: Map<K, V>, k: K) -> Option<V> {
    if m.contains_key(k) {
        Some(m[k])
    } else {
        None
    }
}

/// The list of a map under a key, empty where there is none.
pub open spec fn list_at<K, V>(m: Map<K, Seq<V>>, k: K) -> Seq<V> {
    if m.contains_key(k) {
        m[k]
    } else {
        seq![]
    }
}

/// The number of a map under a key, zero where there is none.
pub open spec fn count_at<K>(m: Map<K, u64>, k: K) -> u64 {
    if m.contains_key(k) {
        m[k]
    } else {
        0
    }
}

/// What the consensus state holds.
#[verifier::ext_equal]
pub struct ConsensusV {
    pub config: TimeVoteConfig,
    pub registry: MasternodeRegistryV,
    pub tx_state: Map<Seq<u8>, VotingState>,
    pub finalized_txs: Map<Seq<u8>, (Preference, u64)>,
    pub avs_snapshots: Map<u64, AVSSnapshotV>,
    pub timeproof_votes: Map<Seq<u8>, Seq<TimeVoteV>>,
    pub accumulated_weight: Map<Seq<u8>, u64>,
    pub prepare_votes: BoxV,
    pub precommit_votes: BoxV,
    pub last_voted_height: u64,
    pub tx_status: Map<Seq<u8>, TransactionStatusV>,
    pub stall_timers: Map<Seq<u8>, u64>,
    pub liveness_alerts: Map<Seq<u8>, Seq<LivenessAlertV>>,
    pub fallback_votes: Map<Seq<u8>, Seq<FallbackVoteV>>,
    pub active_vote_requests: usize,
    pub proposal_to_tx: Map<Seq<u8>, Seq<u8>>,
    pub fallback_rounds: Map<Seq<u8>, (u64, u32, u64)>,
    pub byzantine_nodes: Map<Seq<char>, bool>,
    pub competing_timeproofs: Map<Seq<u8>, Seq<TimeProofV>>,
    pub timeproof_conflicts: Map<(Seq<u8>, u64), TimeProofConflictInfoV>,
    pub last_block_voters: Map<Seq<u8>, Seq<Seq<char>>>,
    pub rounds_executed: usize,
    pub txs_finalized: usize,
    pub fallback_activations: usize,
    pub stall_detections: usize,
    pub timelock_resolutions: usize,
    pub timeproof_conflicts_detected: usize,
}

impl ConsensusV {
    /// A state in which nothing has happened.
    pub open spec fn fresh(config: TimeVoteConfig, registry: MasternodeRegistryV) -> ConsensusV {
        ConsensusV {
            config,
            registry,
            tx_state: Map::empty(),
            finalized_txs: Map::empty(),
            avs_snapshots: Map::empty(),
            timeproof_votes: Map::empty(),
            accumulated_weight: Map::empty(),
            prepare_votes: BoxV::nothing(),
            precommit_votes: BoxV::nothing(),
            last_voted_height: 0,
            tx_status: Map::empty(),
            stall_timers: Map::empty(),
            liveness_alerts: Map::empty(),
            fallback_votes: Map::empty(),
            active_vote_requests: 0,
            proposal_to_tx: Map::empty(),
            fallback_rounds: Map::empty(),
            byzantine_nodes: Map::empty(),
            competing_timeproofs: Map::empty(),
            timeproof_conflicts: Map::empty(),
            last_block_voters: Map::empty(),
            rounds_executed: 0,
            txs_finalized: 0,
            fallback_activations: 0,
            stall_detections: 0,
            timelock_resolutions: 0,
            timeproof_conflicts_detected: 0,
        }
    }

    /// A voter has one vote for a transaction, and the weight of a transaction is
    /// that of its accepting votes, as long as it fits.
    pub open spec fn votes_consistent(self) -> bool {
        &&& forall|txid: Seq<u8>| #[trigger]
            self.timeproof_votes.contains_key(txid) ==> one_vote_each(self.timeproof_votes[txid])
        &&& forall|txid: Seq<u8>|
            vote_weight(accepting(#[trigger] list_at(self.timeproof_votes, txid))) <= u64::MAX
                ==> count_at(self.accumulated_weight, txid) == vote_weight(
                accepting(list_at(self.timeproof_votes, txid)),
            )
    }

    /// What a vote on a transaction gives: the weight so far, or why it is refused.
    pub open spec fn vote_answer(self, vote: TimeVoteV) -> Result<u64, Seq<char>> {
        match node_at(self.registry.active(), vote.voter_mn_id) {
            None => Err("Voter "@ + vote.voter_mn_id + " not in active validator set"@),
            Some(info) => if !vote.signed_by(info.masternode.public_key) {
                Err("Vote signature verification failed: "@ + "Invalid vote signature"@)
            } else if has_vote_of(list_at(self.timeproof_votes, vote.txid), vote.voter_mn_id) {
                Err("Duplicate vote from "@ + vote.voter_mn_id + " for TX "@ + hex_text(vote.txid))
            } else if vote.decision == VoteDecision::Reject {
                Ok(count_at(self.accumulated_weight, vote.txid))
            } else if count_at(self.accumulated_weight, vote.txid) + vote.voter_weight > u64::MAX {
                Err("Accumulated vote weight overflow"@)
            } else {
                Ok((count_at(self.accumulated_weight, vote.txid) + vote.voter_weight) as u64)
            },
        }
    }

    /// Whether a vote is taken into the list of its transaction.
    pub open spec fn takes_vote(self, vote: TimeVoteV) -> bool {
        match node_at(self.registry.active(), vote.voter_mn_id) {
            None => false,
            Some(info) => vote.signed_by(info.masternode.public_key) && !has_vote_of(
                list_at(self.timeproof_votes, vote.txid),
                vote.voter_mn_id,
            ),
        }
    }

    /// After a vote on a transaction. The weight grows with votes to accept only,
    /// and not beyond what fits.
    pub open spec fn with_vote(self, vote: TimeVoteV) -> ConsensusV {
        if !self.takes_vote(vote) {
            self
        } else {
            ConsensusV {
                timeproof_votes: self.timeproof_votes.insert(
                    vote.txid,
                    list_at(self.timeproof_votes, vote.txid).push(vote),
                ),
                accumulated_weight: if vote.decision == VoteDecision::Accept && count_at(
                    self.accumulated_weight,
                    vote.txid,
                ) + vote.voter_weight <= u64::MAX {
                    self.accumulated_weight.insert(
                        vote.txid,
                        (count_at(self.accumulated_weight, vote.txid) + vote.voter_weight) as u64,
                    )
                } else {
                    self.accumulated_weight
                },
                ..self
            }
        }
    }

    /// After a transaction was recorded as final.
    pub open spec fn recorded(
        self,
        txid: Seq<u8>,
        weight: u64,
        now_nanos: u64,
        now_ms: i64,
    ) -> ConsensusV {
        ConsensusV {
            finalized_txs: self.finalized_txs.insert(txid, (Preference::Accept, now_nanos)),
            tx_status: self.tx_status.insert(
                txid,
                TransactionStatusV::Finalized { finalized_at: now_ms, vfp_weight: weight },
            ),
            txs_finalized: bumped(self.txs_finalized),
            ..self
        }
    }

    /// After the validators of a slot were taken down.
    pub open spec fn with_snapshot(self, snapshot: AVSSnapshotV) -> ConsensusV {
        let slot_index = snapshot.slot_index;
        ConsensusV {
            avs_snapshots: if slot_index > SNAPSHOT_RETENTION {
                self.avs_snapshots.insert(slot_index, snapshot).remove(
                    (slot_index - SNAPSHOT_RETENTION) as u64,
                )
            } else {
                self.avs_snapshots.insert(slot_index, snapshot)
            },
            ..self
        }
    }

    /// The transactions that became final longer ago than a number of seconds.
    pub open spec fn finalized_before(self, retention_secs: u64, now_nanos: u64) -> Set<Seq<u8>> {
        self.finalized_txs.dom().filter(
            |txid: Seq<u8>| self.finalized_txs[txid].1 < now_nanos - retention_secs * 1_000_000_000,
        )
    }

    /// After old transactions were forgotten.
    pub open spec fn without_old(self, retention_secs: u64, now_nanos: u64) -> ConsensusV {
        let gone = self.finalized_before(retention_secs, now_nanos);
        ConsensusV {
            finalized_txs: self.finalized_txs.remove_keys(gone),
            tx_state: self.tx_state.remove_keys(gone),
            timeproof_votes: self.timeproof_votes.remove_keys(gone),
            accumulated_weight: self.accumulated_weight.remove_keys(gone),
            ..self
        }
    }

    /// The kept voters of a block once the votes of both rounds came to them.
    pub open spec fn voters_after(self, block: Seq<u8>) -> Option<Seq<Seq<char>>> {
        absorbed(
            absorbed(
                at(self.last_block_voters, block),
                voters_of(self.precommit_votes.list(block)),
            ),
            voters_of(self.prepare_votes.list(block)),
        )
    }

    /// After the first proposal at a height: votes from lower heights go.
    pub open spec fn at_height(self, new_height: u64) -> ConsensusV {
        if new_height > self.last_voted_height {
            ConsensusV {
                last_voted_height: new_height,
                last_block_voters: Map::new(
                    |block: Seq<u8>| self.voters_after(block) is Some,
                    |block: Seq<u8>| self.voters_after(block)->0,
                ),
                prepare_votes: BoxV::nothing(),
                precommit_votes: BoxV::nothing(),
                ..self
            }
        } else {
            ConsensusV { last_voted_height: new_height, ..self }
        }
    }

    /// After a block became final: its voters are kept, its votes go.
    pub open spec fn without_block(self, block: Seq<u8>) -> ConsensusV {
        let voters = merged(
            voters_of(self.precommit_votes.list(block)),
            voters_of(self.prepare_votes.list(block)),
        );
        ConsensusV {
            last_block_voters: if voters.len() == 0 {
                self.last_block_voters
            } else {
                self.last_block_voters.insert(block, voters)
            },
            prepare_votes: self.prepare_votes.without_block(block),
            precommit_votes: self.precommit_votes.without_block(block),
            ..self
        }
    }
}

/// The voting state of a node.
pub struct TimeVoteConsensus {
    pub config: TimeVoteConfig,
    /// The masternodes as last seen.
    pub masternode_registry: MasternodeRegistry,
    /// The node's own preference for each transaction.
    pub tx_state: Table<Hash256, VotingState>,
    /// Final transactions, with the clock reading of when they became final.
    pub finalized_txs: Table<Hash256, (Preference, u64)>,
    /// The active validators of recent slots.
    pub avs_snapshots: Table<u64, AVSSnapshot>,
    /// The votes on each transaction.
    pub timeproof_votes: Table<Hash256, Vec<TimeVote>>,
    /// The weight of the accepting votes on each transaction.
    pub accumulated_weight: Table<Hash256, u64>,
    pub prepare_votes: PrepareVoteAccumulator,
    pub precommit_votes: PrecommitVoteAccumulator,
    /// The height of the last proposal that was voted on.
    pub last_voted_height: u64,
    pub tx_status: Table<Hash256, TransactionStatus>,
    /// When each transaction went into voting.
    pub stall_timers: Table<Hash256, u64>,
    pub liveness_alerts: Table<Hash256, Vec<LivenessAlert>>,
    /// The votes on each fallback proposal.
    pub fallback_votes: Table<Hash256, Vec<FallbackVote>>,
    pub active_vote_requests: usize,
    /// Which transaction each proposal is for.
    pub proposal_to_tx: Table<Hash256, Hash256>,
    /// The slot, the round, and when the round began.
    pub fallback_rounds: Table<Hash256, (u64, u32, u64)>,
    pub byzantine_nodes: Table<String, bool>,
    /// All proofs seen for each transaction.
    pub competing_timeproofs: Table<Hash256, Vec<TimeProof>>,
    pub timeproof_conflicts: Table<(Hash256, u64), TimeProofConflictInfo>,
    /// The voters of final blocks.
    pub last_block_voters: Table<Hash256, Vec<String>>,
    pub rounds_executed: usize,
    pub txs_finalized: usize,
    pub fallback_activations: usize,
    pub stall_detections: usize,
    pub timelock_resolutions: usize,
    pub timeproof_conflicts_detected: usize,
    pub clock: Clock,
}

impl View for TimeVoteConsensus {
    type V = ConsensusV;

    open spec fn view(&self) -> ConsensusV {
        ConsensusV {
            config: self.config,
            registry: self.masternode_registry@,
            tx_state: self.tx_state@,
            finalized_txs: self.finalized_txs@,
            avs_snapshots: viewed(self.avs_snapshots@),
            timeproof_votes: lists(self.timeproof_votes@),
            accumulated_weight: self.accumulated_weight@,
            prepare_votes: self.prepare_votes@,
            precommit_votes: self.precommit_votes@,
            last_voted_height: self.last_voted_height,
            tx_status: viewed(self.tx_status@),
            stall_timers: self.stall_timers@,
            liveness_alerts: lists(self.liveness_alerts@),
            fallback_votes: lists(self.fallback_votes@),
            active_vote_requests: self.active_vote_requests,
            proposal_to_tx: viewed(self.proposal_to_tx@),
            fallback_rounds: self.fallback_rounds@,
            byzantine_nodes: self.byzantine_nodes@,
            competing_timeproofs: lists(self.competing_timeproofs@),
            timeproof_conflicts: viewed(self.timeproof_conflicts@),
            last_block_voters: lists(self.last_block_voters@),
            rounds_executed: self.rounds_executed,
            txs_finalized: self.txs_finalized,
            fallback_activations: self.fallback_activations,
            stall_detections: self.stall_detections,
            timelock_resolutions: self.timelock_resolutions,
            timeproof_conflicts_detected: self.timeproof_conflicts_detected,
        }
    }
}

/// Looks a masternode up by its address.
pub fn find_node<'a>(nodes: &'a Vec<MasternodeInfo>, address: &str) -> (found: Option<
    &'a MasternodeInfo,
>)
    ensures
        (match found {
            Some(info) => Some(info@),
            None => None,
        }) == node_at(views(nodes@), address@),
{
    let ghost all = views(nodes@);
    let mut i: usize = 0;
    assert(all.skip(0) =~= all);
    while i < nodes.len()
        invariant
            i <= nodes@.len(),
            all == views(nodes@),
            node_at(all, address@) == node_at(all.skip(i as int), address@),
        decreases nodes@.len() - i,
    {
        proof {
            assert(all.skip(i as int)[0] == nodes@[i as int]@);
            assert(all.skip(i as int).drop_first() =~= all.skip(i + 1));
        }
        if same_text(nodes[i].masternode.address.as_str(), address) {
            return Some(&nodes[i]);
        }
        i = i + 1;
    }
    None
}

impl AVSSnapshotV {
    /// The weight of all validators of the slot.
    pub open spec fn total(self) -> nat {
        validator_weight(self.validators)
    }
}

proof fn lemma_validator_prefix(validators: Seq<ValidatorInfoV>, i: int)
    requires
        0 <= i <= validators.len(),
    ensures
        validator_weight(validators.take(i)) <= validator_weight(validators),
        i < validators.len() ==> validator_weight(validators.take(i + 1)) == validator_weight(
            validators.take(i),
        ) + validators[i].weight,
    decreases validators.len() - i,
{
    if i == validators.len() {
        assert(validators.take(i) =~= validators);
    } else {
        assert(validators.take(i + 1).drop_last() =~= validators.take(i));
        lemma_validator_prefix(validators, i + 1);
    }
}

/// The weight of a list of validators.
pub fn weigh_validators(validators: &Vec<ValidatorInfo>) -> (weight: u64)
    requires
        validator_weight(views(validators@)) <= u64::MAX,
    ensures
        weight == validator_weight(views(validators@)),
{
    let ghost all = views(validators@);
    let mut weight: u64 = 0;
    let mut i: usize = 0;
    while i < validators.len()
        invariant
            i <= validators@.len(),
            all == views(validators@),
            weight == validator_weight(all.take(i as int)),
            validator_weight(all) <= u64::MAX,
        decreases validators@.len() - i,
    {
        proof {
            lemma_validator_prefix(all, i as int);
            lemma_validator_prefix(all, i + 1);
            assert(all[i as int] == validators@[i as int]@);
        }
        weight = weight + validators[i].weight;
        i = i + 1;
    }
    assert(all.take(i as int) =~= all);
    weight
}

impl AVSSnapshot {
    /// The validators of a slot.
    pub fn new_with_ref(slot_index: u64, validators: Arc<Vec<ValidatorInfo>>) -> (made: Self)
        ensures
            made@ == (AVSSnapshotV { slot_index, validators: views((*validators)@) }),
    {
        AVSSnapshot { slot_index, validators: duplicate_list(&*validators) }
    }

    /// The weight of a validator of the slot.
    pub fn get_validator_weight(&self, address: &str) -> (weight: Option<u64>)
        ensures
            weight == weight_at(self@.validators, address@),
    {
        let ghost all = views(self.validators@);
        let mut i: usize = 0;
        assert(all.skip(0) =~= all);
        while i < self.validators.len()
            invariant
                i <= self.validators@.len(),
                all == views(self.validators@),
                weight_at(all, address@) == weight_at(all.skip(i as int), address@),
            decreases self.validators@.len() - i,
        {
            proof {
                assert(all.skip(i as int)[0] == self.validators@[i as int]@);
                assert(all.skip(i as int).drop_first() =~= all.skip(i + 1));
            }
            if same_text(self.validators[i].address.as_str(), address) {
                return Some(self.validators[i].weight);
            }
            i = i + 1;
        }
        None
    }

    /// Whether an address is that of a validator of the slot.
    pub fn contains_validator(&self, address: &str) -> (found: bool)
        ensures
            found == (weight_at(self@.validators, address@) is Some),
    {
        self.get_validator_weight(address).is_some()
    }

    /// The weight that makes a transaction final: 67% of all, rounded up.
    pub fn voting_threshold(&self) -> (threshold: u64)
        requires
            self@.total() <= u64::MAX,
        ensures
            threshold == ceil_div((self@.total() * 67) as int, 100),
    {
        crate::thresholds::two_thirds_majority(weigh_validators(&self.validators))
    }
}

} // verus!
