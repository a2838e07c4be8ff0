//! The operations of the voting state.

use crate::ballots::{PrecommitVoteAccumulator, PrepareVoteAccumulator};
use crate::clock::Clock;
use crate::crypto::hex_encode;
use crate::select::{drop_all, select, Condition};
use crate::sums::views;
use crate::table::Table;
use crate::text::{join2, join3, join4, same_text, told};
use crate::timevote::{
    accepting, at, count_at, find_node, has_vote_of, list_at, node_at, one_vote_each,
    snapshot_weight, validator_weight, vote_weight, weight_at, ConsensusMemoryStats, ConsensusV,
    Preference, TimeVoteConfig, TimeVoteConsensus, TimeVoteError, VotingState, SNAPSHOT_RETENTION,
};
use crate::types::{
    duplicate_list, option_view, AVSSnapshot, AVSSnapshotV, Duplicate, FinalityVote, Hash256,
    MasternodeRegistry, TimeProof, TimeVote, TimeVoteV, ValidatorInfo, VoteDecision,
};
use std::sync::Arc;
use vstd::prelude::*;

verus! {

/// Became final before a clock reading.
struct Before {
    cutoff: i128,
}

impl Condition<(Preference, u64)> for Before {
    closed spec fn holds(&self, value: (Preference, u64)) -> bool {
        value.1 < self.cutoff
    }

    fn check(&self, value: &(Preference, u64)) -> (held: bool) {
        (value.1 as i128) < self.cutoff
    }
}

fn voted(votes: &Vec<TimeVote>, voter: &str) -> (found: bool)
    ensures
        found == has_vote_of(views(votes@), voter@),
{
    let mut i: usize = 0;
    while i < votes.len()
        invariant
            i <= votes@.len(),
            forall|j: int| 0 <= j < i ==> (#[trigger] views(votes@)[j]).voter_mn_id != voter@,
        decreases votes@.len() - i,
    {
        assert(views(votes@)[i as int] == votes@[i as int]@);
        if same_text(votes[i].voter_mn_id.as_str(), voter) {
            return true;
        }
        i = i + 1;
    }
    false
}

proof fn lemma_with_vote(held: ConsensusV, vote: TimeVoteV)
    requires
        held.votes_consistent(),
    ensures
        held.with_vote(vote).votes_consistent(),
{
    let after = held.with_vote(vote);
    if held.takes_vote(vote) {
        let before = list_at(held.timeproof_votes, vote.txid);
        let longer = before.push(vote);
        assert(longer.drop_last() =~= before);
        assert(one_vote_each(before));
        assert forall|txid: Seq<u8>| #[trigger] after.timeproof_votes.contains_key(
            txid,
        ) implies one_vote_each(after.timeproof_votes[txid]) by {
            if txid == vote.txid {
                assert forall|i: int, j: int| 0 <= i < j < longer.len() implies (
                #[trigger] longer[i]).voter_mn_id != (#[trigger] longer[j]).voter_mn_id by {
                    assert(longer[i] == before[i]);
                    if j < before.len() {
                        assert(longer[j] == before[j]);
                    }
                }
            } else {
                assert(held.timeproof_votes.contains_key(txid));
            }
        }
        assert forall|txid: Seq<u8>|
            vote_weight(accepting(#[trigger] list_at(after.timeproof_votes, txid)))
                <= u64::MAX implies count_at(after.accumulated_weight, txid) == vote_weight(
            accepting(list_at(after.timeproof_votes, txid)),
        ) by {
            let was = list_at(held.timeproof_votes, txid);
            if txid == vote.txid {
                assert(list_at(after.timeproof_votes, txid) == longer);
                if vote.decision == VoteDecision::Accept {
                    assert(accepting(longer) == accepting(before).push(vote));
                    assert(accepting(before).push(vote).drop_last() =~= accepting(before));
                }
            } else {
                assert(list_at(after.timeproof_votes, txid) == was);
            }
        }
    }
}

proof fn lemma_votes_dropped(held: ConsensusV, after: ConsensusV, gone: Set<Seq<u8>>)
    requires
        held.votes_consistent(),
        after.timeproof_votes == held.timeproof_votes.remove_keys(gone),
        after.accumulated_weight == held.accumulated_weight.remove_keys(gone),
    ensures
        after.votes_consistent(),
{
    assert forall|txid: Seq<u8>| #[trigger] after.timeproof_votes.contains_key(
        txid,
    ) implies one_vote_each(after.timeproof_votes[txid]) by {
        assert(held.timeproof_votes.contains_key(txid));
    }
    assert forall|txid: Seq<u8>|
        vote_weight(accepting(#[trigger] list_at(after.timeproof_votes, txid)))
            <= u64::MAX implies count_at(after.accumulated_weight, txid) == vote_weight(
        accepting(list_at(after.timeproof_votes, txid)),
    ) by {
        if !gone.contains(txid) {
            assert(list_at(after.timeproof_votes, txid) == list_at(held.timeproof_votes, txid));
        }
    }
}

impl TimeVoteConsensus {
    /// The tables are sound.
    pub open spec fn tables_wf(&self) -> bool {
        &&& self.tx_state.wf()
        &&& self.finalized_txs.wf()
        &&& self.avs_snapshots.wf()
        &&& self.timeproof_votes.wf()
        &&& self.accumulated_weight.wf()
        &&& self.prepare_votes.wf()
        &&& self.precommit_votes.wf()
        &&& self.tx_status.wf()
        &&& self.stall_timers.wf()
        &&& self.liveness_alerts.wf()
        &&& self.fallback_votes.wf()
        &&& self.proposal_to_tx.wf()
        &&& self.fallback_rounds.wf()
        &&& self.byzantine_nodes.wf()
        &&& self.competing_timeproofs.wf()
        &&& self.timeproof_conflicts.wf()
        &&& self.last_block_voters.wf()
    }

    /// The tables are sound, a voter has one vote for a transaction, and weights
    /// are those of the accepting votes.
    pub open spec fn wf(&self) -> bool {
        self.tables_wf() && self@.votes_consistent()
    }

    /// A state in which nothing has happened. A round must ask someone, and
    /// finality must need at least one round.
    pub fn new(config: TimeVoteConfig, masternode_registry: MasternodeRegistry) -> (made: Result<
        Self,
        TimeVoteError,
    >)
        ensures
            match made {
                Ok(consensus) => {
                    &&& config.sample_size != 0
                    &&& config.finality_confidence != 0
                    &&& consensus.wf()
                    &&& consensus@ == ConsensusV::fresh(config, masternode_registry@)
                },
                Err(TimeVoteError::ConfigError(what)) => what@ == (if config.sample_size == 0 {
                    "sample_size must be > 0"@
                } else {
                    "finality_confidence must be > 0"@
                }) && (config.sample_size == 0 || config.finality_confidence == 0),
                Err(_) => false,
            },
    {
        if config.sample_size == 0 {
            return Err(TimeVoteError::ConfigError(String::from_str("sample_size must be > 0")));
        }
        if config.finality_confidence == 0 {
            return Err(
                TimeVoteError::ConfigError(String::from_str("finality_confidence must be > 0")),
            );
        }
        let made = TimeVoteConsensus {
            config,
            masternode_registry,
            tx_state: Table::new(),
            finalized_txs: Table::new(),
            avs_snapshots: Table::new(),
            timeproof_votes: Table::new(),
            accumulated_weight: Table::new(),
            prepare_votes: PrepareVoteAccumulator::new(),
            precommit_votes: PrecommitVoteAccumulator::new(),
            last_voted_height: 0,
            tx_status: Table::new(),
            stall_timers: Table::new(),
            liveness_alerts: Table::new(),
            fallback_votes: Table::new(),
            active_vote_requests: 0,
            proposal_to_tx: Table::new(),
            fallback_rounds: Table::new(),
            byzantine_nodes: Table::new(),
            competing_timeproofs: Table::new(),
            timeproof_conflicts: Table::new(),
            last_block_voters: Table::new(),
            rounds_executed: 0,
            txs_finalized: 0,
            fallback_activations: 0,
            stall_detections: 0,
            timelock_resolutions: 0,
            timeproof_conflicts_detected: 0,
            clock: Clock::new(),
        };
        assert(made@ =~= ConsensusV::fresh(config, masternode_registry@));
        Ok(made)
    }

    /// The active masternodes as validators.
    pub fn get_validators(&self) -> (validators: Arc<Vec<ValidatorInfo>>)
        ensures
            views((*validators)@) == self@.registry.validators(),
    {
        Arc::new(self.masternode_registry.validators())
    }

    /// Forgets transactions that became final before a number of seconds, seen
    /// from a clock reading. Says how many.
    pub fn cleanup_old_finalized_at(&mut self, retention_secs: u64, now_nanos: u64) -> (removed:
        usize)
        requires
            old(self).wf(),
        ensures
            final(self).wf(),
            final(self)@ == old(self)@.without_old(retention_secs, now_nanos),
            removed == old(self)@.finalized_before(retention_secs, now_nanos).len(),
    {
        let ghost before = self@;
        let ghost gone = before.finalized_before(retention_secs, now_nanos);
        let cutoff: i128 = (now_nanos as i128) - (retention_secs as i128) * 1_000_000_000;
        let to_remove = select(&self.finalized_txs, &Before { cutoff });
        proof {
            assert forall|k: Seq<u8>| gone.contains(k) <==> views(to_remove@).to_set().contains(k) by {
                assert(views(to_remove@).contains(k) <==> views(to_remove@).to_set().contains(k));
            }
            assert(gone =~= views(to_remove@).to_set());
            views(to_remove@).unique_seq_to_set();
        }
        drop_all(&mut self.finalized_txs, &to_remove);
        drop_all(&mut self.tx_state, &to_remove);
        drop_all(&mut self.timeproof_votes, &to_remove);
        drop_all(&mut self.accumulated_weight, &to_remove);
        proof {
            assert(self@ =~= before.without_old(retention_secs, now_nanos));
            lemma_votes_dropped(before, self@, gone);
        }
        to_remove.len()
    }

    /// Forgets transactions that became final longer ago than a number of
    /// seconds. Says how many.
    pub fn cleanup_old_finalized(&mut self, retention_secs: u64) -> (removed: usize)
        requires
            old(self).wf(),
        ensures
            final(self).wf(),
            exists|now: u64|
                final(self)@ == #[trigger] old(self)@.without_old(retention_secs, now) && removed
                    == old(self)@.finalized_before(retention_secs, now).len(),
    {
        let now: u64 = self.clock.nanos();
        self.cleanup_old_finalized_at(retention_secs, now)
    }

    /// How much there is.
    pub fn memory_stats(&self) -> (stats: ConsensusMemoryStats)
        requires
            self.wf(),
        ensures
            stats.tx_state_entries == self@.tx_state.dom().len(),
            stats.finalized_txs == self@.finalized_txs.dom().len(),
            stats.avs_snapshots == self@.avs_snapshots.dom().len(),
            stats.vfp_votes == self@.timeproof_votes.dom().len(),
    {
        proof {
            assert(self@.avs_snapshots.dom() =~= self.avs_snapshots@.dom());
            assert(self@.timeproof_votes.dom() =~= self.timeproof_votes@.dom());
        }
        ConsensusMemoryStats {
            tx_state_entries: self.tx_state.len(),
            finalized_txs: self.finalized_txs.len(),
            avs_snapshots: self.avs_snapshots.len(),
            vfp_votes: self.timeproof_votes.len(),
        }
    }

    /// The addresses of the active masternodes.
    pub fn get_validator_addresses(&self) -> (addresses: Vec<String>)
        ensures
            addresses@.len() == self@.registry.validators().len(),
            forall|i: int|
                0 <= i < addresses@.len() ==> (#[trigger] addresses@[i])@
                    == self@.registry.validators()[i].address,
    {
        let validators = self.masternode_registry.validators();
        let mut addresses: Vec<String> = Vec::new();
        let mut i: usize = 0;
        while i < validators.len()
            invariant
                i <= validators@.len(),
                addresses@.len() == i,
                forall|j: int|
                    0 <= j < i ==> (#[trigger] addresses@[j])@ == views(validators@)[j].address,
            decreases validators@.len() - i,
        {
            addresses.push(validators[i].address.clone());
            i = i + 1;
        }
        addresses
    }

    /// Starts to keep a preference for a transaction. Says no where there is one
    /// or the transaction is final.
    pub fn initiate_consensus(&mut self, txid: Hash256, initial_preference: Preference) -> (started:
        bool)
        requires
            old(self).wf(),
        ensures
            final(self).wf(),
            started == (!old(self)@.finalized_txs.contains_key(txid@)
                && !old(self)@.tx_state.contains_key(txid@)),
            final(self)@ == (if started {
                ConsensusV {
                    tx_state: old(self)@.tx_state.insert(
                        txid@,
                        VotingState { preference: initial_preference, last_finalized: None },
                    ),
                    ..old(self)@
                }
            } else {
                old(self)@
            }),
    {
        if self.finalized_txs.contains_key(&txid) {
            return false;
        }
        if self.tx_state.contains_key(&txid) {
            return false;
        }
        let ghost before = self@;
        self.tx_state.insert(txid, VotingState::new(initial_preference));
        assert(self@ =~= ConsensusV { tx_state: self@.tx_state, ..before });
        true
    }

    /// The preference for a transaction, and whether it is final.
    pub fn get_tx_state(&self, txid: &Hash256) -> (state: Option<(Preference, bool)>)
        requires
            self.wf(),
        ensures
            state == (match at(self@.tx_state, txid@) {
                Some(held) => Some((held.preference, self@.finalized_txs.contains_key(txid@))),
                None => None,
            }),
    {
        match self.tx_state.get(txid) {
            Some(held) => Some((held.preference, self.finalized_txs.contains_key(txid))),
            None => None,
        }
    }

    /// Whether a transaction is final.
    pub fn is_finalized(&self, txid: &Hash256) -> (done: bool)
        requires
            self.wf(),
        ensures
            done == self@.finalized_txs.contains_key(txid@),
    {
        self.finalized_txs.contains_key(txid)
    }

    /// The preference with which a transaction became final.
    pub fn get_finalized_preference(&self, txid: &Hash256) -> (preference: Option<Preference>)
        requires
            self.wf(),
        ensures
            preference == (match at(self@.finalized_txs, txid@) {
                Some(held) => Some(held.0),
                None => None,
            }),
    {
        match self.finalized_txs.get(txid) {
            Some(held) => Some(held.0),
            None => None,
        }
    }

    /// Takes down the active validators for a slot, and forgets the slot that
    /// has become too old.
    pub fn create_avs_snapshot(&mut self, slot_index: u64) -> (snapshot: AVSSnapshot)
        requires
            old(self).wf(),
        ensures
            final(self).wf(),
            snapshot@ == (AVSSnapshotV {
                slot_index,
                validators: old(self)@.registry.validators(),
            }),
            final(self)@ == old(self)@.with_snapshot(snapshot@),
    {
        let ghost before = self@;
        let validators = self.get_validators();
        let snapshot = AVSSnapshot::new_with_ref(slot_index, validators);
        self.avs_snapshots.insert(slot_index, snapshot.clone());
        if slot_index > SNAPSHOT_RETENTION {
            let _ = self.avs_snapshots.remove(&(slot_index - SNAPSHOT_RETENTION));
        }
        proof {
            let kept = if slot_index > SNAPSHOT_RETENTION {
                before.avs_snapshots.insert(slot_index, snapshot@).remove(
                    (slot_index - SNAPSHOT_RETENTION) as u64,
                )
            } else {
                before.avs_snapshots.insert(slot_index, snapshot@)
            };
            assert(self@.avs_snapshots =~= kept);
            assert(self@ =~= ConsensusV { avs_snapshots: kept, ..before });
        }
        snapshot
    }

    /// The active validators of a slot.
    pub fn get_avs_snapshot(&self, slot_index: u64) -> (snapshot: Option<AVSSnapshot>)
        requires
            self.wf(),
        ensures
            option_view(snapshot) == at(self@.avs_snapshots, slot_index),
    {
        match self.avs_snapshots.get(&slot_index) {
            Some(held) => Some(held.clone()),
            None => None,
        }
    }

    /// Counts a vote on a transaction: the voter must be an active masternode,
    /// the signature its own, and the vote its first. Only votes to accept add
    /// weight.
    pub fn accumulate_timevote(&mut self, vote: TimeVote) -> (answer: Result<u64, String>)
        requires
            old(self).wf(),
        ensures
            final(self).wf(),
            told(answer) == old(self)@.vote_answer(vote@),
            final(self)@ == old(self)@.with_vote(vote@),
    {
        let ghost before = self@;
        let ghost said = vote@;
        let txid = vote.txid;
        let active = self.masternode_registry.list_active();
        match find_node(&active, vote.voter_mn_id.as_str()) {
            None => {
                return Err(
                    join3("Voter ", vote.voter_mn_id.as_str(), " not in active validator set"),
                );
            },
            Some(info) => {
                match vote.verify(&info.masternode.public_key) {
                    Ok(_) => {},
                    Err(e) => {
                        return Err(join2("Vote signature verification failed: ", e.as_str()));
                    },
                }
            },
        }
        match self.timeproof_votes.get(&txid) {
            Some(votes) => {
                assert(before.timeproof_votes[txid@] == views(votes@));
                if voted(votes, vote.voter_mn_id.as_str()) {
                    let hex = hex_encode(&txid);
                    return Err(
                        join4(
                            "Duplicate vote from ",
                            vote.voter_mn_id.as_str(),
                            " for TX ",
                            hex.as_str(),
                        ),
                    );
                }
            },
            None => {},
        }
        assert(before.takes_vote(said));
        let decision = vote.decision;
        let weight: u64 = vote.voter_weight;
        let mut votes = match self.timeproof_votes.remove(&txid) {
            Some(votes) => votes,
            None => Vec::new(),
        };
        let ghost earlier = views(votes@);
        assert(earlier =~= list_at(before.timeproof_votes, txid@));
        votes.push(vote);
        assert(views(votes@) =~= earlier.push(said));
        self.timeproof_votes.insert(txid, votes);
        let held: u64 = match self.accumulated_weight.get(&txid) {
            Some(weight) => *weight,
            None => 0,
        };
        proof {
            lemma_with_vote(before, said);
        }
        match decision {
            VoteDecision::Accept => match held.checked_add(weight) {
                Some(sum) => {
                    self.accumulated_weight.insert(txid, sum);
                    assert(self@ =~= before.with_vote(said));
                    Ok(sum)
                },
                None => {
                    assert(self@ =~= before.with_vote(said));
                    Err(String::from_str("Accumulated vote weight overflow"))
                },
            },
            VoteDecision::Reject => {
                assert(self@ =~= before.with_vote(said));
                Ok(held)
            },
        }
    }

    /// Counts a vote on a transaction without telling the weight.
    pub fn accumulate_finality_vote(&mut self, vote: FinalityVote) -> (answer: Result<(), String>)
        requires
            old(self).wf(),
        ensures
            final(self).wf(),
            told(answer) == (match old(self)@.vote_answer(vote@) {
                Ok(_) => Ok(()),
                Err(text) => Err(text),
            }),
            final(self)@ == old(self)@.with_vote(vote@),
    {
        match self.accumulate_timevote(vote) {
            Ok(_) => Ok(()),
            Err(text) => Err(text),
        }
    }

    /// The votes on a transaction, in the order in which they came.
    pub fn get_accumulated_votes(&self, txid: &Hash256) -> (votes: Vec<TimeVote>)
        requires
            self.wf(),
        ensures
            views(votes@) == list_at(self@.timeproof_votes, txid@),
    {
        match self.timeproof_votes.get(txid) {
            Some(held) => duplicate_list(held),
            None => {
                let none: Vec<TimeVote> = Vec::new();
                assert(views(none@) =~= seq![]);
                none
            },
        }
    }

    /// The weight of the accepting votes on a transaction.
    pub fn get_accumulated_weight(&self, txid: &Hash256) -> (weight: u64)
        requires
            self.wf(),
        ensures
            weight == count_at(self@.accumulated_weight, txid@),
    {
        match self.accumulated_weight.get(txid) {
            Some(weight) => *weight,
            None => 0,
        }
    }

    /// Whether the accepting votes of a slot's validators reach the threshold.
    /// Each voter has one vote, so none counts twice.
    pub fn check_timeproof_finality(&self, txid: &Hash256, snapshot: &AVSSnapshot) -> (reached:
        Result<bool, String>)
        requires
            self.wf(),
            threshold_fits(list_at(self@.timeproof_votes, txid@), snapshot@),
        ensures
            told(reached) == finality_answer(list_at(self@.timeproof_votes, txid@), snapshot@),
    {
        let votes = self.get_accumulated_votes(txid);
        let ghost all = views(votes@);
        if votes.len() == 0 {
            return Ok(false);
        }
        let mut total: u64 = 0;
        let mut i: usize = 0;
        while i < votes.len()
            invariant
                i <= votes@.len(),
                all == views(votes@),
                all.len() > 0,
                all == list_at(self@.timeproof_votes, txid@),
                threshold_fits(all, snapshot@),
                total == snapshot_weight(all.take(i as int), snapshot@.validators),
            decreases votes@.len() - i,
        {
            let vote = &votes[i];
            proof {
                assert(all.take(i + 1).drop_last() =~= all.take(i as int));
                assert(all.take(i + 1).last() == votes@[i as int]@);
            }
            if matches!(vote.decision, VoteDecision::Accept) {
                match snapshot.get_validator_weight(vote.voter_mn_id.as_str()) {
                    Some(weight) => match total.checked_add(weight) {
                        Some(sum) => {
                            total = sum;
                        },
                        None => {
                            proof {
                                lemma_snapshot_prefix(all, snapshot@.validators, i + 1);
                            }
                            return Err(String::from_str("TimeProof finality weight overflow"));
                        },
                    },
                    None => {},
                }
            }
            i = i + 1;
        }
        assert(all.take(i as int) =~= all);
        Ok(total >= snapshot.voting_threshold())
    }

    /// Whether the accepting votes of a slot's validators reach the threshold.
    pub fn check_vfp_finality(&self, txid: &Hash256, snapshot: &AVSSnapshot) -> (reached: Result<
        bool,
        String,
    >)
        requires
            self.wf(),
            threshold_fits(list_at(self@.timeproof_votes, txid@), snapshot@),
        ensures
            told(reached) == finality_answer(list_at(self@.timeproof_votes, txid@), snapshot@),
    {
        self.check_timeproof_finality(txid, snapshot)
    }

    /// Forgets the votes on a transaction.
    pub fn clear_timeproof_votes(&mut self, txid: &Hash256)
        requires
            old(self).wf(),
        ensures
            final(self).wf(),
            final(self)@ == (ConsensusV {
                timeproof_votes: old(self)@.timeproof_votes.remove(txid@),
                accumulated_weight: old(self)@.accumulated_weight.remove(txid@),
                ..old(self)@
            }),
    {
        let ghost before = self@;
        let _ = self.timeproof_votes.remove(txid);
        let _ = self.accumulated_weight.remove(txid);
        proof {
            let gone = Set::<Seq<u8>>::empty().insert(txid@);
            assert(self@.timeproof_votes =~= before.timeproof_votes.remove(txid@));
            assert(before.timeproof_votes.remove_keys(gone) =~= before.timeproof_votes.remove(txid@));
            assert(before.accumulated_weight.remove_keys(gone) =~= before.accumulated_weight.remove(
                txid@,
            ));
            lemma_votes_dropped(before, self@, gone);
        }
    }

    /// Forgets the votes on a transaction.
    pub fn clear_vfp_votes(&mut self, txid: &Hash256)
        requires
            old(self).wf(),
        ensures
            final(self).wf(),
            final(self)@ == (ConsensusV {
                timeproof_votes: old(self)@.timeproof_votes.remove(txid@),
                accumulated_weight: old(self)@.accumulated_weight.remove(txid@),
                ..old(self)@
            }),
    {
        self.clear_timeproof_votes(txid);
    }
}

/// Whether the weights of a snapshot can be added up, where the votes on a
/// transaction are held against its threshold.
pub open spec fn threshold_fits(votes: Seq<TimeVoteV>, snapshot: AVSSnapshotV) -> bool {
    votes.len() > 0 && snapshot_weight(votes, snapshot.validators) <= u64::MAX ==> snapshot.total()
        <= u64::MAX
}

/// What the votes on a transaction say of its finality under a snapshot.
pub open spec fn finality_answer(votes: Seq<TimeVoteV>, snapshot: AVSSnapshotV) -> Result<
    bool,
    Seq<char>,
> {
    if votes.len() == 0 {
        Ok(false)
    } else if snapshot_weight(votes, snapshot.validators) > u64::MAX {
        Err("TimeProof finality weight overflow"@)
    } else {
        Ok(
            snapshot_weight(votes, snapshot.validators) >= crate::fees::ceil_div(
                (snapshot.total() * 67) as int,
                100,
            ),
        )
    }
}

proof fn lemma_snapshot_prefix(
    votes: Seq<TimeVoteV>,
    validators: Seq<crate::types::ValidatorInfoV>,
    i: int,
)
    requires
        0 <= i <= votes.len(),
    ensures
        snapshot_weight(votes.take(i), validators) <= snapshot_weight(votes, validators),
    decreases votes.len() - i,
{
    if i == votes.len() {
        assert(votes.take(i) =~= votes);
    } else {
        assert(votes.take(i + 1).drop_last() =~= votes.take(i));
        lemma_snapshot_prefix(votes, validators, i + 1);
    }
}

/// A voter's second vote on a transaction is refused and changes nothing.
pub proof fn second_vote_is_refused(held: ConsensusV, vote: TimeVoteV, again: TimeVoteV)
    requires
        held.takes_vote(vote),
        again.txid == vote.txid,
        again.voter_mn_id == vote.voter_mn_id,
    ensures
        held.with_vote(vote).vote_answer(again) is Err,
        held.with_vote(vote).with_vote(again) == held.with_vote(vote),
{
    let after = held.with_vote(vote);
    let votes = list_at(after.timeproof_votes, vote.txid);
    assert(votes[votes.len() - 1].voter_mn_id == again.voter_mn_id);
    assert(has_vote_of(votes, again.voter_mn_id));
}

/// A vote to reject adds no weight, whatever weight the voter has.
pub proof fn reject_adds_no_weight(held: ConsensusV, vote: TimeVoteV)
    requires
        vote.decision == VoteDecision::Reject,
    ensures
        held.with_vote(vote).accumulated_weight == held.accumulated_weight,
{
}

/// The weight of a transaction is the weight of the accepting votes on it, as
/// long as that fits.
pub proof fn weight_is_that_of_accepting_votes(held: TimeVoteConsensus, txid: Seq<u8>)
    requires
        held.wf(),
        vote_weight(accepting(list_at(held@.timeproof_votes, txid))) <= u64::MAX,
    ensures
        count_at(held@.accumulated_weight, txid) == vote_weight(
            accepting(list_at(held@.timeproof_votes, txid)),
        ),
{
}

/// The weight of some validators, and of the accepting votes that a snapshot knows the
/// voters of, adds up one by one. A vote to reject and one of a stranger add nothing.
pub proof fn weights_add_up(
    validators: Seq<crate::types::ValidatorInfoV>,
    validator: crate::types::ValidatorInfoV,
    votes: Seq<TimeVoteV>,
    vote: TimeVoteV,
)
    ensures
        validator_weight(seq![]) == 0,
        validator_weight(validators.push(validator)) == validator_weight(validators)
            + validator.weight,
        vote_weight(seq![]) == 0,
        vote_weight(votes.push(vote)) == vote_weight(votes) + vote.voter_weight,
        accepting(seq![]).len() == 0,
        accepting(votes.push(vote)) == (if vote.decision == VoteDecision::Accept {
            accepting(votes).push(vote)
        } else {
            accepting(votes)
        }),
        snapshot_weight(seq![], validators) == 0,
        snapshot_weight(votes.push(vote), validators) == snapshot_weight(votes, validators) + (
        match weight_at(validators, vote.voter_mn_id) {
            Some(weight) => if vote.decision == VoteDecision::Accept {
                weight as int
            } else {
                0
            },
            None => 0,
        }),
{
    assert(validators.push(validator).drop_last() =~= validators);
    assert(votes.push(vote).drop_last() =~= votes);
}

/// A masternode, and the weight of a validator, is found by its address: the first that
/// has it, and none where nobody has.
pub proof fn nodes_are_found_by_address(
    nodes: Seq<crate::types::MasternodeInfoV>,
    validators: Seq<crate::types::ValidatorInfoV>,
    address: Seq<char>,
)
    ensures
        node_at(nodes, address) is None <==> forall|i: int|
            0 <= i < nodes.len() ==> (#[trigger] nodes[i]).masternode.address != address,
        node_at(nodes, address) matches Some(info) ==> info.masternode.address == address
            && nodes.contains(info),
        weight_at(validators, address) is None <==> forall|i: int|
            0 <= i < validators.len() ==> (#[trigger] validators[i]).address != address,
        weight_at(validators, address) matches Some(weight) ==> exists|i: int|
            0 <= i < validators.len() && (#[trigger] validators[i]).address == address
                && validators[i].weight == weight,
    decreases nodes.len() + validators.len(),
{
    if nodes.len() > 0 {
        let rest = nodes.drop_first();
        nodes_are_found_by_address(rest, validators, address);
        assert(nodes[0] == nodes[0]);
        assert forall|i: int| 0 <= i < rest.len() implies #[trigger] rest[i] == nodes[i + 1] by {}
        if nodes[0].masternode.address != address {
            if node_at(nodes, address) is None {
                assert forall|i: int| 0 <= i < nodes.len() implies (
                #[trigger] nodes[i]).masternode.address != address by {
                    if i > 0 {
                        assert(rest[i - 1] == nodes[i]);
                    }
                }
            } else {
                let info = node_at(nodes, address)->0;
                let i = choose|i: int| 0 <= i < rest.len() && rest[i] == info;
                assert(nodes[i + 1] == info);
            }
        }
    } else if validators.len() > 0 {
        let rest = validators.drop_first();
        nodes_are_found_by_address(nodes, rest, address);
        assert(validators[0] == validators[0]);
        if validators[0].address != address {
            if weight_at(validators, address) is None {
                assert forall|i: int| 0 <= i < validators.len() implies (
                #[trigger] validators[i]).address != address by {
                    if i > 0 {
                        assert(rest[i - 1] == validators[i]);
                    }
                }
            } else {
                let weight = weight_at(validators, address)->0;
                let i = choose|i: int|
                    0 <= i < rest.len() && (#[trigger] rest[i]).address == address
                        && rest[i].weight == weight;
                assert(validators[i + 1] == rest[i]);
            }
        }
        if weight_at(validators, address) is Some && weight_at(rest, address) is None {
            assert(validators[0].address == address);
        }
        assert forall|i: int| 0 <= i < rest.len() implies #[trigger] rest[i] == validators[i
            + 1] by {}
    }
}

/// A vote counts if it is the first of an active masternode on its transaction and
/// bears that masternode's signature: it is kept behind the earlier ones, and if it
/// accepts, its weight is added. Any other vote is refused and changes nothing. Votes on
/// other transactions are never touched.
pub proof fn first_signed_votes_count(
    held: ConsensusV,
    vote: TimeVoteV,
    info: crate::types::MasternodeInfoV,
    other: Seq<u8>,
)
    requires
        node_at(held.registry.active(), vote.voter_mn_id) == Some(info),
        count_at(held.accumulated_weight, vote.txid) + vote.voter_weight <= u64::MAX,
        other != vote.txid,
    ensures
        ({
            let earlier = list_at(held.timeproof_votes, vote.txid);
            let signed = vote.signature.len() == 64 && crate::crypto::ed25519_accepts(
                info.masternode.public_key,
                vote.message(),
                vote.signature,
            );
            let fresh = forall|i: int|
                0 <= i < earlier.len() ==> (#[trigger] earlier[i]).voter_mn_id
                    != vote.voter_mn_id;
            let after = held.with_vote(vote);
            let before_weight = count_at(held.accumulated_weight, vote.txid);
            let weight = count_at(after.accumulated_weight, vote.txid);
            &&& signed && fresh <==> held.vote_answer(vote) is Ok
            &&& !(signed && fresh) ==> after == held
            &&& signed && fresh ==> {
                &&& held.vote_answer(vote) == Ok::<u64, Seq<char>>(weight)
                &&& list_at(after.timeproof_votes, vote.txid) == earlier.push(vote)
                &&& vote.decision == VoteDecision::Accept ==> weight == before_weight
                    + vote.voter_weight
                &&& vote.decision == VoteDecision::Reject ==> weight == before_weight
            }
            &&& at(after.timeproof_votes, other) == at(held.timeproof_votes, other)
            &&& at(after.accumulated_weight, other) == at(held.accumulated_weight, other)
        }),
{
}

/// Nobody who is not an active masternode has a vote.
pub proof fn strangers_have_no_vote(held: ConsensusV, vote: TimeVoteV)
    requires
        forall|i: int|
            0 <= i < held.registry.active().len() ==> (
            #[trigger] held.registry.active()[i]).masternode.address != vote.voter_mn_id,
    ensures
        held.vote_answer(vote) is Err,
        held.with_vote(vote) == held,
{
    nodes_are_found_by_address(held.registry.active(), seq![], vote.voter_mn_id);
}

/// A transaction is final under a snapshot exactly when the validators of the snapshot
/// that accept it have 67 hundredths of all the weight in it.
pub proof fn snapshots_ask_for_two_thirds(votes: Seq<TimeVoteV>, snapshot: AVSSnapshotV)
    requires
        snapshot_weight(votes, snapshot.validators) <= u64::MAX,
    ensures
        votes.len() > 0 ==> finality_answer(votes, snapshot) == Ok::<bool, Seq<char>>(
            100 * snapshot_weight(votes, snapshot.validators) >= 67 * validator_weight(
                snapshot.validators,
            ),
        ),
        votes.len() == 0 ==> finality_answer(votes, snapshot) == Ok::<bool, Seq<char>>(false),
{
    crate::fees::quotients_are_rounded_up((snapshot.total() * 67) as int, 100);
}

/// The validators of a slot are kept for a hundred slots: taking those of a slot down
/// drops those of the slot a hundred before it, and touches no other.
pub proof fn snapshots_are_kept_for_a_hundred_slots(
    held: ConsensusV,
    snapshot: AVSSnapshotV,
    other: u64,
)
    ensures
        ({
            let after = held.with_snapshot(snapshot).avs_snapshots;
            let slot = snapshot.slot_index;
            &&& at(after, slot) == Some(snapshot)
            &&& slot > 100 && other == slot - 100 ==> !after.contains_key(other)
            &&& other != slot && (slot <= 100 || other != slot - 100) ==> at(after, other) == at(
                held.avs_snapshots,
                other,
            )
        }),
{
}

/// A transaction that is recorded as final is final, accepted and with its weight.
pub proof fn recorded_transactions_are_final(
    held: ConsensusV,
    txid: Seq<u8>,
    weight: u64,
    now_nanos: u64,
    now_ms: i64,
)
    ensures
        ({
            let after = held.recorded(txid, weight, now_nanos, now_ms);
            &&& after.finalized_txs.contains_key(txid)
            &&& after.finalized_txs[txid] == (Preference::Accept, now_nanos)
            &&& after.tx_status[txid] == (crate::types::TransactionStatusV::Finalized {
                finalized_at: now_ms,
                vfp_weight: weight,
            })
            &&& held.txs_finalized < usize::MAX ==> after.txs_finalized == held.txs_finalized + 1
        }),
{
}

/// Final transactions are forgotten when they are older than the time for which they
/// are kept, with their votes, and not before.
pub proof fn old_transactions_are_forgotten(
    held: ConsensusV,
    txid: Seq<u8>,
    retention_secs: u64,
    now_nanos: u64,
)
    ensures
        ({
            let after = held.without_old(retention_secs, now_nanos);
            let old = held.finalized_txs.contains_key(txid) && now_nanos
                - held.finalized_txs[txid].1 > retention_secs * 1_000_000_000;
            &&& old ==> !after.finalized_txs.contains_key(txid) && !after.tx_state.contains_key(
                txid,
            ) && !after.timeproof_votes.contains_key(txid)
                && !after.accumulated_weight.contains_key(txid)
            &&& !old ==> at(after.finalized_txs, txid) == at(held.finalized_txs, txid) && at(
                after.tx_state,
                txid,
            ) == at(held.tx_state, txid) && at(after.timeproof_votes, txid) == at(
                held.timeproof_votes,
                txid,
            ) && at(after.accumulated_weight, txid) == at(held.accumulated_weight, txid)
        }),
{
}

} // verus!
