//! Proofs that a transaction is final, and what to do with two of them.

use crate::clock::{unix_seconds, utc_millis};
use crate::crypto::{hex_encode, hex_text};
use crate::fees::ceil_div;
use crate::sums::views;
use crate::text::{decimal, decimal_text, join2, same_text, told};
use crate::timevote::{
    accepting, at, bump, bumped, find_node, list_at, node_at, validator_weight, vote_weight,
    weigh_validators, ConsensusV, Preference, TimeVoteConsensus,
};
use crate::types::{
    duplicate_list, option_view, same_hash, Duplicate, Hash256, MasternodeInfo, MasternodeInfoV,
    TimeProof, TimeProofConflictInfo, TimeProofConflictInfoV, TimeProofV, TimeVote, TimeVoteV,
    TransactionStatus, VoteDecision,
};
use vstd::prelude::*;

verus! {

/// The place of the largest of some weights, the last one of several.
pub open spec fn last_best(weights: Seq<u64>) -> int
    decreases weights.len(),
{
    if weights.len() <= 1 {
        0
    } else {
        let best = last_best(weights.drop_last());
        if weights.last() >= weights[best] {
            weights.len() - 1
        } else {
            best
        }
    }
}

/// The place of the largest of some weights, the first one of several.
pub open spec fn first_best(weights: Seq<u64>) -> int
    decreases weights.len(),
{
    if weights.len() <= 1 {
        0
    } else {
        let best = first_best(weights.drop_last());
        if weights.last() > weights[best] {
            weights.len() - 1
        } else {
            best
        }
    }
}

/// The winner has the largest weight; of several with that weight the last wins
/// when a proof comes in, the first when a fork is resolved.
pub proof fn best_is_largest(weights: Seq<u64>)
    requires
        weights.len() > 0,
    ensures
        0 <= last_best(weights) < weights.len(),
        0 <= first_best(weights) < weights.len(),
        forall|i: int|
            0 <= i < weights.len() ==> (#[trigger] weights[i]) <= weights[last_best(weights)],
        forall|i: int|
            0 <= i < weights.len() ==> (#[trigger] weights[i]) <= weights[first_best(weights)],
        forall|i: int|
            last_best(weights) < i < weights.len() ==> (#[trigger] weights[i])
                < weights[last_best(weights)],
        forall|i: int|
            0 <= i < first_best(weights) ==> (#[trigger] weights[i])
                < weights[first_best(weights)],
    decreases weights.len(),
{
    if weights.len() > 1 {
        let front = weights.drop_last();
        best_is_largest(front);
        assert forall|i: int| 0 <= i < weights.len() implies (#[trigger] weights[i])
            <= weights[last_best(weights)] && weights[i] <= weights[first_best(weights)] by {
            if i < front.len() {
                assert(front[i] == weights[i]);
            }
        }
        assert forall|i: int| last_best(weights) < i < weights.len() implies (#[trigger] weights[i])
            < weights[last_best(weights)] by {
            if i < front.len() {
                assert(front[i] == weights[i]);
            }
        }
        assert forall|i: int| 0 <= i < first_best(weights) implies (#[trigger] weights[i])
            < weights[first_best(weights)] by {
            assert(front[i] == weights[i]);
        }
    }
}

/// The weight of each of some proofs.
pub open spec fn proof_weights(proofs: Seq<TimeProofV>) -> Seq<u64> {
    proofs.map_values(|p: TimeProofV| vote_weight(p.votes) as u64)
}

/// Whether the weight of some proof is too large to be told.
pub open spec fn too_heavy(proofs: Seq<TimeProofV>) -> bool {
    exists|i: int| 0 <= i < proofs.len() && vote_weight((#[trigger] proofs[i]).votes) > u64::MAX
}

proof fn lemma_vote_prefix(votes: Seq<TimeVoteV>, i: int)
    requires
        0 <= i <= votes.len(),
    ensures
        vote_weight(votes.take(i)) <= vote_weight(votes),
        i < votes.len() ==> vote_weight(votes.take(i + 1)) == vote_weight(votes.take(i))
            + votes[i].voter_weight,
    decreases votes.len() - i,
{
    if i == votes.len() {
        assert(votes.take(i) =~= votes);
    } else {
        assert(votes.take(i + 1).drop_last() =~= votes.take(i));
        lemma_vote_prefix(votes, i + 1);
    }
}

/// What is wrong with a vote in a proof, if anything is.
pub open spec fn vote_fault(
    shown: TimeProofV,
    nodes: Seq<MasternodeInfoV>,
    i: int,
) -> Option<Seq<char>> {
    let vote = shown.votes[i];
    if vote.txid != shown.txid || vote.slot_index != shown.slot_index || vote.tx_hash_commitment
        != shown.votes[0].tx_hash_commitment {
        Some("TimeProof holds a vote on something else"@)
    } else if vote.decision != VoteDecision::Accept {
        Some("TimeProof holds a vote to reject"@)
    } else if exists|j: int|
        0 <= j < i && (#[trigger] shown.votes[j]).voter_mn_id == vote.voter_mn_id {
        Some("Duplicate voter in TimeProof"@)
    } else {
        match node_at(nodes, vote.voter_mn_id) {
            None => Some("Voter "@ + vote.voter_mn_id + " not in active validator set"@),
            Some(info) => if vote.signed_by(info.masternode.public_key) {
                None
            } else {
                Some("Invalid vote signature"@)
            },
        }
    }
}

/// The weight of the first votes of a proof, or the first fault among them.
pub open spec fn checked_votes(
    shown: TimeProofV,
    nodes: Seq<MasternodeInfoV>,
    n: int,
) -> Result<nat, Seq<char>>
    decreases n,
{
    if n <= 0 {
        Ok(0)
    } else {
        match checked_votes(shown, nodes, n - 1) {
            Err(text) => Err(text),
            Ok(weight) => match vote_fault(shown, nodes, n - 1) {
                Some(text) => Err(text),
                None => if weight + shown.votes[n - 1].voter_weight > u64::MAX {
                    Err("Weight overflow"@)
                } else {
                    Ok(weight + shown.votes[n - 1].voter_weight as nat)
                },
            },
        }
    }
}

/// What checking a proof gives: its weight, or why it proves nothing.
pub open spec fn proof_answer(
    shown: TimeProofV,
    total_avs_weight: u64,
    nodes: Seq<MasternodeInfoV>,
) -> Result<u64, Seq<char>> {
    match checked_votes(shown, nodes, shown.votes.len() as int) {
        Err(text) => Err(text),
        Ok(weight) => if weight < ceil_div(total_avs_weight * 67, 100) || shown.votes.len() == 0 {
            Err("Insufficient weight in TimeProof: "@ + decimal(weight))
        } else {
            Ok(weight as u64)
        },
    }
}

impl TimeProof {
    /// Checks a proof against the weight of all validators and the list of
    /// masternodes: every vote must be a signed vote to accept, of a known
    /// voter, one for each voter, all on the same thing, and the weight must
    /// reach 67%.
    pub fn verify(&self, total_avs_weight: u64, nodes: &Vec<MasternodeInfo>) -> (answer: Result<
        u64,
        String,
    >)
        ensures
            told(answer) == proof_answer(self@, total_avs_weight, views(nodes@)),
    {
        let ghost shown = self@;
        let ghost known = views(nodes@);
        let mut weight: u64 = 0;
        let mut i: usize = 0;
        while i < self.votes.len()
            invariant
                i <= self.votes@.len(),
                shown == self@,
                known == views(nodes@),
                checked_votes(shown, known, i as int) == Ok::<nat, Seq<char>>(weight as nat),
            decreases self.votes@.len() - i,
        {
            let vote = &self.votes[i];
            let first = &self.votes[0];
            proof {
                assert(shown.votes[i as int] == vote@);
                assert(shown.votes[0] == first@);
            }
            let fault = self.fault_of(nodes, i);
            match fault {
                Some(text) => {
                    proof {
                        lemma_fault_stays(shown, known, i as int + 1, shown.votes.len() as int);
                    }
                    return Err(text);
                },
                None => {},
            }
            match weight.checked_add(vote.voter_weight) {
                Some(sum) => {
                    weight = sum;
                },
                None => {
                    proof {
                        lemma_fault_stays(shown, known, i as int + 1, shown.votes.len() as int);
                    }
                    return Err(String::from_str("Weight overflow"));
                },
            }
            i = i + 1;
        }
        if weight < crate::thresholds::two_thirds_majority(total_avs_weight) || self.votes.len()
            == 0 {
            let told_weight = decimal_text(weight);
            return Err(join2("Insufficient weight in TimeProof: ", told_weight.as_str()));
        }
        Ok(weight)
    }

    fn fault_of(&self, nodes: &Vec<MasternodeInfo>, i: usize) -> (fault: Option<String>)
        requires
            i < self.votes@.len(),
        ensures
            option_view(fault) == vote_fault(self@, views(nodes@), i as int),
    {
        let ghost shown = self@;
        let vote = &self.votes[i];
        let first = &self.votes[0];
        proof {
            assert(shown.votes[i as int] == vote@);
            assert(shown.votes[0] == first@);
        }
        if !same_hash(&vote.txid, &self.txid) || vote.slot_index != self.slot_index || !same_hash(
            &vote.tx_hash_commitment,
            &first.tx_hash_commitment,
        ) {
            return Some(String::from_str("TimeProof holds a vote on something else"));
        }
        if !matches!(vote.decision, VoteDecision::Accept) {
            return Some(String::from_str("TimeProof holds a vote to reject"));
        }
        let mut j: usize = 0;
        while j < i
            invariant
                j <= i,
                i < self.votes@.len(),
                shown == self@,
                vote@ == shown.votes[i as int],
                vote@.txid == shown.txid,
                vote@.slot_index == shown.slot_index,
                vote@.tx_hash_commitment == shown.votes[0].tx_hash_commitment,
                vote@.decision == VoteDecision::Accept,
                forall|k: int|
                    0 <= k < j ==> (#[trigger] shown.votes[k]).voter_mn_id != vote@.voter_mn_id,
            decreases i - j,
        {
            assert(shown.votes[j as int] == self.votes@[j as int]@);
            if same_text(self.votes[j].voter_mn_id.as_str(), vote.voter_mn_id.as_str()) {
                return Some(String::from_str("Duplicate voter in TimeProof"));
            }
            j = j + 1;
        }
        match find_node(nodes, vote.voter_mn_id.as_str()) {
            None => Some(
                crate::text::join3(
                    "Voter ",
                    vote.voter_mn_id.as_str(),
                    " not in active validator set",
                ),
            ),
            Some(info) => match vote.verify(&info.masternode.public_key) {
                Ok(_) => None,
                Err(text) => Some(text),
            },
        }
    }
}

proof fn lemma_fault_stays(shown: TimeProofV, nodes: Seq<MasternodeInfoV>, i: int, n: int)
    requires
        checked_votes(shown, nodes, i) is Err,
        0 <= i <= n,
    ensures
        checked_votes(shown, nodes, n) == checked_votes(shown, nodes, i),
    decreases n,
{
    if i < n {
        lemma_fault_stays(shown, nodes, i, n - 1);
    }
}

impl ConsensusV {
    /// The record of a conflict.
    pub open spec fn conflict(
        self,
        new_proof: TimeProofV,
        new_proof_weight: u64,
        now_secs: u64,
    ) -> TimeProofConflictInfoV {
        let weights = proof_weights(list_at(self.competing_timeproofs, new_proof.txid)).push(
            new_proof_weight,
        );
        TimeProofConflictInfoV {
            txid: new_proof.txid,
            slot_index: new_proof.slot_index,
            proof_count: weights.len() as usize,
            proof_weights: weights,
            max_weight: weights[last_best(weights)],
            winning_proof_index: last_best(weights) as usize,
            detected_at: now_secs,
            resolved: false,
        }
    }

    /// After a proof came in: with a second one for its transaction a conflict
    /// is on record.
    pub open spec fn with_proof(
        self,
        new_proof: TimeProofV,
        new_proof_weight: u64,
        now_secs: u64,
    ) -> ConsensusV {
        let held = list_at(self.competing_timeproofs, new_proof.txid);
        if too_heavy(held) {
            self
        } else {
            ConsensusV {
                competing_timeproofs: self.competing_timeproofs.insert(
                    new_proof.txid,
                    held.push(new_proof),
                ),
                timeproof_conflicts: if held.len() >= 1 {
                    self.timeproof_conflicts.insert(
                        (new_proof.txid, new_proof.slot_index),
                        self.conflict(new_proof, new_proof_weight, now_secs),
                    )
                } else {
                    self.timeproof_conflicts
                },
                timeproof_conflicts_detected: if held.len() >= 1 {
                    bumped(self.timeproof_conflicts_detected)
                } else {
                    self.timeproof_conflicts_detected
                },
                ..self
            }
        }
    }

    /// The proof that wins a fork.
    pub open spec fn fork_winner(self, txid: Seq<u8>) -> TimeProofV {
        let proofs = list_at(self.competing_timeproofs, txid);
        proofs[first_best(proof_weights(proofs))]
    }

    /// After a fork was resolved.
    pub open spec fn with_fork_resolved(self, txid: Seq<u8>) -> ConsensusV {
        let proofs = list_at(self.competing_timeproofs, txid);
        let key = (txid, self.fork_winner(txid).slot_index);
        if proofs.len() == 0 || too_heavy(proofs) || !self.timeproof_conflicts.contains_key(key) {
            self
        } else {
            ConsensusV {
                timeproof_conflicts: self.timeproof_conflicts.insert(
                    key,
                    TimeProofConflictInfoV { resolved: true, ..self.timeproof_conflicts[key] },
                ),
                ..self
            }
        }
    }
}

fn weigh_votes(votes: &Vec<TimeVote>) -> (weight: Option<u64>)
    ensures
        match weight {
            Some(w) => w == vote_weight(views(votes@)),
            None => vote_weight(views(votes@)) > u64::MAX,
        },
{
    let ghost all = views(votes@);
    let mut total: u64 = 0;
    let mut i: usize = 0;
    while i < votes.len()
        invariant
            i <= votes@.len(),
            all == views(votes@),
            total == vote_weight(all.take(i as int)),
        decreases votes@.len() - i,
    {
        proof {
            lemma_vote_prefix(all, i as int);
            lemma_vote_prefix(all, i + 1);
            assert(all[i as int] == votes@[i as int]@);
        }
        match total.checked_add(votes[i].voter_weight) {
            Some(sum) => {
                total = sum;
            },
            None => {
                return None;
            },
        }
        i = i + 1;
    }
    assert(all.take(i as int) =~= all);
    Some(total)
}

fn weigh_proofs(proofs: &Vec<TimeProof>) -> (weights: Option<Vec<u64>>)
    ensures
        match weights {
            Some(w) => !too_heavy(views(proofs@)) && w@ == proof_weights(views(proofs@)),
            None => too_heavy(views(proofs@)),
        },
{
    let ghost all = views(proofs@);
    let mut weights: Vec<u64> = Vec::new();
    let mut i: usize = 0;
    while i < proofs.len()
        invariant
            i <= proofs@.len(),
            all == views(proofs@),
            weights@.len() == i,
            forall|j: int|
                0 <= j < i ==> (#[trigger] weights@[j]) == vote_weight(all[j].votes) && vote_weight(
                    all[j].votes,
                ) <= u64::MAX,
        decreases proofs@.len() - i,
    {
        assert(all[i as int] == proofs@[i as int]@);
        match weigh_votes(&proofs[i].votes) {
            Some(weight) => {
                weights.push(weight);
            },
            None => {
                assert(vote_weight(all[i as int].votes) > u64::MAX);
                return None;
            },
        }
        i = i + 1;
    }
    proof {
        assert forall|j: int| 0 <= j < all.len() implies vote_weight((#[trigger] all[j]).votes)
            <= u64::MAX by {
            assert(weights@[j] == vote_weight(all[j].votes));
        }
        assert forall|j: int| 0 <= j < all.len() implies weights@[j] == proof_weights(all)[j] by {
            assert(weights@[j] == vote_weight(all[j].votes));
        }
        assert(weights@ =~= proof_weights(all));
    }
    Some(weights)
}

fn find_last_best(weights: &Vec<u64>) -> (best: usize)
    requires
        weights@.len() > 0,
    ensures
        best == last_best(weights@),
        best < weights@.len(),
{
    let mut best: usize = 0;
    let mut i: usize = 1;
    while i < weights.len()
        invariant
            1 <= i <= weights@.len(),
            best < i,
            best == last_best(weights@.take(i as int)),
        decreases weights@.len() - i,
    {
        assert(weights@.take(i + 1).drop_last() =~= weights@.take(i as int));
        if weights[i] >= weights[best] {
            best = i;
        }
        i = i + 1;
    }
    assert(weights@.take(i as int) =~= weights@);
    best
}

fn find_first_best(weights: &Vec<u64>) -> (best: usize)
    requires
        weights@.len() > 0,
    ensures
        best == first_best(weights@),
        best < weights@.len(),
{
    let mut best: usize = 0;
    let mut i: usize = 1;
    while i < weights.len()
        invariant
            1 <= i <= weights@.len(),
            best < i,
            best == first_best(weights@.take(i as int)),
        decreases weights@.len() - i,
    {
        assert(weights@.take(i + 1).drop_last() =~= weights@.take(i as int));
        if weights[i] > weights[best] {
            best = i;
        }
        i = i + 1;
    }
    assert(weights@.take(i as int) =~= weights@);
    best
}

/// Whether the accepting votes on a transaction make a proof, and which.
pub open spec fn assembly(votes: Seq<TimeVoteV>, txid: Seq<u8>) -> Result<TimeProofV, Seq<char>> {
    let accepted = accepting(votes);
    if votes.len() == 0 {
        Err("No votes found for TX "@ + hex_text(txid))
    } else if accepted.len() == 0 {
        Err("No Accept votes found for TX "@ + hex_text(txid))
    } else if exists|i: int|
        0 <= i < accepted.len() && (#[trigger] accepted[i]).slot_index != accepted[0].slot_index {
        Err("Votes have mismatched slot_index for TX "@ + hex_text(txid))
    } else if exists|i: int|
        0 <= i < accepted.len() && ((#[trigger] accepted[i]).txid != txid
            || accepted[i].tx_hash_commitment != accepted[0].tx_hash_commitment) {
        Err("Votes have mismatched txid or commitment for TX "@ + hex_text(txid))
    } else {
        Ok(TimeProofV { txid, slot_index: accepted[0].slot_index, votes: accepted })
    }
}

/// What a result over proofs says.
pub open spec fn proof_told(result: Result<TimeProof, String>) -> Result<TimeProofV, Seq<char>> {
    match result {
        Ok(shown) => Ok(shown@),
        Err(text) => Err(text@),
    }
}

fn keep_accepting(votes: Vec<TimeVote>) -> (kept: Vec<TimeVote>)
    ensures
        views(kept@) == accepting(views(votes@)),
{
    let ghost all = views(votes@);
    let mut kept: Vec<TimeVote> = Vec::new();
    let mut i: usize = 0;
    assert(views(kept@) =~= accepting(all.take(0)));
    while i < votes.len()
        invariant
            i <= votes@.len(),
            all == views(votes@),
            views(kept@) == accepting(all.take(i as int)),
        decreases votes@.len() - i,
    {
        proof {
            assert(all.take(i + 1).drop_last() =~= all.take(i as int));
            assert(all.take(i + 1).last() == votes@[i as int]@);
        }
        if matches!(votes[i].decision, VoteDecision::Accept) {
            let ghost held = views(kept@);
            let vote = votes[i].clone();
            kept.push(vote);
            assert(views(kept@) =~= held.push(vote@));
        }
        i = i + 1;
    }
    assert(all.take(i as int) =~= all);
    kept
}

impl TimeVoteConsensus {
    /// Takes in a proof for a transaction. Where there are others already, a
    /// conflict goes on record. Tells the place of the heaviest proof, the
    /// latest one of several.
    pub fn detect_competing_timeproof_at(
        &mut self,
        new_proof: TimeProof,
        new_proof_weight: u64,
        now_secs: u64,
    ) -> (winner: Result<usize, String>)
        requires
            old(self).wf(),
        ensures
            final(self).wf(),
            told(winner) == (if too_heavy(list_at(old(self)@.competing_timeproofs, new_proof@.txid)) {
                Err("Weight overflow"@)
            } else {
                Ok(
                    last_best(
                        proof_weights(
                            list_at(old(self)@.competing_timeproofs, new_proof@.txid),
                        ).push(new_proof_weight),
                    ) as usize,
                )
            }),
            final(self)@ == old(self)@.with_proof(new_proof@, new_proof_weight, now_secs),
    {
        let ghost before = self@;
        let ghost said = new_proof@;
        let ghost held = list_at(before.competing_timeproofs, said.txid);
        let txid = new_proof.txid;
        let slot_index: u64 = new_proof.slot_index;
        let mut weights: Vec<u64> = match self.competing_timeproofs.get(&txid) {
            Some(proofs) => {
                assert(held == views(proofs@));
                match weigh_proofs(proofs) {
                    Some(weights) => weights,
                    None => {
                        return Err(String::from_str("Weight overflow"));
                    },
                }
            },
            None => Vec::new(),
        };
        assert(weights@ =~= proof_weights(held));
        let mut proofs = match self.competing_timeproofs.remove(&txid) {
            Some(proofs) => proofs,
            None => Vec::new(),
        };
        assert(views(proofs@) =~= held);
        proofs.push(new_proof);
        assert(views(proofs@) =~= held.push(said));
        let proof_count: usize = proofs.len();
        self.competing_timeproofs.insert(txid, proofs);
        weights.push(new_proof_weight);
        assert(weights@ =~= proof_weights(held).push(new_proof_weight));
        let winning_index: usize = find_last_best(&weights);
        let max_weight: u64 = weights[winning_index];
        if proof_count >= 2 {
            let info = TimeProofConflictInfo {
                txid,
                slot_index,
                proof_count,
                proof_weights: weights,
                max_weight,
                winning_proof_index: winning_index,
                detected_at: now_secs,
                resolved: false,
            };
            assert(info@ =~= before.conflict(said, new_proof_weight, now_secs));
            self.timeproof_conflicts.insert((txid, slot_index), info);
            self.timeproof_conflicts_detected = bump(self.timeproof_conflicts_detected);
        }
        assert(self@ =~= before.with_proof(said, new_proof_weight, now_secs));
        Ok(winning_index)
    }

    /// Takes in a proof for a transaction at the present time.
    pub fn detect_competing_timeproof(&mut self, new_proof: TimeProof, new_proof_weight: u64) -> (
    winner: Result<usize, String>)
        requires
            old(self).wf(),
        ensures
            final(self).wf(),
            told(winner) == (if too_heavy(list_at(old(self)@.competing_timeproofs, new_proof@.txid)) {
                Err("Weight overflow"@)
            } else {
                Ok(
                    last_best(
                        proof_weights(
                            list_at(old(self)@.competing_timeproofs, new_proof@.txid),
                        ).push(new_proof_weight),
                    ) as usize,
                )
            }),
            exists|now: u64|
                final(self)@ == #[trigger] old(self)@.with_proof(new_proof@, new_proof_weight, now),
    {
        let now: u64 = unix_seconds();
        self.detect_competing_timeproof_at(new_proof, new_proof_weight, now)
    }

    /// The weight of the votes in a proof.
    pub fn calculate_timeproof_weight(&self, shown: &TimeProof) -> (weight: Result<u64, String>)
        ensures
            told(weight) == (if vote_weight(shown@.votes) > u64::MAX {
                Err("Weight overflow"@)
            } else {
                Ok(vote_weight(shown@.votes) as u64)
            }),
    {
        match weigh_votes(&shown.votes) {
            Some(weight) => Ok(weight),
            None => Err(String::from_str("Weight overflow")),
        }
    }

    /// Picks the heaviest of the proofs for a transaction, the earliest one of
    /// several, and marks the conflict as resolved.
    pub fn resolve_timeproof_fork(&mut self, txid: Hash256) -> (winner: Result<
        Option<TimeProof>,
        String,
    >)
        requires
            old(self).wf(),
        ensures
            final(self).wf(),
            final(self)@ == old(self)@.with_fork_resolved(txid@),
            match winner {
                Err(text) => text@ == "Weight overflow"@ && too_heavy(
                    list_at(old(self)@.competing_timeproofs, txid@),
                ),
                Ok(None) => list_at(old(self)@.competing_timeproofs, txid@).len() == 0,
                Ok(Some(shown)) => {
                    &&& list_at(old(self)@.competing_timeproofs, txid@).len() > 0
                    &&& !too_heavy(list_at(old(self)@.competing_timeproofs, txid@))
                    &&& shown@ == old(self)@.fork_winner(txid@)
                },
            },
    {
        let ghost before = self@;
        let ghost held = list_at(before.competing_timeproofs, txid@);
        let winner = match self.competing_timeproofs.get(&txid) {
            Some(proofs) => {
                assert(held == views(proofs@));
                if proofs.len() == 0 {
                    return Ok(None);
                }
                match weigh_proofs(proofs) {
                    Some(weights) => {
                        assert(weights@.len() == proofs@.len());
                        let best: usize = find_first_best(&weights);
                        assert(held[best as int] == proofs@[best as int]@);
                        proofs[best].clone()
                    },
                    None => {
                        return Err(String::from_str("Weight overflow"));
                    },
                }
            },
            None => {
                return Ok(None);
            },
        };
        let slot_index: u64 = winner.slot_index;
        match self.timeproof_conflicts.remove(&(txid, slot_index)) {
            Some(conflict) => {
                let resolved = TimeProofConflictInfo { resolved: true, ..conflict };
                self.timeproof_conflicts.insert((txid, slot_index), resolved);
            },
            None => {},
        }
        assert(self@.timeproof_conflicts =~= before.with_fork_resolved(txid@).timeproof_conflicts);
        assert(self@ =~= before.with_fork_resolved(txid@));
        Ok(Some(winner))
    }

    /// The proofs seen for a transaction.
    pub fn get_competing_timeproofs(&self, txid: Hash256) -> (proofs: Vec<TimeProof>)
        requires
            self.wf(),
        ensures
            views(proofs@) == list_at(self@.competing_timeproofs, txid@),
    {
        match self.competing_timeproofs.get(&txid) {
            Some(held) => duplicate_list(held),
            None => {
                let none: Vec<TimeProof> = Vec::new();
                assert(views(none@) =~= seq![]);
                none
            },
        }
    }

    /// The conflict on record for a transaction and a slot.
    pub fn get_conflict_info(&self, txid: Hash256, slot_index: u64) -> (info: Option<
        TimeProofConflictInfo,
    >)
        requires
            self.wf(),
        ensures
            option_view(info) == at(self@.timeproof_conflicts, (txid@, slot_index)),
    {
        match self.timeproof_conflicts.get(&(txid, slot_index)) {
            Some(held) => Some(held.clone()),
            None => None,
        }
    }

    /// How many conflicts went on record.
    pub fn conflicts_detected_count(&self) -> (count: usize)
        ensures
            count == self@.timeproof_conflicts_detected,
    {
        self.timeproof_conflicts_detected
    }

    /// Forgets the proofs for a transaction.
    pub fn clear_competing_timeproofs(&mut self, txid: Hash256)
        requires
            old(self).wf(),
        ensures
            final(self).wf(),
            final(self)@ == (ConsensusV {
                competing_timeproofs: old(self)@.competing_timeproofs.remove(txid@),
                ..old(self)@
            }),
    {
        let ghost before = self@;
        let _ = self.competing_timeproofs.remove(&txid);
        assert(self@ =~= ConsensusV {
            competing_timeproofs: before.competing_timeproofs.remove(txid@),
            ..before
        });
    }

    /// Records a transaction as final, at given clock readings.
    pub fn record_finalization_at(
        &mut self,
        txid: Hash256,
        accumulated_weight: u64,
        now_nanos: u64,
        now_ms: i64,
    )
        requires
            old(self).wf(),
        ensures
            final(self).wf(),
            final(self)@ == old(self)@.recorded(txid@, accumulated_weight, now_nanos, now_ms),
    {
        let ghost before = self@;
        self.finalized_txs.insert(txid, (Preference::Accept, now_nanos));
        self.tx_status.insert(
            txid,
            TransactionStatus::Finalized { finalized_at: now_ms, vfp_weight: accumulated_weight },
        );
        self.txs_finalized = bump(self.txs_finalized);
        assert(self@ =~= before.recorded(txid@, accumulated_weight, now_nanos, now_ms));
    }

    /// Records a transaction as final now.
    pub fn record_finalization(&mut self, txid: Hash256, accumulated_weight: u64)
        requires
            old(self).wf(),
        ensures
            final(self).wf(),
            exists|nanos: u64, ms: i64|
                final(self)@ == #[trigger] old(self)@.recorded(
                    txid@,
                    accumulated_weight,
                    nanos,
                    ms,
                ),
    {
        let nanos: u64 = self.clock.nanos();
        let ms: i64 = utc_millis();
        self.record_finalization_at(txid, accumulated_weight, nanos, ms);
    }

    /// Makes a proof of the accepting votes on a transaction. They must be for
    /// one slot and one commitment.
    pub fn assemble_timeproof(&self, txid: Hash256) -> (made: Result<TimeProof, String>)
        requires
            self.wf(),
        ensures
            proof_told(made) == assembly(list_at(self@.timeproof_votes, txid@), txid@),
    {
        let hex = hex_encode(&txid);
        let all_votes = self.get_accumulated_votes(&txid);
        let ghost all = views(all_votes@);
        if all_votes.len() == 0 {
            return Err(join2("No votes found for TX ", hex.as_str()));
        }
        let votes = keep_accepting(all_votes);
        let ghost accepted = views(votes@);
        if votes.len() == 0 {
            return Err(join2("No Accept votes found for TX ", hex.as_str()));
        }
        assert(accepted[0] == votes@[0]@);
        let slot_index: u64 = votes[0].slot_index;
        let mut i: usize = 0;
        while i < votes.len()
            invariant
                i <= votes@.len(),
                votes@.len() > 0,
                all.len() > 0,
                all == list_at(self@.timeproof_votes, txid@),
                accepted == accepting(all),
                accepted == views(votes@),
                slot_index == accepted[0].slot_index,
                hex@ == hex_text(txid@),
                forall|j: int|
                    0 <= j < i ==> (#[trigger] accepted[j]).slot_index == accepted[0].slot_index,
            decreases votes@.len() - i,
        {
            assert(accepted[i as int] == votes@[i as int]@);
            if votes[i].slot_index != slot_index {
                return Err(join2("Votes have mismatched slot_index for TX ", hex.as_str()));
            }
            i = i + 1;
        }
        i = 0;
        while i < votes.len()
            invariant
                i <= votes@.len(),
                votes@.len() > 0,
                all.len() > 0,
                all == list_at(self@.timeproof_votes, txid@),
                accepted == accepting(all),
                accepted == views(votes@),
                hex@ == hex_text(txid@),
                forall|j: int|
                    0 <= j < accepted.len() ==> (#[trigger] accepted[j]).slot_index
                        == accepted[0].slot_index,
                forall|j: int|
                    0 <= j < i ==> (#[trigger] accepted[j]).txid == txid@
                        && accepted[j].tx_hash_commitment == accepted[0].tx_hash_commitment,
            decreases votes@.len() - i,
        {
            assert(accepted[i as int] == votes@[i as int]@);
            assert(accepted[0] == votes@[0]@);
            if !same_hash(&votes[i].txid, &txid) || !same_hash(
                &votes[i].tx_hash_commitment,
                &votes[0].tx_hash_commitment,
            ) {
                return Err(
                    join2("Votes have mismatched txid or commitment for TX ", hex.as_str()),
                );
            }
            i = i + 1;
        }
        Ok(TimeProof { txid, slot_index, votes })
    }

    /// Checks a proof against the active masternodes.
    pub fn verify_timeproof(&self, timeproof: &TimeProof) -> (answer: Result<u64, String>)
        requires
            validator_weight(self@.registry.validators()) <= u64::MAX,
        ensures
            told(answer) == proof_answer(
                timeproof@,
                validator_weight(self@.registry.validators()) as u64,
                self@.registry.active(),
            ),
    {
        let validators = self.masternode_registry.validators();
        let total_avs_weight: u64 = weigh_validators(&validators);
        let active = self.masternode_registry.list_active();
        timeproof.verify(total_avs_weight, &active)
    }
}

/// A transaction whose conflict was resolved keeps its proofs, so resolving it
/// again gives the same winner.
pub proof fn fork_resolution_is_stable(held: ConsensusV, txid: Seq<u8>)
    ensures
        held.with_fork_resolved(txid).fork_winner(txid) == held.fork_winner(txid),
        held.with_fork_resolved(txid).with_fork_resolved(txid) == held.with_fork_resolved(txid),
{
    let once = held.with_fork_resolved(txid);
    assert(once.with_fork_resolved(txid) =~= once);
}

/// A proof that the accepting votes make holds no vote to reject, and only votes
/// on its own transaction and slot.
pub proof fn assembled_votes_agree(votes: Seq<TimeVoteV>, txid: Seq<u8>)
    ensures
        assembly(votes, txid) matches Ok(made) ==> {
            &&& made.txid == txid
            &&& made.votes.len() > 0
            &&& forall|i: int|
                0 <= i < made.votes.len() ==> {
                    &&& (#[trigger] made.votes[i]).decision == VoteDecision::Accept
                    &&& made.votes[i].txid == txid
                    &&& made.votes[i].slot_index == made.slot_index
                }
        },
{
    lemma_accepting(votes);
}

proof fn lemma_accepting(votes: Seq<TimeVoteV>)
    ensures
        forall|i: int|
            0 <= i < accepting(votes).len() ==> (#[trigger] accepting(votes)[i]).decision
                == VoteDecision::Accept,
    decreases votes.len(),
{
    if votes.len() > 0 {
        lemma_accepting(votes.drop_last());
    }
}

proof fn lemma_checked(shown: TimeProofV, nodes: Seq<MasternodeInfoV>, n: int)
    requires
        0 <= n <= shown.votes.len(),
    ensures
        checked_votes(shown, nodes, n) matches Ok(weight) ==> weight == vote_weight(
            shown.votes.take(n),
        ) && forall|i: int| 0 <= i < n ==> #[trigger] vote_fault(shown, nodes, i) is None,
        (forall|i: int| 0 <= i < n ==> #[trigger] vote_fault(shown, nodes, i) is None)
            && vote_weight(shown.votes) <= u64::MAX ==> checked_votes(shown, nodes, n) is Ok,
    decreases n,
{
    if n > 0 {
        lemma_checked(shown, nodes, n - 1);
        lemma_vote_prefix(shown.votes, n - 1);
        lemma_vote_prefix(shown.votes, n);
        assert(vote_fault(shown, nodes, n - 1) is None || vote_fault(shown, nodes, n - 1) is Some);
    } else {
        assert(shown.votes.take(0).len() == 0);
    }
}

/// Whether a vote in a proof is sound: it accepts the proof's transaction in the
/// proof's slot, is the only one of its voter, and bears the signature of the
/// masternode at the voter's address.
pub open spec fn sound_vote(shown: TimeProofV, nodes: Seq<MasternodeInfoV>, i: int) -> bool {
    let vote = shown.votes[i];
    &&& vote.decision == VoteDecision::Accept
    &&& vote.txid == shown.txid
    &&& vote.slot_index == shown.slot_index
    &&& vote.tx_hash_commitment == shown.votes[0].tx_hash_commitment
    &&& forall|j: int| 0 <= j < i ==> (#[trigger] shown.votes[j]).voter_mn_id != vote.voter_mn_id
    &&& node_at(nodes, vote.voter_mn_id) matches Some(info) && vote.signature.len() == 64
        && crate::crypto::ed25519_accepts(
        info.masternode.public_key,
        vote.message(),
        vote.signature,
    )
}

/// A proof holds exactly when all its votes are sound and have 67 hundredths of the
/// weight of all validators, and it is worth the weight of its votes.
pub proof fn proofs_need_two_thirds(
    shown: TimeProofV,
    total_avs_weight: u64,
    nodes: Seq<MasternodeInfoV>,
)
    requires
        vote_weight(shown.votes) <= u64::MAX,
    ensures
        proof_answer(shown, total_avs_weight, nodes) is Ok <==> {
            &&& shown.votes.len() > 0
            &&& forall|i: int| 0 <= i < shown.votes.len() ==> #[trigger] sound_vote(shown, nodes, i)
            &&& 100 * vote_weight(shown.votes) >= 67 * total_avs_weight
        },
        proof_answer(shown, total_avs_weight, nodes) matches Ok(weight) ==> weight == vote_weight(
            shown.votes,
        ),
{
    let n = shown.votes.len() as int;
    lemma_checked(shown, nodes, n);
    assert(shown.votes.take(n) =~= shown.votes);
    crate::fees::quotients_are_rounded_up(total_avs_weight * 67, 100);
    assert forall|i: int| 0 <= i < n implies (#[trigger] sound_vote(shown, nodes, i)
        <==> vote_fault(shown, nodes, i) is None) by {}
    if forall|i: int| 0 <= i < n ==> #[trigger] sound_vote(shown, nodes, i) {
        assert forall|i: int| 0 <= i < n implies #[trigger] vote_fault(
            shown,
            nodes,
            i,
        ) is None by {
            assert(sound_vote(shown, nodes, i));
        }
    }
    if checked_votes(shown, nodes, n) is Ok {
        assert forall|i: int| 0 <= i < n implies #[trigger] sound_vote(shown, nodes, i) by {
            assert(vote_fault(shown, nodes, i) is None);
        }
    }
}

/// Accepting votes that agree make a proof, which holds them all in their order.
pub proof fn agreeing_votes_make_a_proof(votes: Seq<TimeVoteV>, txid: Seq<u8>, slot: u64, seen: Seq<u8>)
    requires
        forall|i: int|
            0 <= i < votes.len() && (#[trigger] votes[i]).decision == VoteDecision::Accept
                ==> votes[i].txid == txid && votes[i].slot_index == slot
                && votes[i].tx_hash_commitment == seen,
        exists|i: int| 0 <= i < votes.len() && (#[trigger] votes[i]).decision == VoteDecision::Accept,
    ensures
        assembly(votes, txid) == Ok::<TimeProofV, Seq<char>>(
            TimeProofV { txid, slot_index: slot, votes: accepting(votes) },
        ),
{
    lemma_accepting_from(votes);
    let i = choose|i: int|
        0 <= i < votes.len() && (#[trigger] votes[i]).decision == VoteDecision::Accept;
    let kept = accepting(votes);
    assert(kept.contains(votes[i]));
    assert forall|k: int| 0 <= k < kept.len() implies (#[trigger] kept[k]).txid == txid
        && kept[k].slot_index == slot && kept[k].tx_hash_commitment == seen by {
        assert(kept.contains(kept[k]));
        assert(votes.contains(kept[k]));
        let j = choose|j: int| 0 <= j < votes.len() && votes[j] == kept[k];
        assert(votes[j].decision == VoteDecision::Accept);
    }
}

proof fn lemma_accepting_from(votes: Seq<TimeVoteV>)
    ensures
        forall|vote: TimeVoteV| #[trigger]
            accepting(votes).contains(vote) <==> votes.contains(vote) && vote.decision
                == VoteDecision::Accept,
    decreases votes.len(),
{
    if votes.len() > 0 {
        let front = votes.drop_last();
        lemma_accepting_from(front);
        let last = votes.last();
        let kept = accepting(front);
        assert forall|vote: TimeVoteV| #[trigger] accepting(votes).contains(vote)
            <==> votes.contains(vote) && vote.decision == VoteDecision::Accept by {
            if votes.contains(vote) {
                let i = choose|i: int| 0 <= i < votes.len() && votes[i] == vote;
                if i < front.len() {
                    assert(front[i] == vote);
                    assert(front.contains(vote));
                }
            }
            if front.contains(vote) {
                let i = choose|i: int| 0 <= i < front.len() && front[i] == vote;
                assert(votes[i] == vote);
            }
            assert(votes[votes.len() - 1] == last);
            if last.decision == VoteDecision::Accept {
                let all = kept.push(last);
                assert(all[kept.len() as int] == last);
                if kept.contains(vote) {
                    let i = choose|i: int| 0 <= i < kept.len() && kept[i] == vote;
                    assert(all[i] == vote);
                }
                if all.contains(vote) {
                    let i = choose|i: int| 0 <= i < all.len() && all[i] == vote;
                    if i < kept.len() {
                        assert(kept[i] == vote);
                    }
                }
            }
        }
    }
}

/// A proof that comes in is kept behind the earlier ones for its transaction. The first
/// one is no conflict; any later one is, and what is on record of it names the proofs'
/// weights and the heaviest.
pub proof fn second_proofs_are_conflicts(
    held: ConsensusV,
    new_proof: TimeProofV,
    weight: u64,
    now_secs: u64,
    other: Seq<u8>,
)
    requires
        !too_heavy(list_at(held.competing_timeproofs, new_proof.txid)),
        list_at(held.competing_timeproofs, new_proof.txid).len() < usize::MAX,
        other != new_proof.txid,
    ensures
        ({
            let earlier = list_at(held.competing_timeproofs, new_proof.txid);
            let after = held.with_proof(new_proof, weight, now_secs);
            let key = (new_proof.txid, new_proof.slot_index);
            &&& list_at(after.competing_timeproofs, new_proof.txid) == earlier.push(new_proof)
            &&& at(after.competing_timeproofs, other) == at(held.competing_timeproofs, other)
            &&& earlier.len() == 0 ==> after.timeproof_conflicts == held.timeproof_conflicts
                && after.timeproof_conflicts_detected == held.timeproof_conflicts_detected
            &&& earlier.len() > 0 ==> {
                let info = after.timeproof_conflicts[key];
                &&& after.timeproof_conflicts.contains_key(key)
                &&& !info.resolved
                &&& info.detected_at == now_secs
                &&& info.proof_count == earlier.len() + 1
                &&& info.proof_weights.last() == weight
                &&& forall|i: int|
                    0 <= i < earlier.len() ==> #[trigger] info.proof_weights[i] == vote_weight(
                        earlier[i].votes,
                    )
                &&& forall|i: int|
                    0 <= i < info.proof_weights.len() ==> #[trigger] info.proof_weights[i]
                        <= info.max_weight
                &&& info.winning_proof_index < info.proof_weights.len()
                &&& info.proof_weights[info.winning_proof_index as int] == info.max_weight
                &&& held.timeproof_conflicts_detected < usize::MAX
                    ==> after.timeproof_conflicts_detected == held.timeproof_conflicts_detected + 1
            }
        }),
{
    let earlier = list_at(held.competing_timeproofs, new_proof.txid);
    let weights = proof_weights(earlier).push(weight);
    best_is_largest(weights);
    assert forall|i: int| 0 <= i < earlier.len() implies #[trigger] weights[i] == vote_weight(
        earlier[i].votes,
    ) by {
        assert(vote_weight(earlier[i].votes) <= u64::MAX);
    }
}

/// The proof that wins a fork is one of those in it, and none weighs more.
pub proof fn fork_winner_is_the_heaviest(held: ConsensusV, txid: Seq<u8>, i: int)
    requires
        !too_heavy(list_at(held.competing_timeproofs, txid)),
        0 <= i < list_at(held.competing_timeproofs, txid).len(),
    ensures
        list_at(held.competing_timeproofs, txid).contains(held.fork_winner(txid)),
        vote_weight(list_at(held.competing_timeproofs, txid)[i].votes) <= vote_weight(
            held.fork_winner(txid).votes,
        ),
{
    let proofs = list_at(held.competing_timeproofs, txid);
    let weights = proof_weights(proofs);
    best_is_largest(weights);
    let k = first_best(weights);
    assert(vote_weight(proofs[i].votes) <= u64::MAX);
    assert(vote_weight(proofs[k].votes) <= u64::MAX);
    assert(weights[i] <= weights[k]);
}

/// Resolving a fork marks the conflict of the winner's slot as resolved, and changes
/// nothing else of it.
pub proof fn resolved_forks_are_marked(held: ConsensusV, txid: Seq<u8>)
    requires
        list_at(held.competing_timeproofs, txid).len() > 0,
        !too_heavy(list_at(held.competing_timeproofs, txid)),
        held.timeproof_conflicts.contains_key((txid, held.fork_winner(txid).slot_index)),
    ensures
        ({
            let key = (txid, held.fork_winner(txid).slot_index);
            let after = held.with_fork_resolved(txid);
            &&& after.timeproof_conflicts[key].resolved
            &&& after.timeproof_conflicts[key].max_weight
                == held.timeproof_conflicts[key].max_weight
            &&& after.competing_timeproofs == held.competing_timeproofs
        }),
{
}

} // verus!
