//! The fallback for transactions that are stuck in voting: who leads it, how
//! rounds time out, and how a block settles what is left.

use crate::clock::utc_millis;
use crate::crypto::{ed25519_signature, hex_encode, hex_text, sha256, sha256_digest};
use crate::engine::{ConsensusEngine, EngineV};
use crate::select::{drop_all, select, Condition};
use crate::status::{
    kind_of, OfKind, StatusKind, FALLBACK_ROUND_TIMEOUT, MAX_FALLBACK_ROUNDS,
};
use crate::sums::views;
use crate::table::Table;
use crate::text::{
    comes_before, copy_bytes, decimal, decimal_text, join2, join3, precedes, same_text,
};
use crate::timevote::{at, bump, bumped, find_node, node_at, ConsensusV, Preference};
use crate::types::{
    option_view, same_hash, AVSSnapshot, AVSSnapshotV, FallbackDecision, FallbackVote, FallbackVoteDecision,
    FallbackVoteV, FinalityProposal, FinalityProposalV, Hash256, LivenessAlert, LivenessAlertV,
    Masternode, MasternodeInfoV, MasternodeV, PollResult, TransactionStatus, TransactionStatusV, UTXOState,
    ValidatorInfoV,
};
use vstd::bytes::{spec_u32_to_le_bytes, spec_u64_to_le_bytes};
use vstd::prelude::*;
use vstd::utf8::encode_utf8;

verus! {

/// The states of the inputs of each pending transaction; `None` where an output
/// has no state.
pub type PendingInputs = Table<Hash256, Vec<Option<UTXOState>>>;

/// The score of a masternode in the election for a slot: the least wins.
pub open spec fn leader_score(
    txid: Seq<u8>,
    slot_index: u64,
    prev_block_hash: Seq<u8>,
    public_key: Seq<u8>,
) -> Seq<u8> {
    sha256(txid + spec_u64_to_le_bytes(slot_index) + prev_block_hash + public_key)
}

/// The scores of some masternodes.
pub open spec fn leader_scores(
    txid: Seq<u8>,
    slot_index: u64,
    avs: Seq<MasternodeV>,
    prev_block_hash: Seq<u8>,
) -> Seq<Seq<u8>> {
    avs.map_values(|mn: MasternodeV| leader_score(txid, slot_index, prev_block_hash, mn.public_key))
}

/// The place of the least of some scores, the first one of several.
pub open spec fn first_least(scores: Seq<Seq<u8>>) -> int
    decreases scores.len(),
{
    if scores.len() <= 1 {
        0
    } else {
        let best = first_least(scores.drop_last());
        if precedes(scores.last(), scores[best]) {
            scores.len() - 1
        } else {
            best
        }
    }
}

/// The leader of a slot.
pub open spec fn leader_of(
    txid: Seq<u8>,
    slot_index: u64,
    avs: Seq<MasternodeV>,
    prev_block_hash: Seq<u8>,
) -> Option<Seq<char>> {
    if avs.len() == 0 {
        None
    } else {
        Some(avs[first_least(leader_scores(txid, slot_index, avs, prev_block_hash))].address)
    }
}

/// What a validator stands for election with: the public key of the masternode
/// at its address, or the address itself where no masternode is known there.
pub open spec fn candidate_id(nodes: Seq<MasternodeInfoV>, address: Seq<char>) -> Seq<u8> {
    match node_at(nodes, address) {
        Some(info) => info.masternode.public_key,
        None => encode_utf8(address),
    }
}

/// The score of a validator in the election for a slot and a round.
pub open spec fn round_score(
    txid: Seq<u8>,
    slot_index: u64,
    round: u32,
    prev_block_hash: Seq<u8>,
    candidate: Seq<u8>,
) -> Seq<u8> {
    sha256(
        txid + spec_u64_to_le_bytes(slot_index) + spec_u32_to_le_bytes(round) + prev_block_hash
            + candidate,
    )
}

/// The scores of some validators, where the registry holds some masternodes.
pub open spec fn round_scores(
    nodes: Seq<MasternodeInfoV>,
    txid: Seq<u8>,
    slot_index: u64,
    round: u32,
    validators: Seq<ValidatorInfoV>,
    prev_block_hash: Seq<u8>,
) -> Seq<Seq<u8>> {
    validators.map_values(
        |v: ValidatorInfoV|
            round_score(txid, slot_index, round, prev_block_hash, candidate_id(nodes, v.address)),
    )
}

/// The largest score there is.
pub open spec fn top_score() -> Seq<u8> {
    Seq::new(32, |i: int| 0xffu8)
}

/// The place of the least of some scores that is below the largest there is, the
/// first one of several.
pub open spec fn elected(scores: Seq<Seq<u8>>) -> Option<int>
    decreases scores.len(),
{
    if scores.len() == 0 {
        None
    } else {
        let earlier = elected(scores.drop_last());
        let bar = match earlier {
            Some(best) => scores[best],
            None => top_score(),
        };
        if precedes(scores.last(), bar) {
            Some(scores.len() - 1)
        } else {
            earlier
        }
    }
}

/// The leader of a slot and a round, where the registry holds some masternodes.
pub open spec fn round_leader(
    nodes: Seq<MasternodeInfoV>,
    txid: Seq<u8>,
    slot_index: u64,
    round: u32,
    avs: AVSSnapshotV,
    prev_block_hash: Seq<u8>,
) -> Option<Seq<char>> {
    match elected(round_scores(nodes, txid, slot_index, round, avs.validators, prev_block_hash)) {
        Some(best) => Some(avs.validators[best].address),
        None => None,
    }
}

/// The leader has the least score, and is the first of those that have it.
pub proof fn leader_has_least_score(scores: Seq<Seq<u8>>, i: int)
    requires
        0 <= i < scores.len(),
    ensures
        0 <= first_least(scores) < scores.len(),
        !precedes(scores[i], scores[first_least(scores)]),
        i < first_least(scores) ==> precedes(scores[first_least(scores)], scores[i]),
    decreases scores.len(),
{
    let last = scores.len() - 1;
    let best = first_least(scores);
    if scores.len() > 1 {
        let front = scores.drop_last();
        let k = if i < last {
            i
        } else {
            0
        };
        leader_has_least_score(front, k);
        let earlier = first_least(front);
        if i < last {
            crate::text::precedes_is_an_order(scores[i], scores[last], scores[earlier]);
            crate::text::precedes_is_an_order(scores[last], scores[earlier], scores[i]);
            crate::text::precedes_is_an_order(scores[i], scores[earlier], scores[i]);
        } else {
            crate::text::precedes_is_an_order(scores[last], scores[last], scores[last]);
        }
    } else {
        crate::text::precedes_is_an_order(scores[0], scores[0], scores[0]);
    }
}

/// With a validator whose score is not the very largest there is a leader, and
/// nobody's score is below theirs.
pub proof fn round_leader_has_least_score(scores: Seq<Seq<u8>>, i: int)
    requires
        0 <= i < scores.len(),
        precedes(scores[i], top_score()),
    ensures
        elected(scores) matches Some(best) && 0 <= best < scores.len() && !precedes(
            scores[i],
            scores[best],
        ),
    decreases scores.len(),
{
    let last = scores.len() - 1;
    let front = scores.drop_last();
    lemma_elected_range(front);
    if i < last {
        round_leader_has_least_score(front, i);
        let earlier = elected(front)->0;
        crate::text::precedes_is_an_order(scores[i], scores[last], scores[earlier]);
    } else {
        crate::text::precedes_is_an_order(scores[last], scores[last], scores[last]);
    }
}

/// The leader of a slot does not hang on the order in which the masternodes are
/// listed, where those at different addresses have different scores.
pub proof fn leader_ignores_order(
    txid: Seq<u8>,
    slot_index: u64,
    avs: Seq<MasternodeV>,
    other: Seq<MasternodeV>,
    prev_block_hash: Seq<u8>,
)
    requires
        avs.to_multiset() == other.to_multiset(),
        forall|i: int, j: int|
            0 <= i < avs.len() && 0 <= j < avs.len() && leader_score(
                txid,
                slot_index,
                prev_block_hash,
                (#[trigger] avs[i]).public_key,
            ) == leader_score(txid, slot_index, prev_block_hash, (#[trigger] avs[j]).public_key)
                ==> avs[i].address == avs[j].address,
    ensures
        leader_of(txid, slot_index, avs, prev_block_hash) == leader_of(
            txid,
            slot_index,
            other,
            prev_block_hash,
        ),
{
    avs.to_multiset_ensures();
    other.to_multiset_ensures();
    if avs.len() > 0 {
        let scores = leader_scores(txid, slot_index, avs, prev_block_hash);
        let others = leader_scores(txid, slot_index, other, prev_block_hash);
        leader_has_least_score(scores, 0);
        leader_has_least_score(others, 0);
        let (a, b) = (first_least(scores), first_least(others));
        assert(avs.contains(avs[a]));
        assert(other.contains(other[b]));
        assert(other.to_multiset().count(avs[a]) > 0);
        assert(avs.to_multiset().count(other[b]) > 0);
        let k = choose|k: int| 0 <= k < other.len() && other[k] == avs[a];
        let m = choose|m: int| 0 <= m < avs.len() && avs[m] == other[b];
        leader_has_least_score(scores, m);
        leader_has_least_score(others, k);
        crate::text::precedes_is_an_order(scores[a], scores[m], scores[a]);
        assert(avs[a].address == avs[m].address);
    }
}

/// The leader of a slot and a round does not hang on the order in which the
/// validators are listed, where those at different addresses have different
/// scores.
pub proof fn round_leader_ignores_order(
    nodes: Seq<MasternodeInfoV>,
    txid: Seq<u8>,
    slot_index: u64,
    round: u32,
    avs: AVSSnapshotV,
    other: AVSSnapshotV,
    prev_block_hash: Seq<u8>,
)
    requires
        avs.validators.to_multiset() == other.validators.to_multiset(),
        forall|i: int, j: int|
            0 <= i < avs.validators.len() && 0 <= j < avs.validators.len() && round_score(
                txid,
                slot_index,
                round,
                prev_block_hash,
                candidate_id(nodes, (#[trigger] avs.validators[i]).address),
            ) == round_score(
                txid,
                slot_index,
                round,
                prev_block_hash,
                candidate_id(nodes, (#[trigger] avs.validators[j]).address),
            ) ==> avs.validators[i].address == avs.validators[j].address,
    ensures
        round_leader(nodes, txid, slot_index, round, avs, prev_block_hash) == round_leader(
            nodes,
            txid,
            slot_index,
            round,
            other,
            prev_block_hash,
        ),
{
    let (left, right) = (avs.validators, other.validators);
    left.to_multiset_ensures();
    right.to_multiset_ensures();
    let scores = round_scores(nodes, txid, slot_index, round, left, prev_block_hash);
    let others = round_scores(nodes, txid, slot_index, round, right, prev_block_hash);
    lemma_elected_range(scores);
    lemma_elected_range(others);
    if elected(scores) is Some {
        let a = elected(scores)->0;
        assert(left.contains(left[a]));
        assert(right.to_multiset().count(left[a]) > 0);
        let k = choose|k: int| 0 <= k < right.len() && right[k] == left[a];
        assert(others[k] == scores[a]);
        round_leader_has_least_score(others, k);
        let b = elected(others)->0;
        assert(right.contains(right[b]));
        assert(left.to_multiset().count(right[b]) > 0);
        let m = choose|m: int| 0 <= m < left.len() && left[m] == right[b];
        assert(scores[m] == others[b]);
        round_leader_has_least_score(scores, m);
        crate::text::precedes_is_an_order(scores[a], scores[m], scores[a]);
        assert(left[a].address == left[m].address);
    } else if elected(others) is Some {
        let b = elected(others)->0;
        assert(right.contains(right[b]));
        assert(left.to_multiset().count(right[b]) > 0);
        let m = choose|m: int| 0 <= m < left.len() && left[m] == right[b];
        assert(scores[m] == others[b]);
        round_leader_has_least_score(scores, m);
    }
}

proof fn lemma_elected_range(scores: Seq<Seq<u8>>)
    ensures
        elected(scores) matches Some(best) ==> 0 <= best < scores.len() && precedes(
            scores[best],
            top_score(),
        ),
    decreases scores.len(),
{
    if scores.len() > 0 {
        let front = scores.drop_last();
        lemma_elected_range(front);
        if elected(front) is Some {
            crate::text::precedes_is_an_order(
                scores.last(),
                front[elected(front)->0],
                top_score(),
            );
        }
    }
}

/// Whether there was a proposal for a transaction in a slot and a round.
pub open spec fn was_proposed(
    proposed: Seq<(Hash256, u64, u32)>,
    txid: Seq<u8>,
    slot_index: u64,
    round: u32,
) -> bool {
    exists|i: int|
        0 <= i < proposed.len() && (#[trigger] proposed[i]).0@ == txid && proposed[i].1
            == slot_index && proposed[i].2 == round
}

fn find_proposed(
    proposed: &Vec<(Hash256, u64, u32)>,
    txid: &Hash256,
    slot_index: u64,
    round: u32,
) -> (found: bool)
    ensures
        found == was_proposed(proposed@, txid@, slot_index, round),
{
    let mut i: usize = 0;
    while i < proposed.len()
        invariant
            i <= proposed@.len(),
            forall|j: int|
                0 <= j < i ==> !((#[trigger] proposed@[j]).0@ == txid@ && proposed@[j].1
                    == slot_index && proposed@[j].2 == round),
        decreases proposed@.len() - i,
    {
        let (led, slot, number): (Hash256, u64, u32) = proposed[i];
        assert(proposed@[i as int] == (led, slot, number));
        if same_hash(&led, txid) && slot == slot_index && number == round {
            return true;
        }
        i = i + 1;
    }
    false
}

fn find_first_least(scores: &Vec<Hash256>) -> (best: usize)
    requires
        scores@.len() > 0,
    ensures
        best == first_least(views(scores@)),
        best < scores@.len(),
{
    let ghost all = views(scores@);
    let mut best: usize = 0;
    let mut i: usize = 1;
    while i < scores.len()
        invariant
            1 <= i <= scores@.len(),
            best < i,
            all == views(scores@),
            best == first_least(all.take(i as int)),
        decreases scores@.len() - i,
    {
        proof {
            assert(all.take(i + 1).drop_last() =~= all.take(i as int));
            assert(all.take(i + 1).last() == scores@[i as int]@);
            assert(all.take(i + 1)[best as int] == scores@[best as int]@);
        }
        if comes_before(&scores[i], &scores[best]) {
            best = i;
        }
        i = i + 1;
    }
    assert(all.take(i as int) =~= all);
    best
}

/// The leader of a slot: the masternode whose hash with the transaction, the
/// slot and the latest block is least. Everybody who knows these finds the same.
pub fn compute_fallback_leader(
    txid: &Hash256,
    slot_index: u64,
    avs: &Vec<Masternode>,
    prev_block_hash: &Hash256,
) -> (leader: Option<String>)
    ensures
        option_view(leader) == leader_of(txid@, slot_index, views(avs@), prev_block_hash@),
{
    if avs.len() == 0 {
        return None;
    }
    let ghost all = leader_scores(txid@, slot_index, views(avs@), prev_block_hash@);
    let mut scores: Vec<Hash256> = Vec::new();
    let mut i: usize = 0;
    while i < avs.len()
        invariant
            i <= avs@.len(),
            all == leader_scores(txid@, slot_index, views(avs@), prev_block_hash@),
            scores@.len() == i,
            forall|j: int| 0 <= j < i ==> (#[trigger] scores@[j])@ == all[j],
        decreases avs@.len() - i,
    {
        let mut data = copy_bytes(txid);
        let mut part = vstd::bytes::u64_to_le_bytes(slot_index);
        data.append(&mut part);
        part = copy_bytes(prev_block_hash);
        data.append(&mut part);
        part = copy_bytes(&avs[i].public_key);
        data.append(&mut part);
        assert(data@ =~= txid@ + spec_u64_to_le_bytes(slot_index) + prev_block_hash@
            + avs@[i as int].public_key@);
        scores.push(sha256_digest(&data));
        i = i + 1;
    }
    assert(views(scores@) =~= all);
    let best: usize = find_first_least(&scores);
    Some(avs[best].address.clone())
}

impl EngineV {
    /// Whether the node leads the fallback of a transaction in a slot and round.
    pub open spec fn leads(
        self,
        txid: Seq<u8>,
        slot_index: u64,
        round: u32,
        avs: AVSSnapshotV,
        prev_block_hash: Seq<u8>,
    ) -> bool {
        match self.identity {
            Some(identity) => self.round_leader(txid, slot_index, round, avs, prev_block_hash)
                == Some(identity.address),
            None => false,
        }
    }

    /// The leader of a slot and a round, going by the masternodes that the node
    /// knows.
    pub open spec fn round_leader(
        self,
        txid: Seq<u8>,
        slot_index: u64,
        round: u32,
        avs: AVSSnapshotV,
        prev_block_hash: Seq<u8>,
    ) -> Option<Seq<char>> {
        round_leader(
            self.timevote.registry.nodes,
            txid,
            slot_index,
            round,
            avs,
            prev_block_hash,
        )
    }

    /// The active masternodes without what the registry adds.
    pub open spec fn active_nodes(self) -> Seq<MasternodeV> {
        self.timevote.registry.active().map_values(
            |info: crate::types::MasternodeInfoV| info.masternode,
        )
    }

    /// Whether a pending transaction can still become final: none of its inputs
    /// is spent for good, and it was not rejected.
    pub open spec fn still_valid(
        self,
        txid: Seq<u8>,
        pending: Map<Seq<u8>, Vec<Option<UTXOState>>>,
    ) -> bool {
        &&& pending.contains_key(txid)
        &&& forall|i: int|
            0 <= i < pending[txid]@.len() ==> !spent_for_good(#[trigger] pending[txid]@[i])
        &&& !(self.timevote.tx_status.contains_key(txid) && kind_of(
            self.timevote.tx_status[txid],
        ) == StatusKind::Rejected)
    }

    /// Whether a transaction has been in voting for too long and can still
    /// become final.
    pub open spec fn stuck(
        self,
        txid: Seq<u8>,
        now_ms: i64,
        pending: Map<Seq<u8>, Vec<Option<UTXOState>>>,
    ) -> bool {
        &&& at(self.timevote.tx_status, txid) matches Some(
            TransactionStatusV::Voting { started_at, .. },
        )
        &&& now_ms - started_at > 30_000
        &&& self.still_valid(txid, pending)
    }

    /// Whether a transaction is in the fallback and its round has timed out.
    pub open spec fn round_over(self, txid: Seq<u8>, now_nanos: u64) -> bool {
        &&& self.timevote.is_in_fallback(txid)
        &&& self.timevote.fallback_rounds.contains_key(txid)
        &&& now_nanos > self.timevote.fallback_rounds[txid].2 + FALLBACK_ROUND_TIMEOUT
            * 1_000_000_000
    }

    /// Whether a transaction has used up its fallback rounds.
    pub open spec fn rounds_used_up(self, txid: Seq<u8>) -> bool {
        self.timevote.fallback_rounds[txid].1 >= MAX_FALLBACK_ROUNDS
    }

    /// After the rounds of some transactions timed out. Those that have used up
    /// their rounds are rejected; the others go on to the next slot and round.
    pub open spec fn with_rounds_over(
        self,
        over: Set<Seq<u8>>,
        now_nanos: u64,
        now_ms: i64,
    ) -> EngineV {
        let held = self.timevote;
        let dropped = over.filter(|txid: Seq<u8>| self.rounds_used_up(txid));
        EngineV {
            timevote: ConsensusV {
                tx_status: Map::new(
                    |txid: Seq<u8>| held.tx_status.contains_key(txid) || dropped.contains(txid),
                    |txid: Seq<u8>|
                        if dropped.contains(txid) {
                            TransactionStatusV::Rejected {
                                rejected_at: now_ms,
                                reason: "Fallback failed after "@ + decimal(
                                    MAX_FALLBACK_ROUNDS as nat,
                                ) + " rounds, awaiting TimeLock sync"@,
                            }
                        } else {
                            held.tx_status[txid]
                        },
                ),
                stall_timers: held.stall_timers.remove_keys(dropped),
                liveness_alerts: held.liveness_alerts.remove_keys(dropped),
                fallback_rounds: Map::new(
                    |txid: Seq<u8>|
                        held.fallback_rounds.contains_key(txid) && !dropped.contains(txid),
                    |txid: Seq<u8>|
                        if over.contains(txid) {
                            (
                                (held.fallback_rounds[txid].0 + 1) as u64,
                                (held.fallback_rounds[txid].1 + 1) as u32,
                                now_nanos,
                            )
                        } else {
                            held.fallback_rounds[txid]
                        },
                ),
                ..held
            },
            ..self
        }
    }

    /// What a leader proposes on a retry: to accept while the transaction is in
    /// the fallback.
    pub open spec fn retry_decision(self, txid: Seq<u8>) -> FallbackDecision {
        if self.timevote.is_in_fallback(txid) {
            FallbackDecision::Accept
        } else {
            FallbackDecision::Reject
        }
    }

    /// Whether the node leads a transaction's next round.
    pub open spec fn leads_next(self, txid: Seq<u8>, prev_block_hash: Seq<u8>) -> bool {
        match self.identity {
            Some(identity) => leader_of(
                txid,
                (self.timevote.fallback_rounds[txid].0 + 1) as u64,
                self.active_nodes(),
                prev_block_hash,
            ) == Some(identity.address),
            None => false,
        }
    }

    /// What a block decides for a transaction in the fallback: to accept what
    /// the node prefers and what can still become final.
    pub open spec fn block_accepts(
        self,
        txid: Seq<u8>,
        pending: Map<Seq<u8>, Vec<Option<UTXOState>>>,
    ) -> bool {
        self.timevote.tx_state.contains_key(txid) && self.timevote.tx_state[txid].preference
            == Preference::Accept && self.still_valid(txid, pending)
    }

    /// After a block settled some transactions.
    pub open spec fn with_settled_by_block(
        self,
        done: Set<Seq<u8>>,
        now_ms: i64,
        pending: Map<Seq<u8>, Vec<Option<UTXOState>>>,
    ) -> EngineV {
        let held = self.timevote;
        EngineV {
            timevote: ConsensusV {
                tx_status: Map::new(
                    |txid: Seq<u8>| held.tx_status.contains_key(txid) || done.contains(txid),
                    |txid: Seq<u8>|
                        if !done.contains(txid) {
                            held.tx_status[txid]
                        } else if self.block_accepts(txid, pending) {
                            TransactionStatusV::Finalized { finalized_at: now_ms, vfp_weight: 0 }
                        } else {
                            TransactionStatusV::Rejected {
                                rejected_at: now_ms,
                                reason: "TimeLock fallback rejected"@,
                            }
                        },
                ),
                stall_timers: held.stall_timers.remove_keys(done),
                fallback_rounds: held.fallback_rounds.remove_keys(done),
                liveness_alerts: held.liveness_alerts.remove_keys(done),
                fallback_votes: held.fallback_votes.remove_keys(
                    held.proposal_to_tx.dom().filter(
                        |p: Seq<u8>| done.contains(held.proposal_to_tx[p]),
                    ),
                ),
                ..held
            },
            ..self
        }
    }

    /// The transactions in the fallback.
    pub open spec fn all_in_fallback(self) -> Set<Seq<u8>> {
        self.timevote.tx_status.dom().filter(|txid: Seq<u8>| self.timevote.is_in_fallback(txid))
    }

    /// The transactions whose round has timed out.
    pub open spec fn all_rounds_over(self, now_nanos: u64) -> Set<Seq<u8>> {
        self.timevote.fallback_rounds.dom().filter(
            |txid: Seq<u8>| self.round_over(txid, now_nanos),
        )
    }

    /// After a block settled all that is in the fallback.
    pub open spec fn with_block_resolution(
        self,
        now_ms: i64,
        pending: Map<Seq<u8>, Vec<Option<UTXOState>>>,
    ) -> EngineV {
        if self.all_in_fallback() =~= Set::empty() {
            self
        } else {
            let after = self.with_settled_by_block(self.all_in_fallback(), now_ms, pending);
            EngineV {
                timevote: ConsensusV {
                    timelock_resolutions: bumped(self.timevote.timelock_resolutions),
                    ..after.timevote
                },
                ..after
            }
        }
    }
}

/// Whether an output is spent by a final transaction.
pub open spec fn spent_for_good(state: Option<UTXOState>) -> bool {
    match state {
        Some(UTXOState::SpentFinalized { .. }) => true,
        Some(UTXOState::Archived { .. }) => true,
        _ => false,
    }
}

/// A proposal that the node has to make as the leader of a round.
#[derive(Debug, Clone, Copy)]
pub struct RetryProposal {
    pub txid: Hash256,
    pub slot_index: u64,
    pub decision: FallbackDecision,
}

/// Has timed out.
struct RoundOver {
    now: u64,
}

impl Condition<(u64, u32, u64)> for RoundOver {
    closed spec fn holds(&self, value: (u64, u32, u64)) -> bool {
        self.now > value.2 + FALLBACK_ROUND_TIMEOUT * 1_000_000_000
    }

    fn check(&self, value: &(u64, u32, u64)) -> (held: bool) {
        self.now.saturating_sub(value.2) > FALLBACK_ROUND_TIMEOUT * 1_000_000_000
    }
}

impl ConsensusEngine {
    /// The leader of a slot and a round among the validators of a snapshot: the
    /// one whose public key has the least hash with the transaction, the slot, the
    /// round and the latest block.
    pub fn elect_fallback_leader(
        &self,
        txid: Hash256,
        slot_index: u64,
        round: u32,
        avs: &AVSSnapshot,
        prev_block_hash: &Hash256,
    ) -> (leader: Option<String>)
        ensures
            option_view(leader) == self@.round_leader(
                txid@,
                slot_index,
                round,
                avs@,
                prev_block_hash@,
            ),
    {
        let ghost nodes = self@.timevote.registry.nodes;
        let ghost scores = round_scores(
            nodes,
            txid@,
            slot_index,
            round,
            avs@.validators,
            prev_block_hash@,
        );
        let mut min_hash: Hash256 = [0xffu8;32];
        let mut best: Option<usize> = None;
        let mut i: usize = 0;
        assert(min_hash@ =~= top_score());
        while i < avs.validators.len()
            invariant
                i <= avs.validators@.len(),
                nodes == views(self.timevote.masternode_registry.nodes@),
                scores == round_scores(
                    nodes,
                    txid@,
                    slot_index,
                    round,
                    avs@.validators,
                    prev_block_hash@,
                ),
                match best {
                    Some(b) => b < i && elected(scores.take(i as int)) == Some(b as int)
                        && min_hash@ == scores[b as int],
                    None => elected(scores.take(i as int)) is None && min_hash@ == top_score(),
                },
            decreases avs.validators@.len() - i,
        {
            let address = &avs.validators[i].address;
            let mut data = copy_bytes(&txid);
            let mut part = vstd::bytes::u64_to_le_bytes(slot_index);
            data.append(&mut part);
            part = vstd::bytes::u32_to_le_bytes(round);
            data.append(&mut part);
            part = copy_bytes(prev_block_hash);
            data.append(&mut part);
            part = match find_node(&self.timevote.masternode_registry.nodes, address.as_str()) {
                Some(info) => copy_bytes(&info.masternode.public_key),
                None => copy_bytes(address.as_str().as_bytes()),
            };
            assert(part@ == candidate_id(nodes, address@));
            data.append(&mut part);
            assert(data@ =~= txid@ + spec_u64_to_le_bytes(slot_index) + spec_u32_to_le_bytes(round)
                + prev_block_hash@ + candidate_id(nodes, address@));
            let hash = sha256_digest(&data);
            proof {
                assert(avs@.validators[i as int].address == address@);
                assert(scores[i as int] == hash@);
                assert(scores.take(i + 1).drop_last() =~= scores.take(i as int));
                assert(scores.take(i + 1).last() == hash@);
            }
            if comes_before(&hash, &min_hash) {
                min_hash = hash;
                best = Some(i);
            }
            i = i + 1;
        }
        assert(scores.take(i as int) =~= scores);
        match best {
            Some(b) => Some(avs.validators[b].address.clone()),
            None => None,
        }
    }

    /// Whether this node leads a slot and a round.
    pub fn is_fallback_leader(
        &self,
        txid: Hash256,
        slot_index: u64,
        round: u32,
        avs: &AVSSnapshot,
        prev_block_hash: &Hash256,
    ) -> (leads: bool)
        ensures
            leads == self@.leads(txid@, slot_index, round, avs@, prev_block_hash@),
    {
        match &self.identity {
            None => false,
            Some(identity) => match self.elect_fallback_leader(
                txid,
                slot_index,
                round,
                avs,
                prev_block_hash,
            ) {
                None => false,
                Some(leader) => same_text(identity.address.as_str(), leader.as_str()),
            },
        }
    }

    /// The transactions in the fallback that this node leads, with slot and
    /// round, going by the validators of the current slot. Those that it proposed
    /// for before in the same slot and round are left out.
    pub fn leader_duties(
        &self,
        current_slot: u64,
        proposed: &Vec<(Hash256, u64, u32)>,
    ) -> (duties: Vec<(Hash256, u64, u32)>)
        requires
            self.wf(),
        ensures
            duties@.map_values(|d: (Hash256, u64, u32)| d.0@).no_duplicates(),
            forall|i: int|
                0 <= i < duties@.len() ==> self@.has_duty(
                    (#[trigger] duties@[i]).0@,
                    current_slot,
                    proposed@,
                ) && duties@[i].1 == self@.timevote.fallback_rounds[duties@[i].0@].0
                    && duties@[i].2 == self@.timevote.fallback_rounds[duties@[i].0@].1,
            forall|txid: Seq<u8>| #[trigger]
                self@.has_duty(txid, current_slot, proposed@) ==> duties@.map_values(
                    |d: (Hash256, u64, u32)| d.0@,
                ).contains(txid),
    {
        let mut duties: Vec<(Hash256, u64, u32)> = Vec::new();
        let ghost mut ids: Seq<Seq<u8>> = seq![];
        assert(duties@.map_values(|d: (Hash256, u64, u32)| d.0@) =~= ids);
        let avs = match self.timevote.get_avs_snapshot(current_slot) {
            Some(avs) => avs,
            None => {
                return duties;
            },
        };
        let txids = select(
            &self.timevote.tx_status,
            &OfKind { kind: StatusKind::FallbackResolution },
        );
        let prev = self.get_prev_block_hash();
        let mut i: usize = 0;
        while i < txids.len()
            invariant
                self.wf(),
                i <= txids@.len(),
                at(self@.timevote.avs_snapshots, current_slot) == Some(avs@),
                prev@ == self@.prev_block_hash,
                views(txids@).no_duplicates(),
                forall|k: Seq<u8>| #[trigger]
                    views(txids@).contains(k) <==> self.timevote.tx_status@.contains_key(k)
                        && kind_of(self.timevote.tx_status@[k]@) == StatusKind::FallbackResolution,
                ids == duties@.map_values(|d: (Hash256, u64, u32)| d.0@),
                ids.no_duplicates(),
                forall|j: int|
                    0 <= j < duties@.len() ==> self@.has_duty((#[trigger] duties@[j]).0@, current_slot, proposed@)
                        && duties@[j].1 == self@.timevote.fallback_rounds[duties@[j].0@].0
                        && duties@[j].2 == self@.timevote.fallback_rounds[duties@[j].0@].1,
                forall|k: Seq<u8>| #[trigger]
                    ids.contains(k) ==> exists|j: int|
                        0 <= j < i && #[trigger] views(txids@)[j] == k,
                forall|j: int|
                    0 <= j < i && self@.has_duty(#[trigger] views(txids@)[j], current_slot, proposed@)
                        ==> ids.contains(views(txids@)[j]),
            decreases txids@.len() - i,
        {
            let txid = txids[i];
            let ghost now = i as int;
            let ghost earlier = ids;
            assert(views(txids@)[now] == txid@);
            assert(views(txids@).contains(txid@));
            match self.timevote.fallback_rounds.get(&txid) {
                Some(found) => {
                    let (slot_index, round, _started): (u64, u32, u64) = *found;
                    if self.is_fallback_leader(txid, slot_index, round, &avs, &prev)
                        && !find_proposed(proposed, &txid, slot_index, round) {
                        let ghost held = duties@;
                        duties.push((txid, slot_index, round));
                        proof {
                            ids = earlier.push(txid@);
                            assert(duties@.map_values(|d: (Hash256, u64, u32)| d.0@) =~= ids);
                            assert(self@.has_duty(txid@, current_slot, proposed@));
                            assert(!earlier.contains(txid@)) by {
                                if earlier.contains(txid@) {
                                    let j = choose|j: int|
                                        0 <= j < now && #[trigger] views(txids@)[j] == txid@;
                                    assert(views(txids@)[j] == views(txids@)[now]);
                                }
                            }
                            assert(ids[earlier.len() as int] == txid@);
                        }
                    }
                },
                None => {},
            }
            proof {
                assert forall|k: Seq<u8>| earlier.contains(k) implies #[trigger] ids.contains(k) by {
                    let x = choose|x: int| 0 <= x < earlier.len() && earlier[x] == k;
                    assert(ids[x] == k);
                }
                assert forall|k: Seq<u8>| #[trigger] ids.contains(k) implies exists|j: int|
                    0 <= j < now + 1 && #[trigger] views(txids@)[j] == k by {
                    let x = choose|x: int| 0 <= x < ids.len() && ids[x] == k;
                    if x < earlier.len() {
                        assert(earlier[x] == k);
                        assert(earlier.contains(k));
                        let j = choose|j: int| 0 <= j < now && #[trigger] views(txids@)[j] == k;
                        assert(views(txids@)[j] == k);
                    } else {
                        assert(views(txids@)[now] == k);
                    }
                }
                assert forall|j: int|
                    0 <= j < now + 1 && self@.has_duty(
                        #[trigger] views(txids@)[j],
                        current_slot,
                        proposed@,
                    ) implies ids.contains(views(txids@)[j]) by {
                    if j < now {
                        assert(earlier.contains(views(txids@)[j]));
                    }
                }
            }
            i = i + 1;
        }
        proof {
            assert forall|txid: Seq<u8>| #[trigger] self@.has_duty(txid, current_slot, proposed@) implies ids.contains(
                txid,
            ) by {
                assert(self.timevote.tx_status@.contains_key(txid));
                assert(views(txids@).contains(txid));
                let j = choose|j: int| 0 <= j < views(txids@).len() && views(txids@)[j] == txid;
                assert(self@.has_duty(views(txids@)[j], current_slot, proposed@));
            }
        }
        duties
    }

    /// Whether a pending transaction can still become final.
    pub fn is_transaction_still_valid(&self, txid: &Hash256, pending: &PendingInputs) -> (valid: bool)
        requires
            self.wf(),
            pending.wf(),
        ensures
            valid == self@.still_valid(txid@, pending@),
    {
        match pending.get(txid) {
            None => {
                return false;
            },
            Some(states) => {
                let mut i: usize = 0;
                while i < states.len()
                    invariant
                        i <= states@.len(),
                        pending@.contains_key(txid@),
                        *states == pending@[txid@],
                        forall|j: int| 0 <= j < i ==> !spent_for_good(#[trigger] states@[j]),
                    decreases states@.len() - i,
                {
                    if matches!(
                        states[i],
                        Some(UTXOState::SpentFinalized { .. }) | Some(UTXOState::Archived { .. })
                    ) {
                        assert(spent_for_good(states@[i as int]));
                        return false;
                    }
                    i = i + 1;
                }
            },
        }
        match self.timevote.tx_status.get(txid) {
            Some(TransactionStatus::Rejected { .. }) => false,
            _ => true,
        }
    }

    /// The transactions that have been in voting for half a minute, at a time,
    /// and can still become final. Each counts as a stall.
    pub fn detect_stalled_transactions_at(&mut self, now_ms: i64, pending: &PendingInputs) -> (stalled:
        Vec<Hash256>)
        requires
            old(self).wf(),
            pending.wf(),
        ensures
            final(self).wf(),
            views(stalled@).no_duplicates(),
            forall|txid: Seq<u8>| #[trigger]
                views(stalled@).contains(txid) <==> old(self)@.stuck(txid, now_ms, pending@),
            final(self)@ == (EngineV {
                timevote: ConsensusV {
                    stall_detections: bumped_by(
                        old(self)@.timevote.stall_detections,
                        stalled@.len(),
                    ),
                    ..old(self)@.timevote
                },
                ..old(self)@
            }),
    {
        let ghost before = self@;
        let voting = select(&self.timevote.tx_status, &OfKind { kind: StatusKind::Voting });
        let ghost all = views(voting@);
        let mut stalled: Vec<Hash256> = Vec::new();
        let mut i: usize = 0;
        while i < voting.len()
            invariant
                self.wf(),
                pending.wf(),
                i <= voting@.len(),
                all == views(voting@),
                all.no_duplicates(),
                self@ == (EngineV {
                    timevote: ConsensusV {
                        stall_detections: bumped_by(
                            before.timevote.stall_detections,
                            stalled@.len(),
                        ),
                        ..before.timevote
                    },
                    ..before
                }),
                views(stalled@).no_duplicates(),
                forall|k: Seq<u8>| #[trigger]
                    views(stalled@).contains(k) <==> (exists|j: int|
                        0 <= j < i && #[trigger] all[j] == k && before.stuck(k, now_ms, pending@)),
            decreases voting@.len() - i,
        {
            let txid = voting[i];
            let ghost now = i as int;
            let ghost earlier = views(stalled@);
            assert(all[now] == txid@);
            let started: Option<i64> = match self.timevote.tx_status.get(&txid) {
                Some(TransactionStatus::Voting { started_at, .. }) => Some(*started_at),
                _ => None,
            };
            let mut hit = false;
            match started {
                Some(started_at) => {
                    let elapsed_ms: i128 = (now_ms as i128) - (started_at as i128);
                    if elapsed_ms > 30_000 {
                        if self.is_transaction_still_valid(&txid, pending) {
                            hit = true;
                        }
                    }
                },
                None => {},
            }
            assert(hit == before.stuck(txid@, now_ms, pending@));
            if hit {
                stalled.push(txid);
                let ghost held = self.timevote@;
                self.timevote.stall_detections = bump(self.timevote.stall_detections);
                assert(self.timevote@.timeproof_votes == held.timeproof_votes);
                assert(self.timevote@.accumulated_weight == held.accumulated_weight);
                assert(self@.timevote =~= ConsensusV {
                    stall_detections: bumped_by(before.timevote.stall_detections, stalled@.len()),
                    ..before.timevote
                });
                proof {
                    assert(views(stalled@) =~= earlier.push(txid@));
                    assert(!earlier.contains(txid@)) by {
                        if earlier.contains(txid@) {
                            let j = choose|j: int|
                                0 <= j < now && #[trigger] all[j] == txid@ && before.stuck(
                                    txid@,
                                    now_ms,
                                    pending@,
                                );
                            assert(all[j] == all[now]);
                        }
                    }
                }
            }
            proof {
                let later = views(stalled@);
                assert forall|k: Seq<u8>| #[trigger] later.contains(k) <==> (exists|j: int|
                    0 <= j < now + 1 && #[trigger] all[j] == k && before.stuck(
                        k,
                        now_ms,
                        pending@,
                    )) by {
                    if later.contains(k) {
                        let x = choose|x: int| 0 <= x < later.len() && later[x] == k;
                        if x < earlier.len() {
                            assert(earlier[x] == k);
                            assert(earlier.contains(k));
                            let j = choose|j: int|
                                0 <= j < now && #[trigger] all[j] == k && before.stuck(
                                    k,
                                    now_ms,
                                    pending@,
                                );
                            assert(all[j] == k);
                        } else {
                            assert(all[now] == k);
                        }
                    }
                    if exists|j: int|
                        0 <= j < now + 1 && #[trigger] all[j] == k && before.stuck(
                            k,
                            now_ms,
                            pending@,
                        ) {
                        let j = choose|j: int|
                            0 <= j < now + 1 && #[trigger] all[j] == k && before.stuck(
                                k,
                                now_ms,
                                pending@,
                            );
                        if j < now {
                            assert(earlier.contains(k));
                            let x = choose|x: int| 0 <= x < earlier.len() && earlier[x] == k;
                            assert(later[x] == k);
                        } else {
                            assert(later[earlier.len() as int] == k);
                        }
                    }
                }
            }
            i = i + 1;
        }
        proof {
            assert forall|txid: Seq<u8>| #[trigger]
                views(stalled@).contains(txid) <==> before.stuck(txid, now_ms, pending@) by {
                if before.stuck(txid, now_ms, pending@) {
                    assert(before.timevote.tx_status.contains_key(txid));
                    assert(all.contains(txid));
                    let j = choose|j: int| 0 <= j < all.len() && all[j] == txid;
                    assert(all[j] == txid);
                }
            }
        }
        stalled
    }

    /// The transactions that have been in voting for half a minute and can still
    /// become final.
    pub fn detect_stalled_transactions(&mut self, pending: &PendingInputs) -> (stalled: Vec<Hash256>)
        requires
            old(self).wf(),
            pending.wf(),
        ensures
            final(self).wf(),
            views(stalled@).no_duplicates(),
            exists|now: i64| #[trigger] old(self)@.are_stuck(views(stalled@), now, pending@),
            final(self)@ == (EngineV {
                timevote: ConsensusV {
                    stall_detections: bumped_by(
                        old(self)@.timevote.stall_detections,
                        stalled@.len(),
                    ),
                    ..old(self)@.timevote
                },
                ..old(self)@
            }),
    {
        let ghost before = self@;
        let now: i64 = utc_millis();
        let stalled = self.detect_stalled_transactions_at(now, pending);
        assert(before.are_stuck(views(stalled@), now, pending@));
        stalled
    }
}

impl EngineV {
    /// Whether a list holds just the stuck transactions.
    pub open spec fn are_stuck(
        self,
        txids: Seq<Seq<u8>>,
        now_ms: i64,
        pending: Map<Seq<u8>, Vec<Option<UTXOState>>>,
    ) -> bool {
        forall|txid: Seq<u8>| #[trigger]
            txids.contains(txid) <==> self.stuck(txid, now_ms, pending)
    }

    /// Whether the node leads a transaction in the fallback, going by the
    /// validators of the current slot, and has not proposed in that round yet.
    pub open spec fn has_duty(
        self,
        txid: Seq<u8>,
        current_slot: u64,
        proposed: Seq<(Hash256, u64, u32)>,
    ) -> bool {
        &&& self.timevote.is_in_fallback(txid)
        &&& self.timevote.fallback_rounds.contains_key(txid)
        &&& at(self.timevote.avs_snapshots, current_slot) matches Some(avs)
        &&& self.leads(
            txid,
            self.timevote.fallback_rounds[txid].0,
            self.timevote.fallback_rounds[txid].1,
            avs,
            self.prev_block_hash,
        )
        &&& !was_proposed(
            proposed,
            txid,
            self.timevote.fallback_rounds[txid].0,
            self.timevote.fallback_rounds[txid].1,
        )
    }
}

proof fn lemma_one_more_round(held: EngineV, over: Set<Seq<u8>>, txid: Seq<u8>, now_nanos: u64, now_ms: i64)
    requires
        !over.contains(txid),
        held.timevote.fallback_rounds.contains_key(txid),
    ensures
        ({
            let before = held.with_rounds_over(over, now_nanos, now_ms).timevote;
            let after = held.with_rounds_over(over.insert(txid), now_nanos, now_ms).timevote;
            if held.rounds_used_up(txid) {
                after == before.settled(
                    txid,
                    TransactionStatusV::Rejected {
                        rejected_at: now_ms,
                        reason: "Fallback failed after "@ + decimal(MAX_FALLBACK_ROUNDS as nat)
                            + " rounds, awaiting TimeLock sync"@,
                    },
                )
            } else {
                after == (ConsensusV {
                    fallback_rounds: before.fallback_rounds.insert(
                        txid,
                        (
                            (held.timevote.fallback_rounds[txid].0 + 1) as u64,
                            (held.timevote.fallback_rounds[txid].1 + 1) as u32,
                            now_nanos,
                        ),
                    ),
                    ..before
                })
            }
        }),
{
    let before = held.with_rounds_over(over, now_nanos, now_ms).timevote;
    let after = held.with_rounds_over(over.insert(txid), now_nanos, now_ms).timevote;
    if held.rounds_used_up(txid) {
        assert(after =~= before.settled(
            txid,
            TransactionStatusV::Rejected {
                rejected_at: now_ms,
                reason: "Fallback failed after "@ + decimal(MAX_FALLBACK_ROUNDS as nat)
                    + " rounds, awaiting TimeLock sync"@,
            },
        ));
    } else {
        assert(after =~= ConsensusV {
            fallback_rounds: before.fallback_rounds.insert(
                txid,
                (
                    (held.timevote.fallback_rounds[txid].0 + 1) as u64,
                    (held.timevote.fallback_rounds[txid].1 + 1) as u32,
                    now_nanos,
                ),
            ),
            ..before
        });
    }
}

proof fn lemma_one_more_settled(
    held: EngineV,
    done: Set<Seq<u8>>,
    txid: Seq<u8>,
    now_ms: i64,
    pending: Map<Seq<u8>, Vec<Option<UTXOState>>>,
)
    requires
        !done.contains(txid),
    ensures
        ({
            let before = held.with_settled_by_block(done, now_ms, pending).timevote;
            let after = held.with_settled_by_block(done.insert(txid), now_ms, pending).timevote;
            let status = if held.block_accepts(txid, pending) {
                TransactionStatusV::Finalized { finalized_at: now_ms, vfp_weight: 0 }
            } else {
                TransactionStatusV::Rejected {
                    rejected_at: now_ms,
                    reason: "TimeLock fallback rejected"@,
                }
            };
            after == (ConsensusV {
                fallback_votes: before.fallback_votes.remove_keys(
                    held.timevote.proposal_to_tx.dom().filter(
                        |p: Seq<u8>| held.timevote.proposal_to_tx[p] == txid,
                    ),
                ),
                ..before.settled(txid, status)
            })
        }),
{
    let before = held.with_settled_by_block(done, now_ms, pending).timevote;
    let after = held.with_settled_by_block(done.insert(txid), now_ms, pending).timevote;
    let status = if held.block_accepts(txid, pending) {
        TransactionStatusV::Finalized { finalized_at: now_ms, vfp_weight: 0 }
    } else {
        TransactionStatusV::Rejected {
            rejected_at: now_ms,
            reason: "TimeLock fallback rejected"@,
        }
    };
    let expected = ConsensusV {
        fallback_votes: before.fallback_votes.remove_keys(
            held.timevote.proposal_to_tx.dom().filter(
                |p: Seq<u8>| held.timevote.proposal_to_tx[p] == txid,
            ),
        ),
        ..before.settled(txid, status)
    };
    assert(after.tx_status =~= expected.tx_status);
    assert(after.fallback_votes =~= expected.fallback_votes);
    assert(after =~= expected);
}

proof fn lemma_take_set(keys: Seq<Seq<u8>>, i: int)
    requires
        0 <= i < keys.len(),
        keys.no_duplicates(),
    ensures
        keys.take(i + 1).to_set() == keys.take(i).to_set().insert(keys[i]),
        !keys.take(i).to_set().contains(keys[i]),
{
    let seen = keys.take(i);
    let next = keys.take(i + 1);
    assert(next =~= seen.push(keys[i]));
    assert forall|k: Seq<u8>| next.to_set().contains(k) <==> seen.to_set().insert(keys[i]).contains(
        k,
    ) by {
        if seen.contains(k) {
            let x = choose|x: int| 0 <= x < seen.len() && seen[x] == k;
            assert(next[x] == k);
        }
        if k == keys[i] {
            assert(next[i] == k);
        }
        if next.contains(k) {
            let x = choose|x: int| 0 <= x < next.len() && next[x] == k;
            if x < seen.len() {
                assert(seen[x] == k);
            }
        }
    }
    assert(next.to_set() =~= seen.to_set().insert(keys[i]));
    if seen.contains(keys[i]) {
        let x = choose|x: int| 0 <= x < seen.len() && seen[x] == keys[i];
        assert(keys[x] == keys[i]);
    }
}

/// Whether proposals are those that a node has to make when some rounds are over.
pub open spec fn retry_proposals(
    proposals: Seq<RetryProposal>,
    held: EngineV,
    over: Set<Seq<u8>>,
    prev_block_hash: Seq<u8>,
) -> bool {
    &&& forall|i: int, j: int|
        0 <= i < j < proposals.len() ==> (#[trigger] proposals[i]).txid@ != (
        #[trigger] proposals[j]).txid@
    &&& forall|i: int|
        0 <= i < proposals.len() ==> {
            let txid = (#[trigger] proposals[i]).txid@;
            &&& over.contains(txid)
            &&& !held.rounds_used_up(txid)
            &&& held.leads_next(txid, prev_block_hash)
            &&& proposals[i].slot_index == held.timevote.fallback_rounds[txid].0 + 1
            &&& proposals[i].decision == held.retry_decision(txid)
        }
    &&& forall|txid: Seq<u8>| #[trigger]
        over.contains(txid) && !held.rounds_used_up(txid) && held.leads_next(txid, prev_block_hash)
            ==> exists|i: int| 0 <= i < proposals.len() && (#[trigger] proposals[i]).txid@ == txid
}

/// How many rounds are dealt with when some are over: all, or, with no masternode
/// to lead a next round, those that are used up.
pub open spec fn rounds_dealt_with(held: EngineV, over: Set<Seq<u8>>) -> nat {
    if held.active_nodes().len() == 0 {
        over.filter(|txid: Seq<u8>| held.rounds_used_up(txid)).len()
    } else {
        over.len()
    }
}

impl ConsensusEngine {
    fn rounds_due(&self, now_nanos: u64) -> (due: Vec<Hash256>)
        requires
            self.wf(),
        ensures
            views(due@).no_duplicates(),
            forall|k: Seq<u8>| #[trigger]
                views(due@).contains(k) <==> self@.round_over(k, now_nanos),
    {
        let over = select(&self.timevote.fallback_rounds, &RoundOver { now: now_nanos });
        let ghost all = views(over@);
        let mut due: Vec<Hash256> = Vec::new();
        let mut i: usize = 0;
        while i < over.len()
            invariant
                self.wf(),
                i <= over@.len(),
                all == views(over@),
                all.no_duplicates(),
                views(due@).no_duplicates(),
                forall|k: Seq<u8>| #[trigger]
                    views(due@).contains(k) <==> self@.timevote.is_in_fallback(k) && all.take(
                        i as int,
                    ).contains(k),
            decreases over@.len() - i,
        {
            let txid = over[i];
            let ghost earlier = views(due@);
            let ghost seen = all.take(i as int);
            let ghost next = all.take(i + 1);
            let in_fallback = match self.timevote.tx_status.get(&txid) {
                Some(TransactionStatus::FallbackResolution { .. }) => true,
                _ => false,
            };
            assert(in_fallback == self@.timevote.is_in_fallback(txid@));
            proof {
                assert(all[i as int] == txid@);
                assert(next =~= seen.push(txid@));
                assert forall|k: Seq<u8>| #[trigger] next.contains(k) <==> seen.contains(k) || k
                    == txid@ by {
                    if seen.contains(k) {
                        let x = choose|x: int| 0 <= x < seen.len() && seen[x] == k;
                        assert(next[x] == k);
                    }
                    if k == txid@ {
                        assert(next[i as int] == k);
                    }
                }
                if seen.contains(txid@) {
                    let x = choose|x: int| 0 <= x < seen.len() && seen[x] == txid@;
                    assert(all[x] == all[i as int]);
                }
            }
            if in_fallback {
                due.push(txid);
                proof {
                    let now_due = views(due@);
                    assert(now_due =~= earlier.push(txid@));
                    assert forall|k: Seq<u8>| #[trigger] now_due.contains(k) <==> earlier.contains(k)
                        || k == txid@ by {
                        if earlier.contains(k) {
                            let x = choose|x: int| 0 <= x < earlier.len() && earlier[x] == k;
                            assert(now_due[x] == k);
                        }
                        if k == txid@ {
                            assert(now_due[earlier.len() as int] == k);
                        }
                    }
                    assert(!earlier.contains(txid@));
                    assert forall|x: int, y: int|
                        0 <= x < now_due.len() && 0 <= y < now_due.len() && x
                            != y implies now_due[x] != now_due[y] by {
                        if x < earlier.len() {
                            assert(earlier.contains(now_due[x]));
                        }
                        if y < earlier.len() {
                            assert(earlier.contains(now_due[y]));
                        }
                    }
                }
            }
            i = i + 1;
        }
        assert(all.take(i as int) =~= all);
        due
    }

    /// Deals with the fallback rounds that have timed out, at given times: those
    /// of transactions that are in the fallback.
    /// A transaction that has used up its rounds is rejected, to be settled by a
    /// block; any other goes on to the next slot and round, with a new leader.
    /// Tells how many rounds were dealt with, and the proposals that this node
    /// has to make as the new leader.
    pub fn check_fallback_timeouts_at(
        &mut self,
        prev_block_hash: &Hash256,
        now_nanos: u64,
        now_ms: i64,
    ) -> (handled: (usize, Vec<RetryProposal>))
        requires
            old(self).wf(),
            forall|txid: Seq<u8>| #[trigger]
                old(self)@.round_over(txid, now_nanos) && !old(self)@.rounds_used_up(txid)
                    ==> old(self)@.timevote.fallback_rounds[txid].0 < u64::MAX,
        ensures
            final(self).wf(),
            final(self)@ == old(self)@.with_rounds_over(
                old(self)@.all_rounds_over(now_nanos),
                now_nanos,
                now_ms,
            ),
            handled.0 == rounds_dealt_with(old(self)@, old(self)@.all_rounds_over(now_nanos)),
            retry_proposals(
                handled.1@,
                old(self)@,
                old(self)@.all_rounds_over(now_nanos),
                prev_block_hash@,
            ),
    {
        let ghost before = self@;
        let due = self.rounds_due(now_nanos);
        let ghost all = views(due@);
        let avs = self.get_masternodes();
        let mut proposals: Vec<RetryProposal> = Vec::new();
        let mut handled: usize = 0;
        let mut i: usize = 0;
        proof {
            assert(views(avs@) =~= before.active_nodes());
            assert forall|k: Seq<u8>| #[trigger] all.contains(k) implies before.round_over(
                k,
                now_nanos,
            ) by {}
            assert(all.take(0).to_set() =~= Set::empty());
            assert(before.with_rounds_over(Set::empty(), now_nanos, now_ms).timevote
                =~= before.timevote);
            assert(self@ =~= before.with_rounds_over(all.take(0).to_set(), now_nanos, now_ms));
            assert(all.take(0).to_set().filter(|txid: Seq<u8>| before.rounds_used_up(txid))
                =~= Set::empty());
        }
        while i < due.len()
            invariant
                self.wf(),
                i <= due@.len(),
                all == views(due@),
                all.no_duplicates(),
                views(avs@) == before.active_nodes(),
                forall|k: Seq<u8>| #[trigger]
                    all.contains(k) ==> before.timevote.fallback_rounds.contains_key(k) && (
                    !before.rounds_used_up(k) ==> before.timevote.fallback_rounds[k].0 < u64::MAX),
                self@ == before.with_rounds_over(
                    all.take(i as int).to_set(),
                    now_nanos,
                    now_ms,
                ),
                handled <= i,
                handled == rounds_dealt_with(before, all.take(i as int).to_set()),
                all.take(i as int).to_set().finite(),
                retry_proposals(
                    proposals@,
                    before,
                    all.take(i as int).to_set(),
                    prev_block_hash@,
                ),
            decreases due@.len() - i,
        {
            let txid = due[i];
            let ghost at_i = i as int;
            let ghost seen = all.take(at_i).to_set();
            let ghost next = all.take(at_i + 1).to_set();
            let ghost state = self@;
            proof {
                assert(all[at_i] == txid@);
                assert(all.contains(txid@));
                lemma_take_set(all, at_i);
                lemma_one_more_round(before, seen, txid@, now_nanos, now_ms);
                lemma_dealt_with(before, seen, txid@);
            }
            let (slot_index, round_count, _started): (u64, u32, u64) = match self.timevote.fallback_rounds.get(
                &txid,
            ) {
                Some(found) => *found,
                None => {
                    assert(false);
                    (0, 0, 0)
                },
            };
            assert((slot_index, round_count, _started) == before.timevote.fallback_rounds[txid@]);
            let ghost made = proposals@;
            if round_count >= MAX_FALLBACK_ROUNDS {
                let rounds = decimal_text(MAX_FALLBACK_ROUNDS as u64);
                let reason = join3(
                    "Fallback failed after ",
                    rounds.as_str(),
                    " rounds, awaiting TimeLock sync",
                );
                self.transition_to_rejected_at(txid, reason, now_ms);
                handled = handled + 1;
                assert(self@ =~= before.with_rounds_over(next, now_nanos, now_ms));
                assert(retry_proposals(proposals@, before, next, prev_block_hash@));
            } else {
                let new_slot_index: u64 = slot_index + 1;
                let new_round_count: u32 = round_count + 1;
                self.timevote.fallback_rounds.insert(
                    txid,
                    (new_slot_index, new_round_count, now_nanos),
                );
                assert(self@.timevote =~= before.with_rounds_over(next, now_nanos, now_ms).timevote);
                assert(self@ =~= before.with_rounds_over(next, now_nanos, now_ms));
                assert(self@.timevote.timeproof_votes == state.timevote.timeproof_votes);
                assert(self@.timevote.accumulated_weight == state.timevote.accumulated_weight);
                let leader = compute_fallback_leader(&txid, new_slot_index, &avs, prev_block_hash);
                match leader {
                    Some(new_leader_id) => {
                        let mut ours = false;
                        match &self.identity {
                            Some(identity) => {
                                ours = same_text(
                                    identity.address.as_str(),
                                    new_leader_id.as_str(),
                                );
                            },
                            None => {},
                        }
                        assert(ours == before.leads_next(txid@, prev_block_hash@));
                        if ours {
                            let decision = match self.timevote.tx_status.get(&txid) {
                                Some(TransactionStatus::FallbackResolution { .. }) =>
                                    FallbackDecision::Accept,
                                _ => FallbackDecision::Reject,
                            };
                            proof {
                                let now_held = self@.timevote.tx_status;
                                assert(now_held.contains_key(txid@)
                                    == before.timevote.tx_status.contains_key(txid@));
                                assert(now_held.contains_key(txid@) ==> now_held[txid@]
                                    == before.timevote.tx_status[txid@]);
                                assert(now_held.contains_key(txid@)
                                    == self.timevote.tx_status@.contains_key(txid@));
                            }
                            assert(decision == before.retry_decision(txid@));
                            proposals.push(
                                RetryProposal { txid, slot_index: new_slot_index, decision },
                            );
                            proof {
                                assert forall|k: Seq<u8>|
                                    #[trigger] next.contains(k) && !before.rounds_used_up(k)
                                        && before.leads_next(
                                        k,
                                        prev_block_hash@,
                                    ) implies exists|x: int|
                                    0 <= x < proposals@.len() && (#[trigger] proposals@[x]).txid@
                                        == k by {
                                    if k == txid@ {
                                        assert(proposals@[made.len() as int].txid@ == k);
                                    } else {
                                        assert(seen.contains(k));
                                        let x = choose|x: int|
                                            0 <= x < made.len() && (#[trigger] made[x]).txid@ == k;
                                        assert(proposals@[x].txid@ == k);
                                    }
                                }
                            }
                        }
                        handled = handled + 1;
                    },
                    None => {
                        assert(before.active_nodes().len() == 0);
                    },
                }
                proof {
                    assert forall|k: Seq<u8>|
                        #[trigger] next.contains(k) && !before.rounds_used_up(k)
                            && before.leads_next(k, prev_block_hash@) implies exists|x: int|
                        0 <= x < proposals@.len() && (#[trigger] proposals@[x]).txid@ == k by {
                        if k != txid@ {
                            assert(seen.contains(k));
                            let x = choose|x: int|
                                0 <= x < made.len() && (#[trigger] made[x]).txid@ == k;
                            assert(proposals@[x].txid@ == k);
                        }
                    }
                    assert(retry_proposals(proposals@, before, next, prev_block_hash@));
                }
            }
            i = i + 1;
        }
        proof {
            assert(all.take(i as int) =~= all);
            assert forall|k: Seq<u8>| all.to_set().contains(k) <==> before.all_rounds_over(
                now_nanos,
            ).contains(k) by {
                assert(all.contains(k) <==> all.to_set().contains(k));
            }
            assert(all.to_set() =~= before.all_rounds_over(now_nanos));
        }
        (handled, proposals)
    }

    /// Deals with the fallback rounds that have timed out.
    pub fn check_fallback_timeouts(&mut self, prev_block_hash: &Hash256) -> (handled: (
        usize,
        Vec<RetryProposal>,
    ))
        requires
            old(self).wf(),
            forall|txid: Seq<u8>| #[trigger]
                old(self)@.timevote.fallback_rounds.contains_key(txid)
                    && old(self)@.timevote.is_in_fallback(txid) && !old(self)@.rounds_used_up(txid)
                    ==> old(self)@.timevote.fallback_rounds[txid].0 < u64::MAX,
        ensures
            final(self).wf(),
            exists|nanos: u64, ms: i64|
                final(self)@ == #[trigger] old(self)@.with_rounds_over(
                    old(self)@.all_rounds_over(nanos),
                    nanos,
                    ms,
                ) && handled.0 == rounds_dealt_with(
                    old(self)@,
                    old(self)@.all_rounds_over(nanos),
                ) && retry_proposals(
                    handled.1@,
                    old(self)@,
                    old(self)@.all_rounds_over(nanos),
                    prev_block_hash@,
                ),
    {
        let nanos: u64 = self.timevote.clock.nanos();
        let ms: i64 = utc_millis();
        self.check_fallback_timeouts_at(prev_block_hash, nanos, ms)
    }

    /// Settles everything that is in the fallback when a block is made, at a
    /// time. Says whether there was anything.
    pub fn resolve_stalls_via_timelock_at(&mut self, now_ms: i64, pending: &PendingInputs) -> (resolved:
        bool)
        requires
            old(self).wf(),
            pending.wf(),
        ensures
            final(self).wf(),
            resolved == (exists|txid: Seq<u8>| #[trigger] old(self)@.timevote.is_in_fallback(txid)),
            final(self)@ == old(self)@.with_block_resolution(now_ms, pending@),
    {
        let ghost before = self@;
        let stalled = select(
            &self.timevote.tx_status,
            &OfKind { kind: StatusKind::FallbackResolution },
        );
        let ghost all = views(stalled@);
        proof {
            assert forall|k: Seq<u8>| all.to_set().contains(k) <==> before.all_in_fallback().contains(
                k,
            ) by {
                assert(all.contains(k) <==> all.to_set().contains(k));
            }
            assert(all.to_set() =~= before.all_in_fallback());
        }
        if stalled.len() == 0 {
            proof {
                assert forall|txid: Seq<u8>| !#[trigger] before.timevote.is_in_fallback(txid) by {
                    assert(!all.contains(txid));
                }
                assert(before.all_in_fallback() =~= Set::empty());
            }
            return false;
        }
        self.record_timelock_resolution();
        let ghost counted = self@;
        let mut i: usize = 0;
        proof {
            assert(all[0] == stalled@[0]@);
            assert(all.contains(all[0]));
            assert(before.timevote.is_in_fallback(all[0]));
            assert(before.all_in_fallback().contains(all[0]));
            assert(all.take(0).to_set() =~= Set::empty());
            let start = counted.with_settled_by_block(Set::empty(), now_ms, pending@);
            assert(start.timevote.fallback_votes =~= counted.timevote.fallback_votes);
            assert(start.timevote =~= counted.timevote);
            assert(self@ =~= counted.with_settled_by_block(all.take(0).to_set(), now_ms, pending@));
        }
        while i < stalled.len()
            invariant
                self.wf(),
                pending.wf(),
                i <= stalled@.len(),
                all == views(stalled@),
                all.no_duplicates(),
                forall|k: Seq<u8>| #[trigger]
                    all.contains(k) ==> counted.timevote.is_in_fallback(k),
                self@ == counted.with_settled_by_block(
                    all.take(i as int).to_set(),
                    now_ms,
                    pending@,
                ),
            decreases stalled@.len() - i,
        {
            let txid = stalled[i];
            let ghost at_i = i as int;
            let ghost seen = all.take(at_i).to_set();
            let ghost state = self@;
            proof {
                assert(all[at_i] == txid@);
                assert(all.contains(txid@));
                lemma_take_set(all, at_i);
                lemma_one_more_settled(counted, seen, txid@, now_ms, pending@);
            }
            let mut accept = false;
            match self.timevote.tx_state.get(&txid) {
                Some(voting_state) => match voting_state.preference {
                    Preference::Accept => {
                        accept = self.is_transaction_still_valid(&txid, pending);
                    },
                    Preference::Reject => {},
                },
                None => {},
            }
            assert(accept == counted.block_accepts(txid@, pending@));
            if accept {
                self.transition_to_finalized_at(txid, 0, now_ms);
            } else {
                self.transition_to_rejected_at(
                    txid,
                    String::from_str("TimeLock fallback rejected"),
                    now_ms,
                );
            }
            let ghost settled = self@;
            let proposals = self.detect_multiple_proposals(&txid);
            drop_all(&mut self.timevote.fallback_votes, &proposals);
            proof {
                let gone = counted.timevote.proposal_to_tx.dom().filter(
                    |p: Seq<u8>| counted.timevote.proposal_to_tx[p] == txid@,
                );
                assert forall|p: Seq<u8>| views(proposals@).to_set().contains(p) <==> gone.contains(
                    p,
                ) by {
                    assert(views(proposals@).contains(p) <==> views(proposals@).to_set().contains(p));
                }
                assert(views(proposals@).to_set() =~= gone);
                assert(self@.timevote.timeproof_votes == settled.timevote.timeproof_votes);
                assert(self@.timevote.accumulated_weight == settled.timevote.accumulated_weight);
                assert(self@.timevote.fallback_votes =~= settled.timevote.fallback_votes.remove_keys(
                    gone,
                ));
                let expected = counted.with_settled_by_block(
                    seen.insert(txid@),
                    now_ms,
                    pending@,
                );
                assert(self@.timevote =~= expected.timevote);
                assert(self@ =~= expected);
            }
            i = i + 1;
        }
        proof {
            assert(all.take(i as int) =~= all);
            let after = before.with_settled_by_block(before.all_in_fallback(), now_ms, pending@);
            let expected = before.with_block_resolution(now_ms, pending@);
            assert forall|txid: Seq<u8>|
                counted.block_accepts(txid, pending@) == before.block_accepts(txid, pending@) by {}
            assert(self@.timevote.tx_status =~= expected.timevote.tx_status);
            assert(self@.timevote =~= expected.timevote);
            assert(self@ =~= expected);
        }
        true
    }

    /// Settles everything that is in the fallback when a block is made.
    pub fn resolve_stalls_via_timelock(&mut self, pending: &PendingInputs) -> (resolved: bool)
        requires
            old(self).wf(),
            pending.wf(),
        ensures
            final(self).wf(),
            resolved == (exists|txid: Seq<u8>| #[trigger] old(self)@.timevote.is_in_fallback(txid)),
            exists|ms: i64|
                final(self)@ == #[trigger] old(self)@.with_block_resolution(ms, pending@),
    {
        let ms: i64 = utc_millis();
        self.resolve_stalls_via_timelock_at(ms, pending)
    }

    /// Makes and signs the report that a transaction is stuck in voting, at a
    /// time. `message` holds the bytes that the report is signed over.
    pub fn broadcast_liveness_alert_at(
        &self,
        txid: Hash256,
        slot_index: u64,
        message: &[u8],
        now_ms: i64,
    ) -> (made: Result<LivenessAlert, String>)
        requires
            self.wf(),
        ensures
            (match made {
                Ok(alert) => Ok(alert@),
                Err(text) => Err(text@),
            }) == self@.alert_for(txid@, slot_index, message@, now_ms),
    {
        match &self.identity {
            None => Err(String::from_str("Node identity not set")),
            Some(identity) => {
                let hex = hex_encode(&txid);
                match self.timevote.tx_status.get(&txid) {
                    None => Err(join3("Transaction ", hex.as_str(), " not found")),
                    Some(TransactionStatus::Voting { confidence, started_at, .. }) => {
                        let elapsed: i128 = (now_ms as i128) - (*started_at as i128);
                        let stall_duration_ms: u64 = if elapsed > 0 {
                            elapsed as u64
                        } else {
                            0
                        };
                        let poll_history: Vec<PollResult> = Vec::new();
                        assert(views(poll_history@) =~= seq![]);
                        Ok(
                            identity.sign_liveness_alert(
                                1,
                                txid,
                                txid,
                                slot_index,
                                poll_history,
                                stall_duration_ms,
                                *confidence,
                                message,
                            ),
                        )
                    },
                    Some(_) => Err(join3("Transaction ", hex.as_str(), " not in Voting state")),
                }
            },
        }
    }

    /// Makes and signs the report that a transaction is stuck in voting. `message`
    /// holds the bytes that the report is signed over.
    pub fn broadcast_liveness_alert(&self, txid: Hash256, slot_index: u64, message: &[u8]) -> (made:
        Result<LivenessAlert, String>)
        requires
            self.wf(),
        ensures
            exists|ms: i64|
                (match made {
                    Ok(alert) => Ok(alert@),
                    Err(text) => Err(text@),
                }) == #[trigger] self@.alert_for(txid@, slot_index, message@, ms),
    {
        let ms: i64 = utc_millis();
        self.broadcast_liveness_alert_at(txid, slot_index, message, ms)
    }

    /// Makes and signs a proposal for a transaction. `message` holds the bytes
    /// that the proposal is signed over.
    pub fn broadcast_finality_proposal(
        &self,
        txid: Hash256,
        slot_index: u64,
        decision: FallbackDecision,
        message: &[u8],
    ) -> (made: Result<FinalityProposal, String>)
        ensures
            (match made {
                Ok(proposal) => Ok(proposal@),
                Err(text) => Err(text@),
            }) == self@.proposal_for(txid@, slot_index, decision, message@),
    {
        match &self.identity {
            None => Err(String::from_str("Node identity not set")),
            Some(identity) => {
                let slot = decimal_text(slot_index);
                let justification = join2("Fallback decision for slot ", slot.as_str());
                Ok(
                    identity.sign_finality_proposal(
                        1,
                        txid,
                        txid,
                        slot_index,
                        decision,
                        justification,
                        message,
                    ),
                )
            },
        }
    }

    /// Makes and signs a vote on a proposal. `message` holds the bytes that the
    /// vote is signed over.
    pub fn broadcast_fallback_vote(
        &self,
        proposal_hash: Hash256,
        vote: FallbackVoteDecision,
        voter_weight: u64,
        message: &[u8],
    ) -> (made: Result<FallbackVote, String>)
        ensures
            match made {
                Ok(signed) => self@.identity matches Some(identity) && signed@ == (FallbackVoteV {
                    chain_id: 1,
                    proposal_hash: proposal_hash@,
                    vote,
                    voter_mn_id: identity.address,
                    voter_weight,
                    voter_signature: ed25519_signature(identity.signing_key, message@),
                }),
                Err(text) => self@.identity is None && text@ == "Node identity not set"@,
            },
    {
        match &self.identity {
            None => Err(String::from_str("Node identity not set")),
            Some(identity) => Ok(
                identity.sign_fallback_vote(1, proposal_hash, vote, voter_weight, message),
            ),
        }
    }

    /// Proposes what this node prefers for a transaction that it leads, and
    /// starts the round at a clock reading. A node that does not lead the round
    /// among the validators of the snapshot is turned away. `message` holds the
    /// bytes that the proposal is signed over.
    pub fn execute_fallback_as_leader_at(
        &mut self,
        txid: Hash256,
        slot_index: u64,
        round: u32,
        avs: &AVSSnapshot,
        message: &[u8],
        now_nanos: u64,
    ) -> (made: Result<FinalityProposal, String>)
        requires
            old(self).wf(),
        ensures
            final(self).wf(),
            (match made {
                Ok(proposal) => Ok(proposal@),
                Err(text) => Err(text@),
            }) == old(self)@.leader_proposal(txid@, slot_index, round, avs@, message@),
            final(self)@ == (if made is Ok {
                EngineV {
                    timevote: ConsensusV {
                        fallback_rounds: old(self)@.timevote.fallback_rounds.insert(
                            txid@,
                            (slot_index, round, now_nanos),
                        ),
                        ..old(self)@.timevote
                    },
                    ..old(self)@
                }
            } else {
                old(self)@
            }),
    {
        let ghost before = self@;
        let prev = self.get_prev_block_hash();
        if self.identity.is_some() && !self.is_fallback_leader(
            txid,
            slot_index,
            round,
            avs,
            &prev,
        ) {
            let hex = hex_encode(&txid);
            return Err(join2("Not the fallback leader of transaction ", hex.as_str()));
        }
        let decision = self.determine_fallback_decision(&txid);
        let proposal = match self.broadcast_finality_proposal(txid, slot_index, decision, message) {
            Ok(proposal) => proposal,
            Err(text) => {
                return Err(text);
            },
        };
        self.timevote.fallback_rounds.insert(txid, (slot_index, round, now_nanos));
        assert(self@.timevote =~= ConsensusV {
            fallback_rounds: before.timevote.fallback_rounds.insert(
                txid@,
                (slot_index, round, now_nanos),
            ),
            ..before.timevote
        });
        Ok(proposal)
    }

    /// Proposes what this node prefers for a transaction that it leads. A node
    /// that does not lead the round among the validators of the snapshot is turned
    /// away.
    pub fn execute_fallback_as_leader(
        &mut self,
        txid: Hash256,
        slot_index: u64,
        round: u32,
        avs: &AVSSnapshot,
        message: &[u8],
    ) -> (made: Result<FinalityProposal, String>)
        requires
            old(self).wf(),
        ensures
            final(self).wf(),
            (match made {
                Ok(proposal) => Ok(proposal@),
                Err(text) => Err(text@),
            }) == old(self)@.leader_proposal(txid@, slot_index, round, avs@, message@),
            made is Err ==> final(self)@ == old(self)@,
            made is Ok ==> exists|nanos: u64|
                final(self)@ == (EngineV {
                    timevote: ConsensusV {
                        fallback_rounds: #[trigger] old(self)@.timevote.fallback_rounds.insert(
                            txid@,
                            (slot_index, round, nanos),
                        ),
                        ..old(self)@.timevote
                    },
                    ..old(self)@
                }),
    {
        let nanos: u64 = self.timevote.clock.nanos();
        self.execute_fallback_as_leader_at(txid, slot_index, round, avs, message, nanos)
    }
}

impl EngineV {
    /// What the node prefers for a transaction.
    pub open spec fn preferred_decision(self, txid: Seq<u8>) -> FallbackDecision {
        match at(self.timevote.tx_state, txid) {
            Some(state) if state.preference == Preference::Accept => FallbackDecision::Accept,
            _ => FallbackDecision::Reject,
        }
    }

    /// The report that a transaction is stuck, or why there is none.
    pub open spec fn alert_for(
        self,
        txid: Seq<u8>,
        slot_index: u64,
        message: Seq<u8>,
        now_ms: i64,
    ) -> Result<LivenessAlertV, Seq<char>> {
        match self.identity {
            None => Err("Node identity not set"@),
            Some(identity) => match at(self.timevote.tx_status, txid) {
                None => Err("Transaction "@ + hex_text(txid) + " not found"@),
                Some(TransactionStatusV::Voting { confidence, started_at, .. }) => Ok(
                    LivenessAlertV {
                        chain_id: 1,
                        txid,
                        tx_hash_commitment: txid,
                        slot_index,
                        poll_history: seq![],
                        current_confidence: confidence,
                        stall_duration_ms: (if now_ms > started_at {
                            (now_ms - started_at) as u64
                        } else {
                            0
                        }),
                        reporter_mn_id: identity.address,
                        reporter_signature: ed25519_signature(identity.signing_key, message),
                    },
                ),
                Some(_) => Err("Transaction "@ + hex_text(txid) + " not in Voting state"@),
            },
        }
    }

    /// What the leader of a round proposes for a transaction, or why nothing is
    /// proposed.
    pub open spec fn leader_proposal(
        self,
        txid: Seq<u8>,
        slot_index: u64,
        round: u32,
        avs: AVSSnapshotV,
        message: Seq<u8>,
    ) -> Result<FinalityProposalV, Seq<char>> {
        if self.identity is Some && !self.leads(
            txid,
            slot_index,
            round,
            avs,
            self.prev_block_hash,
        ) {
            Err("Not the fallback leader of transaction "@ + hex_text(txid))
        } else {
            self.proposal_for(txid, slot_index, self.preferred_decision(txid), message)
        }
    }

    /// The proposal for a transaction, or why there is none.
    pub open spec fn proposal_for(
        self,
        txid: Seq<u8>,
        slot_index: u64,
        decision: FallbackDecision,
        message: Seq<u8>,
    ) -> Result<FinalityProposalV, Seq<char>> {
        match self.identity {
            None => Err("Node identity not set"@),
            Some(identity) => Ok(
                FinalityProposalV {
                    chain_id: 1,
                    txid,
                    tx_hash_commitment: txid,
                    slot_index,
                    decision,
                    justification: "Fallback decision for slot "@ + decimal(slot_index as nat),
                    leader_mn_id: identity.address,
                    leader_signature: ed25519_signature(identity.signing_key, message),
                },
            ),
        }
    }
}

proof fn lemma_dealt_with(held: EngineV, seen: Set<Seq<u8>>, txid: Seq<u8>)
    requires
        !seen.contains(txid),
        seen.finite(),
    ensures
        rounds_dealt_with(held, seen.insert(txid)) == rounds_dealt_with(held, seen) + (
        if held.active_nodes().len() > 0 || held.rounds_used_up(txid) {
            1int
        } else {
            0int
        }),
        seen.insert(txid).finite(),
{
    let used = |t: Seq<u8>| held.rounds_used_up(t);
    let before = seen.filter(|t: Seq<u8>| held.rounds_used_up(t));
    let after = seen.insert(txid).filter(|t: Seq<u8>| held.rounds_used_up(t));
    if held.rounds_used_up(txid) {
        assert(after =~= before.insert(txid));
        assert(!before.contains(txid));
    } else {
        assert(after =~= before);
    }
    seen.lemma_len_filter(used);
    assert(before =~= seen.filter(used));
}

/// After a block settled the fallback, nothing is in it any more.
pub proof fn block_leaves_no_fallback(
    held: EngineV,
    now_ms: i64,
    pending: Map<Seq<u8>, Vec<Option<UTXOState>>>,
    txid: Seq<u8>,
)
    ensures
        !held.with_block_resolution(now_ms, pending).timevote.is_in_fallback(txid),
{
    if held.timevote.is_in_fallback(txid) {
        assert(held.all_in_fallback().contains(txid));
    }
}

/// A round that timed out and is not the last one moves to the next slot, so that
/// the election is held on other hashes.
pub proof fn timed_out_round_rotates(held: EngineV, txid: Seq<u8>, now_nanos: u64, now_ms: i64)
    requires
        held.round_over(txid, now_nanos),
        !held.rounds_used_up(txid),
        held.timevote.fallback_rounds[txid].0 < u64::MAX,
    ensures
        ({
            let before = held.timevote.fallback_rounds[txid];
            let rounds = held.with_rounds_over(
                held.all_rounds_over(now_nanos),
                now_nanos,
                now_ms,
            ).timevote.fallback_rounds;
            &&& rounds.contains_key(txid)
            &&& rounds[txid].0 == before.0 + 1
            &&& rounds[txid].1 == before.1 + 1
            &&& rounds[txid].2 == now_nanos
        }),
{
    assert(held.all_rounds_over(now_nanos).contains(txid));
}

/// A round that has not timed out is left as it is.
pub proof fn running_round_is_left(held: EngineV, txid: Seq<u8>, now_nanos: u64, now_ms: i64)
    requires
        !held.round_over(txid, now_nanos),
    ensures
        ({
            let after = held.with_rounds_over(
                held.all_rounds_over(now_nanos),
                now_nanos,
                now_ms,
            ).timevote;
            &&& at(after.fallback_rounds, txid) == at(held.timevote.fallback_rounds, txid)
            &&& at(after.tx_status, txid) == at(held.timevote.tx_status, txid)
        }),
{
}

/// A count after some more, from the largest number on to zero.
pub open spec fn bumped_by(n: usize, times: nat) -> usize
    decreases times,
{
    if times == 0 {
        n
    } else {
        bumped(bumped_by(n, (times - 1) as nat))
    }
}

/// The leader of a slot is a masternode of the list, and nobody's hash of the
/// transaction, the slot, the latest block and their public key is below theirs.
pub proof fn leader_hash_is_least(
    txid: Seq<u8>,
    slot_index: u64,
    avs: Seq<MasternodeV>,
    prev_block_hash: Seq<u8>,
    i: int,
)
    requires
        0 <= i < avs.len(),
    ensures
        exists|k: int|
            0 <= k < avs.len() && leader_of(txid, slot_index, avs, prev_block_hash) == Some(
                (#[trigger] avs[k]).address,
            ) && !precedes(
                sha256(
                    txid + spec_u64_to_le_bytes(slot_index) + prev_block_hash + avs[i].public_key,
                ),
                sha256(
                    txid + spec_u64_to_le_bytes(slot_index) + prev_block_hash + avs[k].public_key,
                ),
            ),
        leader_of(txid, slot_index, seq![], prev_block_hash) is None,
{
    let scores = leader_scores(txid, slot_index, avs, prev_block_hash);
    leader_has_least_score(scores, i);
    let k = first_least(scores);
    assert(scores[k] == leader_score(txid, slot_index, prev_block_hash, avs[k].public_key));
    assert(scores[i] == leader_score(txid, slot_index, prev_block_hash, avs[i].public_key));
    assert(leader_of(txid, slot_index, avs, prev_block_hash) == Some(avs[k].address));
}

/// The leader of a slot and a round is a validator of the snapshot, and nobody's hash
/// of the transaction, the slot, the round, the latest block and their public key is
/// below theirs.
pub proof fn round_leader_hash_is_least(
    nodes: Seq<MasternodeInfoV>,
    txid: Seq<u8>,
    slot_index: u64,
    round: u32,
    avs: AVSSnapshotV,
    prev_block_hash: Seq<u8>,
    i: int,
)
    requires
        0 <= i < avs.validators.len(),
        node_at(nodes, avs.validators[i].address) is Some,
    ensures
        ({
            let head = txid + spec_u64_to_le_bytes(slot_index) + spec_u32_to_le_bytes(round)
                + prev_block_hash;
            let key = node_at(nodes, avs.validators[i].address)->0.masternode.public_key;
            precedes(sha256(head + key), top_score()) ==> exists|k: int|
                0 <= k < avs.validators.len() && round_leader(
                    nodes,
                    txid,
                    slot_index,
                    round,
                    avs,
                    prev_block_hash,
                ) == Some((#[trigger] avs.validators[k]).address) && !precedes(
                    sha256(head + key),
                    sha256(head + candidate_id(nodes, avs.validators[k].address)),
                )
        }),
{
    let scores = round_scores(nodes, txid, slot_index, round, avs.validators, prev_block_hash);
    if precedes(scores[i], top_score()) {
        round_leader_has_least_score(scores, i);
        let k = elected(scores)->0;
        assert(round_leader(nodes, txid, slot_index, round, avs, prev_block_hash) == Some(
            avs.validators[k].address,
        ));
    }
}

/// A node leads where the leader has its address, and a node without an identity
/// leads nowhere.
pub proof fn leaders_know_themselves(
    held: EngineV,
    txid: Seq<u8>,
    slot_index: u64,
    round: u32,
    avs: AVSSnapshotV,
    prev_block_hash: Seq<u8>,
)
    ensures
        held.identity is None ==> !held.leads(txid, slot_index, round, avs, prev_block_hash),
        held.identity matches Some(own) ==> (held.leads(
            txid,
            slot_index,
            round,
            avs,
            prev_block_hash,
        ) <==> round_leader(
            held.timevote.registry.nodes,
            txid,
            slot_index,
            round,
            avs,
            prev_block_hash,
        ) == Some(own.address)),
{
}

/// A transaction is stuck exactly when it has been in voting for more than half a
/// minute, is still pending and none of its inputs is spent for good.
pub proof fn stuck_means_half_a_minute_in_voting(
    held: EngineV,
    txid: Seq<u8>,
    now_ms: i64,
    pending: Map<Seq<u8>, Vec<Option<UTXOState>>>,
)
    ensures
        held.stuck(txid, now_ms, pending) <==> {
            &&& held.timevote.tx_status.contains_key(txid)
            &&& held.timevote.tx_status[txid] matches TransactionStatusV::Voting {
                started_at,
                ..
            } && now_ms - started_at > 30_000
            &&& pending.contains_key(txid)
            &&& forall|i: int|
                0 <= i < pending[txid]@.len() ==> !(#[trigger] pending[txid]@[i] matches Some(
                    UTXOState::SpentFinalized { .. },
                )) && !(pending[txid]@[i] matches Some(UTXOState::Archived { .. }))
        },
{
    if pending.contains_key(txid) {
        let states = pending[txid]@;
        assert forall|i: int| 0 <= i < states.len() implies (spent_for_good(#[trigger] states[i])
            <==> (states[i] matches Some(UTXOState::SpentFinalized { .. })) || (
        states[i] matches Some(UTXOState::Archived { .. }))) by {}
    }
}

/// A round is over when it has run for more than ten seconds. After the fifth round a
/// transaction is rejected and nothing of its fallback is left; before that its status
/// stays as it is.
pub proof fn fifth_round_is_the_last(held: EngineV, txid: Seq<u8>, now_nanos: u64, now_ms: i64)
    requires
        held.timevote.is_in_fallback(txid),
        held.timevote.fallback_rounds.contains_key(txid),
    ensures
        held.round_over(txid, now_nanos) <==> now_nanos - held.timevote.fallback_rounds[txid].2
            > 10_000_000_000,
        ({
            let after = held.with_rounds_over(
                held.all_rounds_over(now_nanos),
                now_nanos,
                now_ms,
            ).timevote;
            held.round_over(txid, now_nanos) ==> if held.timevote.fallback_rounds[txid].1 >= 5 {
                &&& after.tx_status[txid] matches TransactionStatusV::Rejected {
                    rejected_at,
                    ..
                } && rejected_at == now_ms
                &&& !after.fallback_rounds.contains_key(txid)
                &&& !after.stall_timers.contains_key(txid)
                &&& !after.liveness_alerts.contains_key(txid)
            } else {
                &&& after.tx_status[txid] == held.timevote.tx_status[txid]
                &&& after.is_in_fallback(txid)
            }
        }),
{
    if held.round_over(txid, now_nanos) {
        assert(held.all_rounds_over(now_nanos).contains(txid));
    }
}

/// All rounds that are over are dealt with, or only the used-up ones where nobody is
/// there to lead a next round.
pub proof fn rounds_over_are_counted(held: EngineV, over: Set<Seq<u8>>)
    requires
        over.finite(),
    ensures
        held.timevote.registry.active().len() > 0 ==> rounds_dealt_with(held, over) == over.len(),
        held.timevote.registry.active().len() == 0 && (forall|txid: Seq<u8>| #[trigger]
            over.contains(txid) ==> held.timevote.fallback_rounds[txid].1 < 5)
            ==> rounds_dealt_with(held, over) == 0,
        held.timevote.registry.active().len() == 0 && (forall|txid: Seq<u8>| #[trigger]
            over.contains(txid) ==> held.timevote.fallback_rounds[txid].1 >= 5)
            ==> rounds_dealt_with(held, over) == over.len(),
{
    let kept = over.filter(|txid: Seq<u8>| held.rounds_used_up(txid));
    if forall|txid: Seq<u8>| #[trigger]
        over.contains(txid) ==> held.timevote.fallback_rounds[txid].1 < 5 {
        assert(kept =~= Set::empty());
    }
    if forall|txid: Seq<u8>| #[trigger]
        over.contains(txid) ==> held.timevote.fallback_rounds[txid].1 >= 5 {
        assert(kept =~= over);
    }
}

/// A block settles every transaction in the fallback: what the node prefers to accept
/// and what can still become final is final, everything else is rejected. Whatever is
/// not in the fallback keeps its status.
pub proof fn blocks_settle_the_fallback(
    held: EngineV,
    now_ms: i64,
    pending: Map<Seq<u8>, Vec<Option<UTXOState>>>,
    txid: Seq<u8>,
)
    ensures
        ({
            let after = held.with_block_resolution(now_ms, pending).timevote;
            let wanted = held.timevote.tx_state.contains_key(txid)
                && held.timevote.tx_state[txid].preference == Preference::Accept
                && held.still_valid(txid, pending);
            if held.timevote.is_in_fallback(txid) {
                &&& wanted ==> after.tx_status[txid] == (TransactionStatusV::Finalized {
                    finalized_at: now_ms,
                    vfp_weight: 0,
                })
                &&& !wanted ==> (after.tx_status[txid] matches TransactionStatusV::Rejected {
                    rejected_at,
                    ..
                } && rejected_at == now_ms)
                &&& !after.fallback_rounds.contains_key(txid)
                &&& !after.liveness_alerts.contains_key(txid)
                &&& !after.stall_timers.contains_key(txid)
            } else {
                &&& at(after.tx_status, txid) == at(held.timevote.tx_status, txid)
                &&& at(after.fallback_rounds, txid) == at(held.timevote.fallback_rounds, txid)
            }
        }),
{
    if held.timevote.is_in_fallback(txid) {
        assert(held.all_in_fallback().contains(txid));
    }
}

/// Votes on a proposal are dropped with the transaction that it was for, and only then.
pub proof fn settled_proposals_lose_their_votes(
    held: EngineV,
    now_ms: i64,
    pending: Map<Seq<u8>, Vec<Option<UTXOState>>>,
    proposal: Seq<u8>,
)
    requires
        held.timevote.fallback_votes.contains_key(proposal),
    ensures
        ({
            let after = held.with_block_resolution(now_ms, pending).timevote;
            let gone = held.timevote.proposal_to_tx.contains_key(proposal)
                && held.timevote.is_in_fallback(held.timevote.proposal_to_tx[proposal]);
            &&& gone <==> !after.fallback_votes.contains_key(proposal)
            &&& !gone ==> after.fallback_votes[proposal] == held.timevote.fallback_votes[proposal]
        }),
{
    if held.timevote.proposal_to_tx.contains_key(proposal) {
        let txid = held.timevote.proposal_to_tx[proposal];
        if held.timevote.is_in_fallback(txid) {
            assert(held.all_in_fallback().contains(txid));
        }
    }
}

/// A leader proposes what the node prefers, and to reject where it has no preference.
pub proof fn leaders_propose_their_preference(held: EngineV, txid: Seq<u8>)
    ensures
        held.preferred_decision(txid) == FallbackDecision::Accept
            <==> held.timevote.tx_state.contains_key(txid)
            && held.timevote.tx_state[txid].preference == Preference::Accept,
        held.preferred_decision(txid) == FallbackDecision::Reject
            <==> !held.timevote.tx_state.contains_key(txid)
            || held.timevote.tx_state[txid].preference == Preference::Reject,
{
}

/// Only the leader of a round proposes. The proposal names the transaction, the slot,
/// the decision and the leader, and bears the leader's signature.
pub proof fn proposals_come_from_the_leader(
    held: EngineV,
    txid: Seq<u8>,
    slot_index: u64,
    round: u32,
    avs: AVSSnapshotV,
    message: Seq<u8>,
)
    ensures
        ({
            let made = held.leader_proposal(txid, slot_index, round, avs, message);
            &&& made is Ok <==> held.leads(txid, slot_index, round, avs, held.prev_block_hash)
            &&& made matches Ok(proposal) ==> {
                &&& held.identity matches Some(own) && proposal.leader_mn_id == own.address
                    && proposal.leader_signature == ed25519_signature(own.signing_key, message)
                &&& proposal.txid == txid
                &&& proposal.slot_index == slot_index
                &&& proposal.decision == held.preferred_decision(txid)
            }
        }),
{
}

/// A report of a stall names the transaction, the slot and the reporter, says how long
/// voting has lasted, and bears the reporter's signature. There is none without an
/// identity, nor for a transaction that is not in voting.
pub proof fn reports_tell_of_voting(
    held: EngineV,
    txid: Seq<u8>,
    slot_index: u64,
    message: Seq<u8>,
    now_ms: i64,
)
    ensures
        ({
            let made = held.alert_for(txid, slot_index, message, now_ms);
            &&& made is Ok <==> held.identity is Some && held.timevote.tx_status.contains_key(txid)
                && held.timevote.tx_status[txid] is Voting
            &&& made matches Ok(alert) ==> {
                &&& held.identity matches Some(own) && alert.reporter_mn_id == own.address
                    && alert.reporter_signature == ed25519_signature(own.signing_key, message)
                &&& alert.txid == txid
                &&& alert.slot_index == slot_index
                &&& held.timevote.tx_status[txid] matches TransactionStatusV::Voting {
                    started_at,
                    confidence,
                    ..
                } && alert.current_confidence == confidence && alert.stall_duration_ms == (
                if now_ms >= started_at {
                    now_ms - started_at
                } else {
                    0
                })
            }
        }),
{
}

/// The stalls that were seen add up.
pub proof fn stall_counts_add_up(n: usize, times: nat)
    requires
        n + times <= usize::MAX,
    ensures
        bumped_by(n, times) == n + times,
    decreases times,
{
    if times > 0 {
        stall_counts_add_up(n, (times - 1) as nat);
    }
}

/// When rounds are over, a node proposes to accept just those transactions that it
/// leads in the next slot and that have a round left.
pub proof fn next_leaders_propose_to_accept(
    proposals: Seq<RetryProposal>,
    held: EngineV,
    now_nanos: u64,
    prev_block_hash: Seq<u8>,
    txid: Seq<u8>,
)
    requires
        retry_proposals(proposals, held, held.all_rounds_over(now_nanos), prev_block_hash),
        held.timevote.fallback_rounds[txid].0 < u64::MAX,
    ensures
        (exists|i: int| 0 <= i < proposals.len() && (#[trigger] proposals[i]).txid@ == txid) <==> {
            &&& held.round_over(txid, now_nanos)
            &&& held.timevote.fallback_rounds[txid].1 < 5
            &&& held.identity matches Some(own) && leader_of(
                txid,
                (held.timevote.fallback_rounds[txid].0 + 1) as u64,
                held.active_nodes(),
                prev_block_hash,
            ) == Some(own.address)
        },
        forall|i: int|
            0 <= i < proposals.len() && (#[trigger] proposals[i]).txid@ == txid
                ==> proposals[i].decision == FallbackDecision::Accept && proposals[i].slot_index
                == held.timevote.fallback_rounds[txid].0 + 1,
{
    if held.round_over(txid, now_nanos) {
        assert(held.all_rounds_over(now_nanos).contains(txid));
    }
}

/// A transaction can still become final exactly when it is pending, none of its inputs is
/// spent for good and it was not rejected.
pub proof fn valid_transactions_can_become_final(
    held: EngineV,
    txid: Seq<u8>,
    pending: Map<Seq<u8>, Vec<Option<UTXOState>>>,
)
    ensures
        held.still_valid(txid, pending) <==> {
            &&& pending.contains_key(txid)
            &&& forall|i: int|
                0 <= i < pending[txid]@.len() ==> !(#[trigger] pending[txid]@[i] matches Some(
                    UTXOState::SpentFinalized { .. },
                )) && !(pending[txid]@[i] matches Some(UTXOState::Archived { .. }))
            &&& held.timevote.tx_status.contains_key(txid) ==> !(held.timevote.tx_status[txid]
                is Rejected)
        },
{
    if pending.contains_key(txid) {
        let states = pending[txid]@;
        assert forall|i: int| 0 <= i < states.len() implies (spent_for_good(#[trigger] states[i])
            <==> (states[i] matches Some(UTXOState::SpentFinalized { .. })) || (
        states[i] matches Some(UTXOState::Archived { .. }))) by {}
    }
}

/// A node has a duty exactly for a transaction in the fallback whose round it leads among
/// the validators of the current slot, and that it has not proposed for in that round.
pub proof fn duties_are_rounds_to_lead(
    held: EngineV,
    txid: Seq<u8>,
    current_slot: u64,
    avs: AVSSnapshotV,
    proposed: Seq<(Hash256, u64, u32)>,
)
    requires
        at(held.timevote.avs_snapshots, current_slot) == Some(avs),
        held.timevote.fallback_rounds.contains_key(txid),
    ensures
        ({
            let (slot, round, began) = held.timevote.fallback_rounds[txid];
            held.has_duty(txid, current_slot, proposed) <==> {
                &&& held.timevote.is_in_fallback(txid)
                &&& held.leads(txid, slot, round, avs, held.prev_block_hash)
                &&& forall|i: int|
                    0 <= i < proposed.len() && (#[trigger] proposed[i]).0@ == txid ==> !(
                    proposed[i].1 == slot && proposed[i].2 == round)
            }
        }),
{
}

/// A block that settles anything counts as one resolution, and one that settles nothing
/// changes nothing.
pub proof fn resolutions_are_counted(
    held: EngineV,
    now_ms: i64,
    pending: Map<Seq<u8>, Vec<Option<UTXOState>>>,
    txid: Seq<u8>,
)
    requires
        held.timevote.timelock_resolutions < usize::MAX,
    ensures
        held.timevote.is_in_fallback(txid) ==> held.with_block_resolution(
            now_ms,
            pending,
        ).timevote.timelock_resolutions == held.timevote.timelock_resolutions + 1,
        (forall|t: Seq<u8>| !#[trigger] held.timevote.is_in_fallback(t))
            ==> held.with_block_resolution(now_ms, pending) == held,
{
    if held.timevote.is_in_fallback(txid) {
        assert(held.all_in_fallback().contains(txid));
    }
    if forall|t: Seq<u8>| !#[trigger] held.timevote.is_in_fallback(t) {
        assert(held.all_in_fallback() =~= Set::empty());
    }
}

} // verus!
