//! Where transactions stand, reports of stalls, and votes on fallback proposals.

use crate::clock::{utc_millis, utc_seconds};
use crate::crypto::{hex_encode, hex_text};
use crate::engine::{with_sample, ConsensusEngine, EngineV, FINALITY_SAMPLES};
use crate::names::count_distinct;
use crate::select::{any, select, Condition};
use crate::sums::views;
use crate::text::{decimal, decimal_text, join3, join5, same_text, told};
use crate::thresholds::{alert_threshold, deciding_weight, fallback_quorum, honest_reports};
use crate::timevote::{at, bump, bumped, list_at, ConsensusV, Preference};
use crate::types::{
    option_view, same_hash, FallbackDecision, FallbackMetrics, FallbackVote, FallbackVoteDecision,
    FallbackVoteV, Hash256, LivenessAlert, LivenessAlertV, OutPoint, Transaction,
    TransactionStatus, TransactionStatusV, TransactionV, UTXOState,
};
use vstd::prelude::*;

verus! {

/// How long voting may take before it counts as stalled, in seconds.
pub const STALL_TIMEOUT: u64 = 30;

/// The least time that a fallback takes, in seconds.
pub const FALLBACK_MIN_DURATION: u64 = 20;

/// How long a fallback round may take, in seconds.
pub const FALLBACK_ROUND_TIMEOUT: u64 = 10;

/// How many fallback rounds are tried.
pub const MAX_FALLBACK_ROUNDS: u32 = 5;

/// A new state for an output.
#[derive(Debug)]
pub struct StateUpdate {
    pub outpoint: OutPoint,
    pub state: UTXOState,
}

/// Which kind of status a transaction has.
#[derive(Clone, Copy, Debug, PartialEq, Eq, Structural)]
pub enum StatusKind {
    Voting,
    FallbackResolution,
    Finalized,
    Rejected,
}

/// The kind of a status.
pub open spec fn kind_of(status: TransactionStatusV) -> StatusKind {
    match status {
        TransactionStatusV::Voting { .. } => StatusKind::Voting,
        TransactionStatusV::FallbackResolution { .. } => StatusKind::FallbackResolution,
        TransactionStatusV::Finalized { .. } => StatusKind::Finalized,
        TransactionStatusV::Rejected { .. } => StatusKind::Rejected,
    }
}

/// Tells the kind of a status.
pub fn status_kind(status: &TransactionStatus) -> (kind: StatusKind)
    ensures
        kind == kind_of(status@),
{
    match status {
        TransactionStatus::Voting { .. } => StatusKind::Voting,
        TransactionStatus::FallbackResolution { .. } => StatusKind::FallbackResolution,
        TransactionStatus::Finalized { .. } => StatusKind::Finalized,
        TransactionStatus::Rejected { .. } => StatusKind::Rejected,
    }
}

/// Has a status of a kind.
pub struct OfKind {
    pub kind: StatusKind,
}

impl Condition<TransactionStatus> for OfKind {
    open spec fn holds(&self, value: TransactionStatus) -> bool {
        kind_of(value@) == self.kind
    }

    fn check(&self, value: &TransactionStatus) -> (held: bool) {
        status_kind(value) == self.kind
    }
}

/// Whether a timer that was started at a reading has run longer than some seconds.
pub open spec fn ran_longer(started: u64, now: u64, seconds: u64) -> bool {
    now > started + seconds * 1_000_000_000
}

/// Has been running for longer than the stall timeout.
struct Stalled {
    now: u64,
}

impl Condition<u64> for Stalled {
    closed spec fn holds(&self, value: u64) -> bool {
        ran_longer(value, self.now, STALL_TIMEOUT)
    }

    fn check(&self, value: &u64) -> (held: bool) {
        self.now.saturating_sub(*value) > STALL_TIMEOUT * 1_000_000_000
    }
}

/// Points to a transaction.
struct Leads {
    txid: Hash256,
}

impl Condition<Hash256> for Leads {
    closed spec fn holds(&self, value: Hash256) -> bool {
        value@ == self.txid@
    }

    fn check(&self, value: &Hash256) -> (held: bool) {
        same_hash(value, &self.txid)
    }
}

/// Is flagged.
struct Flagged {}

impl Condition<bool> for Flagged {
    closed spec fn holds(&self, value: bool) -> bool {
        value
    }

    fn check(&self, value: &bool) -> (held: bool) {
        *value
    }
}

/// The slot of a time, counted from the Unix epoch.
pub open spec fn epoch_slot(now_secs: i64) -> u64 {
    (now_secs as u64) / 600
}

/// The reporters of some alerts.
pub open spec fn reporters_of(alerts: Seq<LivenessAlertV>) -> Seq<Seq<char>> {
    alerts.map_values(|a: LivenessAlertV| a.reporter_mn_id)
}

/// How many different reporters some alerts have.
pub open spec fn distinct_reporters(alerts: Seq<LivenessAlertV>) -> nat {
    reporters_of(alerts).to_set().len()
}

/// The weight of the votes of one kind.
pub open spec fn weight_for(votes: Seq<FallbackVoteV>, decision: FallbackVoteDecision) -> nat
    decreases votes.len(),
{
    if votes.len() == 0 {
        0
    } else {
        weight_for(votes.drop_last(), decision) + (if votes.last().vote == decision {
            votes.last().voter_weight as nat
        } else {
            0
        })
    }
}

/// What some votes decide with a quorum; approval first.
pub open spec fn fallback_outcome(votes: Seq<FallbackVoteV>, quorum: int) -> Option<
    FallbackVoteDecision,
> {
    if weight_for(votes, FallbackVoteDecision::Approve) >= quorum {
        Some(FallbackVoteDecision::Approve)
    } else if weight_for(votes, FallbackVoteDecision::Reject) >= quorum {
        Some(FallbackVoteDecision::Reject)
    } else {
        None
    }
}

/// Whether the weights of the votes of each kind can be added up.
pub open spec fn weights_fit(votes: Seq<FallbackVoteV>) -> bool {
    &&& weight_for(votes, FallbackVoteDecision::Approve) <= u64::MAX
    &&& weight_for(votes, FallbackVoteDecision::Reject) <= u64::MAX
}

/// How many votes there are on all proposals.
pub open spec fn vote_count(votes: Map<Seq<u8>, Seq<FallbackVoteV>>) -> nat {
    crate::sums::total(
        Map::new(|p: Seq<u8>| votes.contains_key(p), |p: Seq<u8>| votes[p].len()),
    )
}

impl ConsensusV {
    /// After a transaction went into voting.
    pub open spec fn voting(self, txid: Seq<u8>, now_ms: i64, now_nanos: u64) -> ConsensusV {
        ConsensusV {
            tx_status: self.tx_status.insert(
                txid,
                TransactionStatusV::Voting { confidence: 0, counter: 0, started_at: now_ms },
            ),
            stall_timers: self.stall_timers.insert(txid, now_nanos),
            ..self
        }
    }

    /// After a transaction became final: nothing of the fallback is left.
    pub open spec fn settled(self, txid: Seq<u8>, status: TransactionStatusV) -> ConsensusV {
        ConsensusV {
            tx_status: self.tx_status.insert(txid, status),
            stall_timers: self.stall_timers.remove(txid),
            fallback_rounds: self.fallback_rounds.remove(txid),
            liveness_alerts: self.liveness_alerts.remove(txid),
            ..self
        }
    }

    /// After a transaction went into the fallback.
    pub open spec fn in_fallback(
        self,
        txid: Seq<u8>,
        alerts_count: u32,
        now_ms: i64,
        now_secs: i64,
        now_nanos: u64,
    ) -> ConsensusV {
        ConsensusV {
            tx_status: self.tx_status.insert(
                txid,
                TransactionStatusV::FallbackResolution {
                    started_at: now_ms,
                    round: 0,
                    alerts_count,
                },
            ),
            stall_timers: self.stall_timers.remove(txid),
            fallback_rounds: self.fallback_rounds.insert(
                txid,
                (epoch_slot(now_secs), 0, now_nanos),
            ),
            ..self
        }
    }

    /// After a report of a stall.
    pub open spec fn with_alert(self, alert: LivenessAlertV, total_masternodes: int) -> ConsensusV {
        let alerts = list_at(self.liveness_alerts, alert.txid).push(alert);
        ConsensusV {
            liveness_alerts: self.liveness_alerts.insert(alert.txid, alerts),
            fallback_activations: if distinct_reporters(alerts) == honest_reports(
                total_masternodes,
            ) {
                bumped(self.fallback_activations)
            } else {
                self.fallback_activations
            },
            ..self
        }
    }

    /// After a vote on a proposal.
    pub open spec fn with_fallback_vote(self, vote: FallbackVoteV) -> ConsensusV {
        ConsensusV {
            fallback_votes: self.fallback_votes.insert(
                vote.proposal_hash,
                list_at(self.fallback_votes, vote.proposal_hash).push(vote),
            ),
            ..self
        }
    }

    /// Whether enough different reporters have reported a transaction to start the
    /// fallback.
    pub open spec fn reported_enough(self, txid: Seq<u8>, total_masternodes: int) -> bool {
        distinct_reporters(list_at(self.liveness_alerts, txid)) >= honest_reports(
            total_masternodes,
        )
    }

    /// How to vote on a proposal for a transaction.
    pub open spec fn vote_on(self, txid: Seq<u8>) -> FallbackVoteDecision {
        match at(self.tx_status, txid) {
            Some(TransactionStatusV::Voting { .. }) => FallbackVoteDecision::Approve,
            Some(TransactionStatusV::FallbackResolution { .. }) => FallbackVoteDecision::Approve,
            _ => FallbackVoteDecision::Reject,
        }
    }

    /// Whether the timer of a transaction has run out.
    pub open spec fn stalled(self, txid: Seq<u8>, now_nanos: u64) -> bool {
        self.stall_timers.contains_key(txid) && ran_longer(
            self.stall_timers[txid],
            now_nanos,
            STALL_TIMEOUT,
        )
    }

    /// Whether a list holds just the transactions whose timer has run out.
    pub open spec fn are_stalled(self, txids: Seq<Seq<u8>>, now_nanos: u64) -> bool {
        forall|txid: Seq<u8>| #[trigger] txids.contains(txid) <==> self.stalled(txid, now_nanos)
    }

    /// Whether a transaction is in the fallback.
    pub open spec fn is_in_fallback(self, txid: Seq<u8>) -> bool {
        self.tx_status.contains_key(txid) && kind_of(self.tx_status[txid])
            == StatusKind::FallbackResolution
    }
}

impl EngineV {
    /// The finality times once a transaction became final at a time. Only those
    /// that come straight from voting are measured.
    pub open spec fn measured(self, txid: Seq<u8>, now_ms: i64) -> Seq<u64> {
        match at(self.timevote.tx_status, txid) {
            Some(TransactionStatusV::Voting { started_at, .. }) => {
                let took = (if now_ms > started_at {
                    (now_ms - started_at) as u64
                } else {
                    0
                });
                with_sample(self.avg_finality_ms, took)
            },
            _ => self.avg_finality_ms,
        }
    }

    /// After a transaction became final.
    pub open spec fn with_final(self, txid: Seq<u8>, vfp_weight: u64, now_ms: i64) -> EngineV {
        EngineV {
            avg_finality_ms: self.measured(txid, now_ms),
            timevote: self.timevote.settled(
                txid,
                TransactionStatusV::Finalized { finalized_at: now_ms, vfp_weight },
            ),
            ..self
        }
    }

    /// After a transaction was rejected.
    pub open spec fn with_rejected(self, txid: Seq<u8>, reason: Seq<char>, now_ms: i64) -> EngineV {
        EngineV {
            timevote: self.timevote.settled(
                txid,
                TransactionStatusV::Rejected { rejected_at: now_ms, reason },
            ),
            ..self
        }
    }

    /// After a decision of the fallback.
    pub open spec fn with_fallback_decision(
        self,
        txid: Seq<u8>,
        decision: FallbackVoteDecision,
        weight: u64,
        now_ms: i64,
    ) -> EngineV {
        match decision {
            FallbackVoteDecision::Approve => self.with_final(txid, weight, now_ms),
            FallbackVoteDecision::Reject => self.with_rejected(
                txid,
                "Fallback consensus rejected"@,
                now_ms,
            ),
        }
    }
}

/// Whether updates make every input of a transaction pending.
pub open spec fn makes_pending(
    updates: Seq<StateUpdate>,
    tx: TransactionV,
    txid: Hash256,
    total_nodes: u32,
    now_secs: i64,
) -> bool {
    &&& updates.len() == tx.inputs.len()
    &&& forall|i: int|
        0 <= i < updates.len() ==> (#[trigger] updates[i]).outpoint@
            == tx.inputs[i].previous_output && updates[i].state == (UTXOState::SpentPending {
            txid,
            votes: 0,
            total_nodes,
            spent_at: now_secs,
        })
}

/// Whether updates are those that go with voting on a transaction: none where
/// the transaction is not pending.
pub open spec fn voting_updates(
    updates: Seq<StateUpdate>,
    pending: Option<&Transaction>,
    txid: Hash256,
    total_nodes: u32,
    now_secs: i64,
) -> bool {
    match pending {
        Some(tx) => makes_pending(updates, tx@, txid, total_nodes, now_secs),
        None => updates.len() == 0,
    }
}

fn reporters(alerts: &Vec<LivenessAlert>) -> (names: Vec<String>)
    ensures
        views(names@) == reporters_of(views(alerts@)),
{
    let mut names: Vec<String> = Vec::new();
    let mut i: usize = 0;
    while i < alerts.len()
        invariant
            i <= alerts@.len(),
            names@.len() == i,
            forall|j: int| 0 <= j < i ==> (#[trigger] names@[j])@ == alerts@[j].reporter_mn_id@,
        decreases alerts@.len() - i,
    {
        names.push(alerts[i].reporter_mn_id.clone());
        i = i + 1;
    }
    assert(views(names@) =~= reporters_of(views(alerts@)));
    names
}

proof fn lemma_weight_prefix(votes: Seq<FallbackVoteV>, decision: FallbackVoteDecision, i: int)
    requires
        0 <= i <= votes.len(),
    ensures
        weight_for(votes.take(i), decision) <= weight_for(votes, decision),
    decreases votes.len() - i,
{
    if i == votes.len() {
        assert(votes.take(i) =~= votes);
    } else {
        assert(votes.take(i + 1).drop_last() =~= votes.take(i));
        lemma_weight_prefix(votes, decision, i + 1);
    }
}

fn weigh_both(votes: &Vec<FallbackVote>) -> (weights: (u64, u64))
    requires
        weights_fit(views(votes@)),
    ensures
        weights.0 == weight_for(views(votes@), FallbackVoteDecision::Approve),
        weights.1 == weight_for(views(votes@), FallbackVoteDecision::Reject),
{
    let ghost all = views(votes@);
    let mut approve: u64 = 0;
    let mut reject: u64 = 0;
    let mut i: usize = 0;
    while i < votes.len()
        invariant
            i <= votes@.len(),
            all == views(votes@),
            approve == weight_for(all.take(i as int), FallbackVoteDecision::Approve),
            reject == weight_for(all.take(i as int), FallbackVoteDecision::Reject),
            weights_fit(all),
        decreases votes@.len() - i,
    {
        proof {
            assert(all.take(i + 1).drop_last() =~= all.take(i as int));
            assert(all.take(i + 1).last() == votes@[i as int]@);
            lemma_weight_prefix(all, FallbackVoteDecision::Approve, i + 1);
            lemma_weight_prefix(all, FallbackVoteDecision::Reject, i + 1);
        }
        match votes[i].vote {
            FallbackVoteDecision::Approve => {
                approve = approve + votes[i].voter_weight;
            },
            FallbackVoteDecision::Reject => {
                reject = reject + votes[i].voter_weight;
            },
        }
        i = i + 1;
    }
    assert(all.take(i as int) =~= all);
    (approve, reject)
}

/// Has a number of votes.
fn count_votes(table: &crate::table::Table<Hash256, Vec<FallbackVote>>) -> (count: usize)
    requires
        table.wf(),
        vote_count(crate::sums::lists(table@)) <= usize::MAX,
    ensures
        count == vote_count(crate::sums::lists(table@)),
{
    let ghost keys = table.keys();
    let ghost held = crate::sums::lists(table@);
    let ghost sizes = Map::new(
        |p: Seq<u8>| held.contains_key(p),
        |p: Seq<u8>| held[p].len(),
    );
    proof {
        table.lemma_keys();
        assert(sizes.dom() =~= table@.dom());
        crate::sums::lemma_sum_at_total(keys, sizes);
    }
    let n: usize = table.len();
    let mut count: usize = 0;
    let mut i: usize = 0;
    while i < n
        invariant
            table.wf(),
            keys == table.keys(),
            held == crate::sums::lists(table@),
            sizes == Map::new(|p: Seq<u8>| held.contains_key(p), |p: Seq<u8>| held[p].len()),
            n == keys.len(),
            i <= n,
            count == crate::sums::sum_at(keys.take(i as int), sizes),
            crate::sums::sum_at(keys, sizes) <= usize::MAX,
        decreases n - i,
    {
        let list = table.value_at(i);
        proof {
            assert(held[keys[i as int]].len() == list@.len());
            crate::sums::lemma_sum_at_prefix(keys, sizes, i as int);
            crate::sums::lemma_sum_at_prefix(keys, sizes, i + 1);
        }
        count = count + list.len();
        i = i + 1;
    }
    assert(keys.take(i as int) =~= keys);
    count
}

impl ConsensusEngine {
    /// Starts the timer of a transaction, at a clock reading.
    pub fn start_stall_timer_at(&mut self, txid: Hash256, now_nanos: u64)
        requires
            old(self).wf(),
        ensures
            final(self).wf(),
            final(self)@ == (EngineV {
                timevote: ConsensusV {
                    stall_timers: old(self)@.timevote.stall_timers.insert(txid@, now_nanos),
                    ..old(self)@.timevote
                },
                ..old(self)@
            }),
    {
        let ghost before = self@;
        self.timevote.stall_timers.insert(txid, now_nanos);
        assert(self@.timevote =~= ConsensusV {
            stall_timers: before.timevote.stall_timers.insert(txid@, now_nanos),
            ..before.timevote
        });
    }

    /// Starts the timer of a transaction.
    pub fn start_stall_timer(&mut self, txid: Hash256)
        requires
            old(self).wf(),
        ensures
            final(self).wf(),
            exists|now: u64|
                final(self)@ == (EngineV {
                    timevote: ConsensusV {
                        stall_timers: #[trigger] old(self)@.timevote.stall_timers.insert(txid@, now),
                        ..old(self)@.timevote
                    },
                    ..old(self)@
                }),
    {
        let now: u64 = self.timevote.clock.nanos();
        self.start_stall_timer_at(txid, now);
    }

    /// Whether the timer of a transaction has run out, at a clock reading.
    pub fn check_stall_timeout_at(&self, txid: &Hash256, now_nanos: u64) -> (stalled: bool)
        requires
            self.wf(),
        ensures
            stalled == self@.timevote.stalled(txid@, now_nanos),
    {
        match self.timevote.stall_timers.get(txid) {
            Some(started) => now_nanos.saturating_sub(*started) > STALL_TIMEOUT * 1_000_000_000,
            None => false,
        }
    }

    /// Whether the timer of a transaction has run out.
    pub fn check_stall_timeout(&self, txid: &Hash256) -> (stalled: bool)
        requires
            self.wf(),
        ensures
            exists|now: u64| stalled == #[trigger] self@.timevote.stalled(txid@, now),
    {
        let now: u64 = self.timevote.clock.nanos();
        self.check_stall_timeout_at(txid, now)
    }

    /// Stops the timer of a transaction.
    pub fn stop_stall_timer(&mut self, txid: &Hash256)
        requires
            old(self).wf(),
        ensures
            final(self).wf(),
            final(self)@ == (EngineV {
                timevote: ConsensusV {
                    stall_timers: old(self)@.timevote.stall_timers.remove(txid@),
                    ..old(self)@.timevote
                },
                ..old(self)@
            }),
    {
        let ghost before = self@;
        let _ = self.timevote.stall_timers.remove(txid);
        assert(self@.timevote =~= ConsensusV {
            stall_timers: before.timevote.stall_timers.remove(txid@),
            ..before.timevote
        });
    }

    /// Sets the status of a transaction.
    pub fn set_tx_status(&mut self, txid: Hash256, status: TransactionStatus)
        requires
            old(self).wf(),
        ensures
            final(self).wf(),
            final(self)@ == (EngineV {
                timevote: ConsensusV {
                    tx_status: old(self)@.timevote.tx_status.insert(txid@, status@),
                    ..old(self)@.timevote
                },
                ..old(self)@
            }),
    {
        let ghost before = self@;
        self.timevote.tx_status.insert(txid, status);
        assert(self@.timevote =~= ConsensusV {
            tx_status: before.timevote.tx_status.insert(txid@, status@),
            ..before.timevote
        });
    }

    /// The status of a transaction.
    pub fn get_tx_status(&self, txid: &Hash256) -> (status: Option<TransactionStatus>)
        requires
            self.wf(),
        ensures
            option_view(status) == at(self@.timevote.tx_status, txid@),
    {
        match self.timevote.tx_status.get(txid) {
            Some(status) => Some(status.clone()),
            None => None,
        }
    }

    /// Moves a transaction into voting, at given times. Where it is pending, its
    /// inputs become pending too: the new states are handed back.
    pub fn transition_to_voting_at(
        &mut self,
        txid: Hash256,
        pending: Option<&Transaction>,
        now_ms: i64,
        now_secs: i64,
        now_nanos: u64,
    ) -> (updates: Vec<StateUpdate>)
        requires
            old(self).wf(),
        ensures
            final(self).wf(),
            final(self)@ == (EngineV {
                timevote: old(self)@.timevote.voting(txid@, now_ms, now_nanos),
                ..old(self)@
            }),
            voting_updates(
                updates@,
                pending,
                txid,
                old(self)@.timevote.registry.active().len() as u32,
                now_secs,
            ),
    {
        let ghost before = self@;
        self.timevote.tx_status.insert(
            txid,
            TransactionStatus::Voting { confidence: 0, counter: 0, started_at: now_ms },
        );
        self.timevote.stall_timers.insert(txid, now_nanos);
        assert(self@.timevote =~= before.timevote.voting(txid@, now_ms, now_nanos));
        let mut updates: Vec<StateUpdate> = Vec::new();
        match pending {
            Some(tx) => {
                let active = self.timevote.masternode_registry.list_active();
                assert(views(active@).len() == active@.len());
                let n: u32 = #[verifier::truncate]
                (active.len() as u32);
                let mut i: usize = 0;
                while i < tx.inputs.len()
                    invariant
                        i <= tx.inputs@.len(),
                        updates@.len() == i,
                        forall|j: int|
                            0 <= j < i ==> (#[trigger] updates@[j]).outpoint@
                                == tx@.inputs[j].previous_output && updates@[j].state == (
                            UTXOState::SpentPending {
                                txid,
                                votes: 0,
                                total_nodes: n,
                                spent_at: now_secs,
                            }),
                    decreases tx.inputs@.len() - i,
                {
                    assert(tx@.inputs[i as int] == tx.inputs@[i as int]@);
                    updates.push(
                        StateUpdate {
                            outpoint: tx.inputs[i].previous_output.clone(),
                            state: UTXOState::SpentPending {
                                txid,
                                votes: 0,
                                total_nodes: n,
                                spent_at: now_secs,
                            },
                        },
                    );
                    i = i + 1;
                }
            },
            None => {},
        }
        updates
    }

    /// Moves a transaction into voting.
    pub fn transition_to_voting(&mut self, txid: Hash256, pending: Option<&Transaction>) -> (updates:
        Vec<StateUpdate>)
        requires
            old(self).wf(),
        ensures
            final(self).wf(),
            exists|ms: i64, nanos: u64|
                final(self)@ == (EngineV {
                    timevote: #[trigger] old(self)@.timevote.voting(txid@, ms, nanos),
                    ..old(self)@
                }),
            exists|secs: i64|
                #[trigger] voting_updates(
                    updates@,
                    pending,
                    txid,
                    old(self)@.timevote.registry.active().len() as u32,
                    secs,
                ),
    {
        let ms: i64 = utc_millis();
        let secs: i64 = utc_seconds();
        let nanos: u64 = self.timevote.clock.nanos();
        self.transition_to_voting_at(txid, pending, ms, secs, nanos)
    }

    /// Makes a transaction final, at a time in milliseconds.
    pub fn transition_to_finalized_at(&mut self, txid: Hash256, vfp_weight: u64, now_ms: i64)
        requires
            old(self).wf(),
        ensures
            final(self).wf(),
            final(self)@ == old(self)@.with_final(txid@, vfp_weight, now_ms),
    {
        let ghost before = self@;
        let started: Option<i64> = match self.timevote.tx_status.get(&txid) {
            Some(TransactionStatus::Voting { started_at, .. }) => Some(*started_at),
            _ => None,
        };
        match started {
            Some(started_at) => {
                let took: u64 = if now_ms > started_at {
                    let span: i128 = (now_ms as i128) - (started_at as i128);
                    span as u64
                } else {
                    0
                };
                self.add_finality_time(took);
            },
            None => {},
        }
        assert(self@.avg_finality_ms =~= before.measured(txid@, now_ms));
        self.timevote.tx_status.insert(
            txid,
            TransactionStatus::Finalized { finalized_at: now_ms, vfp_weight },
        );
        self.drop_tracking(&txid);
        assert(self@.timevote =~= before.with_final(txid@, vfp_weight, now_ms).timevote);
        assert(self@ =~= before.with_final(txid@, vfp_weight, now_ms));
    }

    fn drop_tracking(&mut self, txid: &Hash256)
        requires
            old(self).wf(),
        ensures
            final(self).wf(),
            final(self)@ == (EngineV {
                timevote: ConsensusV {
                    stall_timers: old(self)@.timevote.stall_timers.remove(txid@),
                    fallback_rounds: old(self)@.timevote.fallback_rounds.remove(txid@),
                    liveness_alerts: old(self)@.timevote.liveness_alerts.remove(txid@),
                    ..old(self)@.timevote
                },
                ..old(self)@
            }),
    {
        let ghost before = self@;
        let _ = self.timevote.stall_timers.remove(txid);
        let _ = self.timevote.fallback_rounds.remove(txid);
        let _ = self.timevote.liveness_alerts.remove(txid);
        assert(self@.timevote =~= ConsensusV {
            stall_timers: before.timevote.stall_timers.remove(txid@),
            fallback_rounds: before.timevote.fallback_rounds.remove(txid@),
            liveness_alerts: before.timevote.liveness_alerts.remove(txid@),
            ..before.timevote
        });
    }

    /// Makes a transaction final.
    pub fn transition_to_finalized(&mut self, txid: Hash256, vfp_weight: u64)
        requires
            old(self).wf(),
        ensures
            final(self).wf(),
            exists|ms: i64| final(self)@ == #[trigger] old(self)@.with_final(txid@, vfp_weight, ms),
    {
        let ms: i64 = utc_millis();
        self.transition_to_finalized_at(txid, vfp_weight, ms);
    }

    /// Moves a transaction into the fallback, at given times.
    pub fn transition_to_fallback_resolution_at(
        &mut self,
        txid: Hash256,
        alerts_count: u32,
        now_ms: i64,
        now_secs: i64,
        now_nanos: u64,
    )
        requires
            old(self).wf(),
        ensures
            final(self).wf(),
            final(self)@ == (EngineV {
                timevote: old(self)@.timevote.in_fallback(
                    txid@,
                    alerts_count,
                    now_ms,
                    now_secs,
                    now_nanos,
                ),
                ..old(self)@
            }),
    {
        let ghost before = self@;
        self.timevote.tx_status.insert(
            txid,
            TransactionStatus::FallbackResolution { started_at: now_ms, round: 0, alerts_count },
        );
        let _ = self.timevote.stall_timers.remove(&txid);
        let seconds: u64 = #[verifier::truncate]
        (now_secs as u64);
        self.timevote.fallback_rounds.insert(txid, (seconds / 600, 0, now_nanos));
        assert(self@.timevote =~= before.timevote.in_fallback(
            txid@,
            alerts_count,
            now_ms,
            now_secs,
            now_nanos,
        ));
    }

    /// Moves a transaction into the fallback.
    pub fn transition_to_fallback_resolution(&mut self, txid: Hash256, alerts_count: u32)
        requires
            old(self).wf(),
        ensures
            final(self).wf(),
            exists|ms: i64, secs: i64, nanos: u64|
                final(self)@ == (EngineV {
                    timevote: #[trigger] old(self)@.timevote.in_fallback(
                        txid@,
                        alerts_count,
                        ms,
                        secs,
                        nanos,
                    ),
                    ..old(self)@
                }),
    {
        let ms: i64 = utc_millis();
        let secs: i64 = utc_seconds();
        let nanos: u64 = self.timevote.clock.nanos();
        self.transition_to_fallback_resolution_at(txid, alerts_count, ms, secs, nanos);
    }

    /// Rejects a transaction, at a time in milliseconds.
    pub fn transition_to_rejected_at(&mut self, txid: Hash256, reason: String, now_ms: i64)
        requires
            old(self).wf(),
        ensures
            final(self).wf(),
            final(self)@ == old(self)@.with_rejected(txid@, reason@, now_ms),
    {
        let ghost before = self@;
        self.timevote.tx_status.insert(
            txid,
            TransactionStatus::Rejected { rejected_at: now_ms, reason },
        );
        self.drop_tracking(&txid);
        assert(self@.timevote =~= before.with_rejected(txid@, reason@, now_ms).timevote);
    }

    /// Rejects a transaction.
    pub fn transition_to_rejected(&mut self, txid: Hash256, reason: String)
        requires
            old(self).wf(),
        ensures
            final(self).wf(),
            exists|ms: i64| final(self)@ == #[trigger] old(self)@.with_rejected(txid@, reason@, ms),
    {
        let ms: i64 = utc_millis();
        self.transition_to_rejected_at(txid, reason, ms);
    }

    /// The transactions whose status is of the same kind as a given one.
    pub fn get_transactions_by_status(&self, target_status: &TransactionStatus) -> (txids: Vec<
        Hash256,
    >)
        requires
            self.wf(),
        ensures
            views(txids@).no_duplicates(),
            forall|txid: Seq<u8>| #[trigger]
                views(txids@).contains(txid) <==> self@.timevote.tx_status.contains_key(txid)
                    && kind_of(self@.timevote.tx_status[txid]) == kind_of(target_status@),
    {
        let kind = status_kind(target_status);
        select(&self.timevote.tx_status, &OfKind { kind })
    }

    /// The transactions whose timer has run out, at a clock reading.
    pub fn get_stalled_transactions_at(&self, now_nanos: u64) -> (txids: Vec<Hash256>)
        requires
            self.wf(),
        ensures
            views(txids@).no_duplicates(),
            forall|txid: Seq<u8>| #[trigger]
                views(txids@).contains(txid) <==> self@.timevote.stalled(txid, now_nanos),
    {
        select(&self.timevote.stall_timers, &Stalled { now: now_nanos })
    }

    /// The transactions whose timer has run out.
    pub fn get_stalled_transactions(&self) -> (txids: Vec<Hash256>)
        requires
            self.wf(),
        ensures
            views(txids@).no_duplicates(),
            exists|now: u64| #[trigger] self@.timevote.are_stalled(views(txids@), now),
    {
        let now: u64 = self.timevote.clock.nanos();
        let txids = self.get_stalled_transactions_at(now);
        assert(self@.timevote.are_stalled(views(txids@), now));
        txids
    }

    /// Counts a report of a stall. Says whether enough different reporters have
    /// reported the transaction to start the fallback.
    pub fn accumulate_liveness_alert(&mut self, alert: LivenessAlert, total_masternodes: usize) -> (
    reached: bool)
        requires
            old(self).wf(),
        ensures
            final(self).wf(),
            final(self)@ == (EngineV {
                timevote: old(self)@.timevote.with_alert(alert@, total_masternodes as int),
                ..old(self)@
            }),
            reached == final(self)@.timevote.reported_enough(
                alert@.txid,
                total_masternodes as int,
            ),
    {
        let ghost before = self@;
        let ghost said = alert@;
        let txid = alert.txid;
        let mut alerts = match self.timevote.liveness_alerts.remove(&txid) {
            Some(alerts) => alerts,
            None => Vec::new(),
        };
        let ghost earlier = views(alerts@);
        assert(earlier =~= list_at(before.timevote.liveness_alerts, txid@));
        alerts.push(alert);
        assert(views(alerts@) =~= earlier.push(said));
        let names = reporters(&alerts);
        let unique: usize = count_distinct(&names);
        self.timevote.liveness_alerts.insert(txid, alerts);
        let threshold: usize = alert_threshold(total_masternodes);
        if unique == threshold {
            self.timevote.fallback_activations = bump(self.timevote.fallback_activations);
        }
        assert(self@.timevote =~= before.timevote.with_alert(said, total_masternodes as int));
        unique >= threshold
    }

    /// How many different reporters have reported a transaction.
    pub fn get_alert_count(&self, txid: &Hash256) -> (count: usize)
        requires
            self.wf(),
        ensures
            count == distinct_reporters(list_at(self@.timevote.liveness_alerts, txid@)),
    {
        match self.timevote.liveness_alerts.get(txid) {
            Some(alerts) => {
                let names = reporters(alerts);
                count_distinct(&names)
            },
            None => {
                assert(reporters_of(seq![]).to_set() =~= Set::empty());
                0
            },
        }
    }

    /// Counts a vote on a proposal. Says what is decided, if anything is.
    pub fn accumulate_fallback_vote(&mut self, vote: FallbackVote, total_avs_weight: u64) -> (decided:
        Option<FallbackVoteDecision>)
        requires
            old(self).wf(),
            total_avs_weight * 2 <= u64::MAX,
            weights_fit(
                list_at(old(self)@.timevote.fallback_votes, vote@.proposal_hash).push(vote@),
            ),
        ensures
            final(self).wf(),
            final(self)@ == (EngineV {
                timevote: old(self)@.timevote.with_fallback_vote(vote@),
                ..old(self)@
            }),
            decided == fallback_outcome(
                list_at(final(self)@.timevote.fallback_votes, vote@.proposal_hash),
                deciding_weight(total_avs_weight as int),
            ),
    {
        let ghost before = self@;
        let ghost said = vote@;
        let proposal_hash = vote.proposal_hash;
        let mut votes = match self.timevote.fallback_votes.remove(&proposal_hash) {
            Some(votes) => votes,
            None => Vec::new(),
        };
        let ghost earlier = views(votes@);
        assert(earlier =~= list_at(before.timevote.fallback_votes, proposal_hash@));
        votes.push(vote);
        assert(views(votes@) =~= earlier.push(said));
        let (approve_weight, reject_weight) = weigh_both(&votes);
        self.timevote.fallback_votes.insert(proposal_hash, votes);
        assert(self@.timevote =~= before.timevote.with_fallback_vote(said));
        let q_finality: u64 = fallback_quorum(total_avs_weight);
        if approve_weight >= q_finality {
            Some(FallbackVoteDecision::Approve)
        } else if reject_weight >= q_finality {
            Some(FallbackVoteDecision::Reject)
        } else {
            None
        }
    }

    /// The weight for and against a proposal, and the number of votes.
    pub fn get_vote_status(&self, proposal_hash: &Hash256) -> (status: Option<(u64, u64, usize)>)
        requires
            self.wf(),
            weights_fit(list_at(self@.timevote.fallback_votes, proposal_hash@)),
        ensures
            match status {
                Some((approve, reject, count)) => {
                    let votes = self@.timevote.fallback_votes[proposal_hash@];
                    &&& self@.timevote.fallback_votes.contains_key(proposal_hash@)
                    &&& approve == weight_for(votes, FallbackVoteDecision::Approve)
                    &&& reject == weight_for(votes, FallbackVoteDecision::Reject)
                    &&& count == votes.len()
                },
                None => !self@.timevote.fallback_votes.contains_key(proposal_hash@),
            },
    {
        match self.timevote.fallback_votes.get(proposal_hash) {
            Some(votes) => {
                assert(self@.timevote.fallback_votes[proposal_hash@] == views(votes@));
                let (approve_weight, reject_weight) = weigh_both(votes);
                Some((approve_weight, reject_weight, votes.len()))
            },
            None => None,
        }
    }

    /// Takes note of which transaction a proposal is for.
    pub fn register_proposal(&mut self, proposal_hash: Hash256, txid: Hash256)
        requires
            old(self).wf(),
        ensures
            final(self).wf(),
            final(self)@ == (EngineV {
                timevote: ConsensusV {
                    proposal_to_tx: old(self)@.timevote.proposal_to_tx.insert(
                        proposal_hash@,
                        txid@,
                    ),
                    ..old(self)@.timevote
                },
                ..old(self)@
            }),
    {
        let ghost before = self@;
        self.timevote.proposal_to_tx.insert(proposal_hash, txid);
        assert(self@.timevote =~= ConsensusV {
            proposal_to_tx: before.timevote.proposal_to_tx.insert(proposal_hash@, txid@),
            ..before.timevote
        });
    }

    /// Which transaction a proposal is for.
    pub fn get_proposal_txid(&self, proposal_hash: &Hash256) -> (txid: Option<Hash256>)
        requires
            self.wf(),
        ensures
            option_view(txid) == at(self@.timevote.proposal_to_tx, proposal_hash@),
    {
        match self.timevote.proposal_to_tx.get(proposal_hash) {
            Some(txid) => Some(*txid),
            None => None,
        }
    }

    /// Carries out what the fallback decided, at a time in milliseconds.
    pub fn finalize_from_fallback_at(
        &mut self,
        txid: Hash256,
        decision: FallbackVoteDecision,
        total_weight: u64,
        now_ms: i64,
    )
        requires
            old(self).wf(),
        ensures
            final(self).wf(),
            final(self)@ == old(self)@.with_fallback_decision(
                txid@,
                decision,
                total_weight,
                now_ms,
            ),
    {
        match decision {
            FallbackVoteDecision::Approve => {
                self.transition_to_finalized_at(txid, total_weight, now_ms);
            },
            FallbackVoteDecision::Reject => {
                self.transition_to_rejected_at(
                    txid,
                    String::from_str("Fallback consensus rejected"),
                    now_ms,
                );
            },
        }
    }

    /// Carries out what the fallback decided.
    pub fn finalize_from_fallback(
        &mut self,
        txid: Hash256,
        decision: FallbackVoteDecision,
        total_weight: u64,
    )
        requires
            old(self).wf(),
        ensures
            final(self).wf(),
            exists|ms: i64|
                final(self)@ == #[trigger] old(self)@.with_fallback_decision(
                    txid@,
                    decision,
                    total_weight,
                    ms,
                ),
    {
        let ms: i64 = utc_millis();
        self.finalize_from_fallback_at(txid, decision, total_weight, ms);
    }

    /// Whether a reporter has reported a transaction more than once.
    pub fn detect_alert_equivocation(&self, txid: &Hash256, reporter: &str) -> (found: bool)
        requires
            self.wf(),
        ensures
            found == (exists|i: int, j: int|
                0 <= i < j < list_at(self@.timevote.liveness_alerts, txid@).len() && (
                #[trigger] list_at(self@.timevote.liveness_alerts, txid@)[i]).reporter_mn_id
                    == reporter@ && (#[trigger] list_at(
                    self@.timevote.liveness_alerts,
                    txid@,
                )[j]).reporter_mn_id == reporter@),
    {
        let ghost all = list_at(self@.timevote.liveness_alerts, txid@);
        match self.timevote.liveness_alerts.get(txid) {
            Some(alerts) => {
                assert(all == views(alerts@));
                let mut first: Option<usize> = None;
                let mut i: usize = 0;
                while i < alerts.len()
                    invariant
                        i <= alerts@.len(),
                        all == views(alerts@),
                        all == list_at(self@.timevote.liveness_alerts, txid@),
                        match first {
                            Some(p) => p < i && all[p as int].reporter_mn_id == reporter@,
                            None => true,
                        },
                        forall|j: int|
                            0 <= j < i && (#[trigger] all[j]).reporter_mn_id == reporter@
                                ==> first == Some(j as usize),
                    decreases alerts@.len() - i,
                {
                    assert(all[i as int] == alerts@[i as int]@);
                    if same_text(alerts[i].reporter_mn_id.as_str(), reporter) {
                        match first {
                            Some(p) => {
                                assert(all[p as int].reporter_mn_id == reporter@);
                                return true;
                            },
                            None => {
                                first = Some(i);
                            },
                        }
                    }
                    i = i + 1;
                }
                false
            },
            None => false,
        }
    }

    /// Whether a voter has cast different votes on a proposal.
    pub fn detect_vote_equivocation(&self, proposal_hash: &Hash256, voter: &str) -> (found: bool)
        requires
            self.wf(),
        ensures
            found == votes_conflict(
                list_at(self@.timevote.fallback_votes, proposal_hash@),
                voter@,
            ),
    {
        let ghost all = list_at(self@.timevote.fallback_votes, proposal_hash@);
        match self.timevote.fallback_votes.get(proposal_hash) {
            Some(votes) => {
                assert(all == views(votes@));
                let mut approved: Option<usize> = None;
                let mut rejected: Option<usize> = None;
                let mut i: usize = 0;
                while i < votes.len()
                    invariant
                        i <= votes@.len(),
                        all == views(votes@),
                        all == list_at(self@.timevote.fallback_votes, proposal_hash@),
                        match approved {
                            Some(p) => p < i && all[p as int].voter_mn_id == voter@
                                && all[p as int].vote == FallbackVoteDecision::Approve,
                            None => true,
                        },
                        match rejected {
                            Some(p) => p < i && all[p as int].voter_mn_id == voter@
                                && all[p as int].vote == FallbackVoteDecision::Reject,
                            None => true,
                        },
                        forall|j: int|
                            0 <= j < i && (#[trigger] all[j]).voter_mn_id == voter@ ==> (
                            all[j].vote == FallbackVoteDecision::Approve ==> approved is Some) && (
                            all[j].vote == FallbackVoteDecision::Reject ==> rejected is Some),
                    decreases votes@.len() - i,
                {
                    assert(all[i as int] == votes@[i as int]@);
                    if same_text(votes[i].voter_mn_id.as_str(), voter) {
                        match votes[i].vote {
                            FallbackVoteDecision::Approve => {
                                approved = Some(i);
                            },
                            FallbackVoteDecision::Reject => {
                                rejected = Some(i);
                            },
                        }
                    }
                    i = i + 1;
                }
                proof {
                    if approved is Some && rejected is Some {
                        let a = approved->0 as int;
                        let r = rejected->0 as int;
                        assert(all[a].vote != all[r].vote);
                    }
                    if votes_conflict(all, voter@) {
                        let (a, b) = choose|a: int, b: int|
                            0 <= a < all.len() && 0 <= b < all.len() && (
                            #[trigger] all[a]).voter_mn_id == voter@ && (
                            #[trigger] all[b]).voter_mn_id == voter@ && all[a].vote != all[b].vote;
                        assert(all[a].voter_mn_id == voter@);
                        assert(all[b].voter_mn_id == voter@);
                    }
                }
                approved.is_some() && rejected.is_some()
            },
            None => false,
        }
    }

    /// The proposals that were made for a transaction.
    pub fn detect_multiple_proposals(&self, txid: &Hash256) -> (proposals: Vec<Hash256>)
        requires
            self.wf(),
        ensures
            views(proposals@).no_duplicates(),
            forall|p: Seq<u8>| #[trigger]
                views(proposals@).contains(p) <==> self@.timevote.proposal_to_tx.contains_key(p)
                    && self@.timevote.proposal_to_tx[p] == txid@,
    {
        select(&self.timevote.proposal_to_tx, &Leads { txid: *txid })
    }

    /// Whether enough different reporters have reported a transaction.
    pub fn validate_alert_threshold(&self, txid: &Hash256, total_masternodes: usize) -> (reached:
        Result<bool, String>)
        requires
            self.wf(),
        ensures
            told(reached) == (if total_masternodes == 0 {
                Err("No masternodes in network"@)
            } else {
                Ok(self@.timevote.reported_enough(txid@, total_masternodes as int))
            }),
    {
        if total_masternodes == 0 {
            return Err(String::from_str("No masternodes in network"));
        }
        let threshold: usize = alert_threshold(total_masternodes);
        let count: usize = self.get_alert_count(txid);
        Ok(count >= threshold)
    }

    /// Checks that the votes on a proposal do not weigh more than a tenth above
    /// the weight of all validators.
    pub fn validate_vote_weight(&self, proposal_hash: &Hash256, total_avs_weight: u64) -> (valid:
        Result<(), String>)
        requires
            self.wf(),
            total_avs_weight * 11 <= u64::MAX,
        ensures
            told(valid) == weight_verdict(
                at(self@.timevote.fallback_votes, proposal_hash@),
                total_avs_weight,
            ),
    {
        match self.timevote.fallback_votes.get(proposal_hash) {
            Some(votes) => {
                let ghost all = views(votes@);
                let mut total: u64 = 0;
                let mut i: usize = 0;
                while i < votes.len()
                    invariant
                        i <= votes@.len(),
                        all == views(votes@),
                        total == capped(voted_weight(all.take(i as int))),
                    decreases votes@.len() - i,
                {
                    proof {
                        assert(all.take(i + 1).drop_last() =~= all.take(i as int));
                        assert(all.take(i + 1).last() == votes@[i as int]@);
                    }
                    total = total.saturating_add(votes[i].voter_weight);
                    i = i + 1;
                }
                assert(all.take(i as int) =~= all);
                if total > total_avs_weight * 11 / 10 {
                    let voted = decimal_text(total);
                    let available = decimal_text(total_avs_weight);
                    return Err(
                        join5(
                            "Vote weight ",
                            voted.as_str(),
                            " exceeds total AVS weight ",
                            available.as_str(),
                            " by >10%",
                        ),
                    );
                }
                Ok(())
            },
            None => Ok(()),
        }
    }

    /// Whether a masternode is flagged as faulty.
    pub fn is_byzantine_flagged(&self, mn_id: &str) -> (flagged: bool)
        requires
            self.wf(),
        ensures
            flagged == (self@.timevote.byzantine_nodes.contains_key(mn_id@)
                && self@.timevote.byzantine_nodes[mn_id@]),
    {
        let name = String::from_str(mn_id);
        match self.timevote.byzantine_nodes.get(&name) {
            Some(flagged) => *flagged,
            None => false,
        }
    }

    /// Flags a masternode as faulty.
    pub fn flag_byzantine(&mut self, mn_id: &str, _reason: &str)
        requires
            old(self).wf(),
        ensures
            final(self).wf(),
            final(self)@ == (EngineV {
                timevote: ConsensusV {
                    byzantine_nodes: old(self)@.timevote.byzantine_nodes.insert(mn_id@, true),
                    ..old(self)@.timevote
                },
                ..old(self)@
            }),
    {
        let ghost before = self@;
        self.timevote.byzantine_nodes.insert(String::from_str(mn_id), true);
        assert(self@.timevote =~= ConsensusV {
            byzantine_nodes: before.timevote.byzantine_nodes.insert(mn_id@, true),
            ..before.timevote
        });
    }

    /// How many masternodes are flagged as faulty.
    pub fn get_byzantine_count(&self) -> (count: usize)
        requires
            self.wf(),
        ensures
            count == flagged_nodes(self@.timevote.byzantine_nodes).len(),
    {
        let found = select(&self.timevote.byzantine_nodes, &Flagged {});
        proof {
            views(found@).unique_seq_to_set();
            assert forall|name: Seq<char>|
                views(found@).to_set().contains(name) <==> flagged_nodes(
                    self@.timevote.byzantine_nodes,
                ).contains(name) by {
                assert(views(found@).contains(name) <==> views(found@).to_set().contains(name));
            }
            assert(views(found@).to_set() =~= flagged_nodes(self@.timevote.byzantine_nodes));
        }
        found.len()
    }

    /// Counts one more start of the fallback.
    pub fn record_fallback_activation(&mut self)
        requires
            old(self).wf(),
        ensures
            final(self).wf(),
            final(self)@ == (EngineV {
                timevote: ConsensusV {
                    fallback_activations: bumped(old(self)@.timevote.fallback_activations),
                    ..old(self)@.timevote
                },
                ..old(self)@
            }),
    {
        let ghost before = self@;
        self.timevote.fallback_activations = bump(self.timevote.fallback_activations);
        assert(self@.timevote =~= ConsensusV {
            fallback_activations: bumped(before.timevote.fallback_activations),
            ..before.timevote
        });
    }

    /// Counts one more stall.
    pub fn record_stall_detection(&mut self)
        requires
            old(self).wf(),
        ensures
            final(self).wf(),
            final(self)@ == (EngineV {
                timevote: ConsensusV {
                    stall_detections: bumped(old(self)@.timevote.stall_detections),
                    ..old(self)@.timevote
                },
                ..old(self)@
            }),
    {
        let ghost before = self@;
        self.timevote.stall_detections = bump(self.timevote.stall_detections);
        assert(self@.timevote =~= ConsensusV {
            stall_detections: bumped(before.timevote.stall_detections),
            ..before.timevote
        });
    }

    /// Counts one more resolution by a block.
    pub fn record_timelock_resolution(&mut self)
        requires
            old(self).wf(),
        ensures
            final(self).wf(),
            final(self)@ == (EngineV {
                timevote: ConsensusV {
                    timelock_resolutions: bumped(old(self)@.timevote.timelock_resolutions),
                    ..old(self)@.timevote
                },
                ..old(self)@
            }),
    {
        let ghost before = self@;
        self.timevote.timelock_resolutions = bump(self.timevote.timelock_resolutions);
        assert(self@.timevote =~= ConsensusV {
            timelock_resolutions: bumped(before.timevote.timelock_resolutions),
            ..before.timevote
        });
    }

    /// How often the fallback was started.
    pub fn get_fallback_activations(&self) -> (count: usize)
        ensures
            count == self@.timevote.fallback_activations,
    {
        self.timevote.fallback_activations
    }

    /// How many stalls were seen.
    pub fn get_stall_detections(&self) -> (count: usize)
        ensures
            count == self@.timevote.stall_detections,
    {
        self.timevote.stall_detections
    }

    /// How often a block resolved stalls.
    pub fn get_timelock_resolutions(&self) -> (count: usize)
        ensures
            count == self@.timevote.timelock_resolutions,
    {
        self.timevote.timelock_resolutions
    }

    /// Counts of what the fallback did and holds.
    pub fn get_fallback_metrics(&self) -> (metrics: FallbackMetrics)
        requires
            self.wf(),
            vote_count(self@.timevote.fallback_votes) <= usize::MAX,
        ensures
            metrics.total_fallback_activations == self@.timevote.fallback_activations,
            metrics.total_stall_detections == self@.timevote.stall_detections,
            metrics.total_timelock_resolutions == self@.timevote.timelock_resolutions,
            metrics.active_stalled_txs == self@.timevote.liveness_alerts.dom().len(),
            metrics.active_fallback_rounds == self@.timevote.fallback_rounds.dom().len(),
            metrics.byzantine_nodes_flagged == flagged_nodes(
                self@.timevote.byzantine_nodes,
            ).len(),
            metrics.pending_proposals == self@.timevote.proposal_to_tx.dom().len(),
            metrics.total_fallback_votes == vote_count(self@.timevote.fallback_votes),
    {
        proof {
            assert(self@.timevote.liveness_alerts.dom()
                =~= self.timevote.liveness_alerts@.dom());
            assert(self@.timevote.proposal_to_tx.dom() =~= self.timevote.proposal_to_tx@.dom());
        }
        FallbackMetrics {
            total_fallback_activations: self.get_fallback_activations(),
            total_stall_detections: self.get_stall_detections(),
            total_timelock_resolutions: self.get_timelock_resolutions(),
            active_stalled_txs: self.timevote.liveness_alerts.len(),
            active_fallback_rounds: self.timevote.fallback_rounds.len(),
            byzantine_nodes_flagged: self.get_byzantine_count(),
            pending_proposals: self.timevote.proposal_to_tx.len(),
            total_fallback_votes: count_votes(&self.timevote.fallback_votes),
        }
    }

    /// How to vote on a proposal for a transaction: for it while the transaction
    /// is still open.
    pub fn decide_fallback_vote(&self, txid: &Hash256) -> (decision: FallbackVoteDecision)
        requires
            self.wf(),
        ensures
            decision == self@.timevote.vote_on(txid@),
    {
        match self.timevote.tx_status.get(txid) {
            Some(TransactionStatus::Voting { .. }) => FallbackVoteDecision::Approve,
            Some(TransactionStatus::FallbackResolution { .. }) => FallbackVoteDecision::Approve,
            _ => FallbackVoteDecision::Reject,
        }
    }

    /// What a leader proposes for a transaction: the node's own preference, to
    /// reject where it has none.
    pub fn determine_fallback_decision(&self, txid: &Hash256) -> (decision: FallbackDecision)
        requires
            self.wf(),
        ensures
            decision == self@.preferred_decision(txid@),
    {
        match self.timevote.tx_state.get(txid) {
            Some(state) => match state.preference {
                Preference::Accept => FallbackDecision::Accept,
                Preference::Reject => FallbackDecision::Reject,
            },
            None => FallbackDecision::Reject,
        }
    }

    /// Whether some transaction is in the fallback.
    pub fn has_pending_fallback_transactions(&self) -> (found: bool)
        requires
            self.wf(),
        ensures
            found == (exists|txid: Seq<u8>| #[trigger] self@.timevote.is_in_fallback(txid)),
    {
        let found = any(
            &self.timevote.tx_status,
            &OfKind { kind: StatusKind::FallbackResolution },
        );
        proof {
            let table = self.timevote.tx_status@;
            if found {
                let txid = choose|k: Seq<u8>| #[trigger]
                    table.contains_key(k) && kind_of(table[k]@) == StatusKind::FallbackResolution;
                assert(self@.timevote.is_in_fallback(txid));
            }
            if exists|txid: Seq<u8>| #[trigger] self@.timevote.is_in_fallback(txid) {
                let txid = choose|txid: Seq<u8>| #[trigger] self@.timevote.is_in_fallback(txid);
                assert(table.contains_key(txid));
            }
        }
        found
    }

    /// Takes a transaction out of the fallback and back into voting, at given
    /// times.
    pub fn resume_sampling_after_fallback_at(
        &mut self,
        txid: Hash256,
        pending: Option<&Transaction>,
        now_ms: i64,
        now_secs: i64,
        now_nanos: u64,
    ) -> (resumed: Result<Vec<StateUpdate>, String>)
        requires
            old(self).wf(),
        ensures
            final(self).wf(),
            match resumed {
                Ok(updates) => {
                    &&& old(self)@.timevote.is_in_fallback(txid@)
                    &&& final(self)@ == (EngineV {
                        timevote: old(self)@.timevote.voting(txid@, now_ms, now_nanos),
                        ..old(self)@
                    })
                    &&& voting_updates(
                        updates@,
                        pending,
                        txid,
                        old(self)@.timevote.registry.active().len() as u32,
                        now_secs,
                    )
                },
                Err(text) => {
                    &&& !old(self)@.timevote.is_in_fallback(txid@)
                    &&& final(self)@ == old(self)@
                    &&& text@ == "Transaction "@ + hex_text(txid@) + (
                    if old(self)@.timevote.tx_status.contains_key(txid@) {
                        " not in FallbackResolution state"@
                    } else {
                        " not found"@
                    })
                },
            },
    {
        let hex = hex_encode(&txid);
        match self.timevote.tx_status.get(&txid) {
            None => {
                return Err(join3("Transaction ", hex.as_str(), " not found"));
            },
            Some(status) => {
                if !matches!(status, TransactionStatus::FallbackResolution { .. }) {
                    return Err(
                        join3("Transaction ", hex.as_str(), " not in FallbackResolution state"),
                    );
                }
            },
        }
        Ok(self.transition_to_voting_at(txid, pending, now_ms, now_secs, now_nanos))
    }

    /// Takes a transaction out of the fallback and back into voting.
    pub fn resume_sampling_after_fallback(&mut self, txid: Hash256, pending: Option<&Transaction>) -> (
    resumed: Result<Vec<StateUpdate>, String>)
        requires
            old(self).wf(),
        ensures
            final(self).wf(),
            match resumed {
                Ok(updates) => {
                    &&& old(self)@.timevote.is_in_fallback(txid@)
                    &&& exists|ms: i64, nanos: u64|
                        final(self)@ == (EngineV {
                            timevote: #[trigger] old(self)@.timevote.voting(txid@, ms, nanos),
                            ..old(self)@
                        })
                    &&& exists|secs: i64|
                        #[trigger] voting_updates(
                            updates@,
                            pending,
                            txid,
                            old(self)@.timevote.registry.active().len() as u32,
                            secs,
                        )
                },
                Err(text) => {
                    &&& !old(self)@.timevote.is_in_fallback(txid@)
                    &&& final(self)@ == old(self)@
                    &&& text@ == "Transaction "@ + hex_text(txid@) + (
                    if old(self)@.timevote.tx_status.contains_key(txid@) {
                        " not in FallbackResolution state"@
                    } else {
                        " not found"@
                    })
                },
            },
    {
        let ms: i64 = utc_millis();
        let secs: i64 = utc_seconds();
        let nanos: u64 = self.timevote.clock.nanos();
        self.resume_sampling_after_fallback_at(txid, pending, ms, secs, nanos)
    }
}

/// The masternodes that are flagged.
pub open spec fn flagged_nodes(nodes: Map<Seq<char>, bool>) -> Set<Seq<char>> {
    nodes.dom().filter(|name: Seq<char>| nodes[name])
}

/// Whether a voter's votes in a list differ.
pub open spec fn votes_conflict(votes: Seq<FallbackVoteV>, voter: Seq<char>) -> bool {
    exists|a: int, b: int|
        0 <= a < votes.len() && 0 <= b < votes.len() && (#[trigger] votes[a]).voter_mn_id == voter
            && (#[trigger] votes[b]).voter_mn_id == voter && votes[a].vote != votes[b].vote
}

/// The weight of all votes in a list.
pub open spec fn voted_weight(votes: Seq<FallbackVoteV>) -> nat
    decreases votes.len(),
{
    if votes.len() == 0 {
        0
    } else {
        voted_weight(votes.drop_last()) + votes.last().voter_weight as nat
    }
}

/// A number, or the largest that fits.
pub open spec fn capped(n: nat) -> nat {
    if n > u64::MAX {
        u64::MAX as nat
    } else {
        n
    }
}

/// What to say of the weight of the votes on a proposal.
pub open spec fn weight_verdict(votes: Option<Seq<FallbackVoteV>>, total_avs_weight: u64) -> Result<
    (),
    Seq<char>,
> {
    match votes {
        None => Ok(()),
        Some(list) => if capped(voted_weight(list)) > total_avs_weight * 11 / 10 {
            Err(
                "Vote weight "@ + decimal(capped(voted_weight(list)))
                    + " exceeds total AVS weight "@ + decimal(total_avs_weight as nat)
                    + " by >10%"@,
            )
        } else {
            Ok(())
        },
    }
}

/// A transaction that became final or was rejected has no fallback left: no
/// timer, no round, no alerts.
pub proof fn settled_leaves_no_fallback(
    held: EngineV,
    txid: Seq<u8>,
    decision: FallbackVoteDecision,
    weight: u64,
    now_ms: i64,
)
    ensures
        ({
            let after = held.with_fallback_decision(txid, decision, weight, now_ms).timevote;
            &&& !after.stall_timers.contains_key(txid)
            &&& !after.fallback_rounds.contains_key(txid)
            &&& !after.liveness_alerts.contains_key(txid)
            &&& !after.is_in_fallback(txid)
        }),
{
}

/// Settling one transaction leaves the status and tracking of every other alone.
pub proof fn settling_leaves_others(
    held: EngineV,
    txid: Seq<u8>,
    other: Seq<u8>,
    decision: FallbackVoteDecision,
    weight: u64,
    now_ms: i64,
)
    requires
        other != txid,
    ensures
        ({
            let before = held.timevote;
            let after = held.with_fallback_decision(txid, decision, weight, now_ms).timevote;
            &&& at(after.tx_status, other) == at(before.tx_status, other)
            &&& at(after.stall_timers, other) == at(before.stall_timers, other)
            &&& at(after.fallback_rounds, other) == at(before.fallback_rounds, other)
            &&& at(after.liveness_alerts, other) == at(before.liveness_alerts, other)
        }),
{
}

/// A second report of the same reporter does not bring the fallback closer.
pub proof fn repeated_alert_counts_once(alerts: Seq<LivenessAlertV>, alert: LivenessAlertV)
    requires
        reporters_of(alerts).contains(alert.reporter_mn_id),
    ensures
        distinct_reporters(alerts.push(alert)) == distinct_reporters(alerts),
{
    let names = reporters_of(alerts);
    let longer = reporters_of(alerts.push(alert));
    assert(longer =~= names.push(alert.reporter_mn_id));
    assert forall|x: Seq<char>| longer.to_set().contains(x) <==> names.to_set().contains(x) by {
        if names.contains(x) {
            let i = choose|i: int| 0 <= i < names.len() && names[i] == x;
            assert(longer[i] == x);
        }
        if longer.contains(x) {
            let i = choose|i: int| 0 <= i < longer.len() && longer[i] == x;
            if i < names.len() {
                assert(names[i] == x);
            }
        }
    }
    assert(longer.to_set() =~= names.to_set());
}

/// At most twenty finality times are ever kept: the latest of transactions and
/// blocks.
pub proof fn finality_samples_bounded(held: EngineV, took_ms: u64)
    requires
        held.avg_finality_ms.len() <= FINALITY_SAMPLES,
    ensures
        ({
            let after = with_sample(held.avg_finality_ms, took_ms);
            &&& after.len() <= FINALITY_SAMPLES
            &&& after.last() == took_ms
            &&& forall|i: int|
                1 <= i < after.len() ==> #[trigger] after[after.len() - 1 - i]
                    == held.avg_finality_ms[held.avg_finality_ms.len() - i]
        }),
{
}

/// A vote on a proposal counts with its whole weight for its own decision, and not
/// at all for the other; before any vote nothing is counted.
pub proof fn fallback_votes_count_for_their_decision(votes: Seq<FallbackVoteV>, vote: FallbackVoteV)
    ensures
        forall|d: FallbackVoteDecision| #[trigger] weight_for(seq![], d) == 0,
        weight_for(votes.push(vote), vote.vote) == weight_for(votes, vote.vote)
            + vote.voter_weight,
        forall|d: FallbackVoteDecision|
            d != vote.vote ==> #[trigger] weight_for(votes.push(vote), d) == weight_for(votes, d),
{
    assert(votes.push(vote).drop_last() =~= votes);
}

/// A vote is kept on its own proposal, behind the earlier ones, and on no other.
pub proof fn fallback_vote_is_kept(held: ConsensusV, vote: FallbackVoteV, other: Seq<u8>)
    ensures
        ({
            let after = held.with_fallback_vote(vote);
            let kept = list_at(after.fallback_votes, vote.proposal_hash);
            &&& kept == list_at(held.fallback_votes, vote.proposal_hash).push(vote)
            &&& other != vote.proposal_hash ==> at(after.fallback_votes, other) == at(
                held.fallback_votes,
                other,
            )
        }),
{
}

/// What the fallback decides is backed by its own votes: two thirds of the weight,
/// rounded down, were cast for it. Where only one side has as much, that side wins;
/// where neither has, nothing is decided.
pub proof fn fallback_decision_is_backed(votes: Seq<FallbackVoteV>, total: int)
    requires
        total >= 0,
    ensures
        ({
            let approving = weight_for(votes, FallbackVoteDecision::Approve);
            let rejecting = weight_for(votes, FallbackVoteDecision::Reject);
            let outcome = fallback_outcome(votes, deciding_weight(total));
            &&& outcome matches Some(d) ==> 3 * weight_for(votes, d) + 3 > 2 * total
            &&& 3 * approving + 3 > 2 * total ==> outcome == Some(FallbackVoteDecision::Approve)
            &&& 3 * rejecting + 3 > 2 * total && 3 * approving + 3 <= 2 * total ==> outcome == Some(
                FallbackVoteDecision::Reject,
            )
            &&& 3 * approving + 3 <= 2 * total && 3 * rejecting + 3 <= 2 * total
                ==> outcome is None
        }),
{
}

/// What the fallback decided is carried out: an approved transaction becomes final
/// with the weight behind it, a rejected one is rejected.
pub proof fn fallback_decision_is_carried_out(
    held: EngineV,
    txid: Seq<u8>,
    weight: u64,
    now_ms: i64,
)
    ensures
        held.with_fallback_decision(
            txid,
            FallbackVoteDecision::Approve,
            weight,
            now_ms,
        ).timevote.tx_status[txid] == (TransactionStatusV::Finalized {
            finalized_at: now_ms,
            vfp_weight: weight,
        }),
        held.with_fallback_decision(
            txid,
            FallbackVoteDecision::Reject,
            weight,
            now_ms,
        ).timevote.tx_status[txid] == (TransactionStatusV::Rejected {
            rejected_at: now_ms,
            reason: "Fallback consensus rejected"@,
        }),
{
}

/// A transaction is voted for while it is undecided, and against once it is final
/// or rejected, or where nothing is known of it.
pub proof fn open_transactions_are_voted_for(held: ConsensusV, txid: Seq<u8>)
    ensures
        held.vote_on(txid) == FallbackVoteDecision::Approve <==> held.tx_status.contains_key(txid)
            && !(held.tx_status[txid] is Finalized) && !(held.tx_status[txid] is Rejected),
{
}

/// A report is kept with its transaction, behind the earlier ones, and with no other.
/// A new reporter counts once more. The fallback is due from the report on that
/// brings enough different reporters.
pub proof fn reports_add_up(
    held: ConsensusV,
    alert: LivenessAlertV,
    other: Seq<u8>,
    total_masternodes: int,
)
    requires
        total_masternodes > 0,
    ensures
        ({
            let earlier = list_at(held.liveness_alerts, alert.txid);
            let after = held.with_alert(alert, total_masternodes);
            let now = list_at(after.liveness_alerts, alert.txid);
            &&& now == earlier.push(alert)
            &&& other != alert.txid ==> at(after.liveness_alerts, other) == at(
                held.liveness_alerts,
                other,
            )
            &&& !reporters_of(earlier).contains(alert.reporter_mn_id) ==> distinct_reporters(now)
                == distinct_reporters(earlier) + 1
            &&& after.reported_enough(alert.txid, total_masternodes) <==> 3 * distinct_reporters(
                now,
            ) >= total_masternodes
        }),
        distinct_reporters(seq![]) == 0,
{
    let earlier = list_at(held.liveness_alerts, alert.txid);
    let names = reporters_of(earlier);
    let longer = reporters_of(earlier.push(alert));
    assert(longer =~= names.push(alert.reporter_mn_id));
    assert(reporters_of(seq![]).to_set() =~= Set::empty());
    if !names.contains(alert.reporter_mn_id) {
        assert forall|x: Seq<char>| longer.to_set().contains(x) <==> names.to_set().insert(
            alert.reporter_mn_id,
        ).contains(x) by {
            if names.contains(x) {
                let i = choose|i: int| 0 <= i < names.len() && names[i] == x;
                assert(longer[i] == x);
            }
            if x == alert.reporter_mn_id {
                assert(longer[names.len() as int] == x);
            }
            if longer.contains(x) {
                let i = choose|i: int| 0 <= i < longer.len() && longer[i] == x;
                if i < names.len() {
                    assert(names[i] == x);
                }
            }
        }
        assert(longer.to_set() =~= names.to_set().insert(alert.reporter_mn_id));
        vstd::seq_lib::seq_to_set_is_finite(names);
        assert(!names.to_set().contains(alert.reporter_mn_id));
    }
}

/// A stall is due exactly when a transaction's timer has run for more than half a
/// minute.
pub proof fn stalls_take_half_a_minute(held: ConsensusV, txid: Seq<u8>, now_nanos: u64)
    ensures
        held.stalled(txid, now_nanos) <==> held.stall_timers.contains_key(txid) && now_nanos
            - held.stall_timers[txid] > 30_000_000_000,
{
}

/// Where a transaction stands after it went into voting or into the fallback: in
/// voting a timer runs, in the fallback the first round of the slot. Other
/// transactions stand where they stood.
pub proof fn transitions_move_one_transaction(
    held: ConsensusV,
    txid: Seq<u8>,
    other: Seq<u8>,
    alerts_count: u32,
    now_ms: i64,
    now_secs: i64,
    now_nanos: u64,
)
    requires
        other != txid,
        now_secs >= 0,
    ensures
        ({
            let voting = held.voting(txid, now_ms, now_nanos);
            &&& voting.tx_status[txid] == (TransactionStatusV::Voting {
                confidence: 0,
                counter: 0,
                started_at: now_ms,
            })
            &&& voting.stall_timers.contains_key(txid) && voting.stall_timers[txid] == now_nanos
            &&& !voting.is_in_fallback(txid)
            &&& at(voting.tx_status, other) == at(held.tx_status, other)
            &&& at(voting.stall_timers, other) == at(held.stall_timers, other)
        }),
        ({
            let stuck = held.in_fallback(txid, alerts_count, now_ms, now_secs, now_nanos);
            &&& stuck.is_in_fallback(txid)
            &&& stuck.tx_status[txid] == (TransactionStatusV::FallbackResolution {
                started_at: now_ms,
                round: 0,
                alerts_count,
            })
            &&& !stuck.stall_timers.contains_key(txid)
            &&& stuck.fallback_rounds.contains_key(txid)
            &&& 600 * stuck.fallback_rounds[txid].0 <= now_secs < 600 * (
            stuck.fallback_rounds[txid].0 + 1)
            &&& stuck.fallback_rounds[txid].1 == 0
            &&& stuck.fallback_rounds[txid].2 == now_nanos
            &&& at(stuck.tx_status, other) == at(held.tx_status, other)
            &&& at(stuck.stall_timers, other) == at(held.stall_timers, other)
            &&& at(stuck.fallback_rounds, other) == at(held.fallback_rounds, other)
        }),
{
}

/// The votes on a proposal pass with up to a tenth more than the weight of all
/// validators, and not with more. Every vote adds its weight.
pub proof fn vote_weight_has_a_margin(
    votes: Seq<FallbackVoteV>,
    vote: FallbackVoteV,
    total_avs_weight: u64,
)
    ensures
        weight_verdict(None, total_avs_weight) is Ok,
        voted_weight(seq![]) == 0,
        voted_weight(votes.push(vote)) == voted_weight(votes) + vote.voter_weight,
        voted_weight(votes) <= u64::MAX ==> (weight_verdict(Some(votes), total_avs_weight) is Ok
            <==> 10 * voted_weight(votes) <= 11 * total_avs_weight),
{
    assert(votes.push(vote).drop_last() =~= votes);
}

/// A voter is caught when they voted both ways on a proposal, and not while all
/// their votes agree.
pub proof fn double_dealers_are_caught(
    votes: Seq<FallbackVoteV>,
    voter: Seq<char>,
    decision: FallbackVoteDecision,
    i: int,
    j: int,
)
    requires
        0 <= i < votes.len(),
        0 <= j < votes.len(),
    ensures
        votes[i].voter_mn_id == voter && votes[j].voter_mn_id == voter && votes[i].vote
            != votes[j].vote ==> votes_conflict(votes, voter),
        (forall|k: int|
            0 <= k < votes.len() && (#[trigger] votes[k]).voter_mn_id == voter ==> votes[k].vote
                == decision) ==> !votes_conflict(votes, voter),
{
}

/// How long a transaction took from voting to finality goes into the average: the
/// milliseconds between the two, none where the clock went back. One that does not
/// come out of voting leaves the average alone. Twenty times are kept at most.
pub proof fn finality_is_measured_from_voting(held: EngineV, txid: Seq<u8>, weight: u64, now_ms: i64)
    requires
        held.avg_finality_ms.len() <= 20,
    ensures
        ({
            let after = held.with_final(txid, weight, now_ms).avg_finality_ms;
            match at(held.timevote.tx_status, txid) {
                Some(TransactionStatusV::Voting { started_at, .. }) => {
                    &&& 1 <= after.len() <= 20
                    &&& after.last() == (if now_ms >= started_at {
                        now_ms - started_at
                    } else {
                        0
                    })
                    &&& held.avg_finality_ms.len() < 20 ==> after.drop_last()
                        == held.avg_finality_ms
                },
                _ => after == held.avg_finality_ms,
            }
        }),
{
    let after = held.with_final(txid, weight, now_ms).avg_finality_ms;
    if at(held.timevote.tx_status, txid) matches Some(TransactionStatusV::Voting { .. }) {
        if held.avg_finality_ms.len() < 20 {
            assert(after.drop_last() =~= held.avg_finality_ms);
        }
    }
}

/// The fallback counts as started with the report that brings the last of the different
/// reporters that it takes, and with no other.
pub proof fn fallback_starts_are_counted(
    held: ConsensusV,
    alert: LivenessAlertV,
    total_masternodes: int,
)
    requires
        total_masternodes > 0,
        held.fallback_activations < usize::MAX,
    ensures
        ({
            let after = held.with_alert(alert, total_masternodes);
            let n = distinct_reporters(list_at(after.liveness_alerts, alert.txid));
            let just = 3 * (n - 1) < total_masternodes <= 3 * n;
            &&& just ==> after.fallback_activations == held.fallback_activations + 1
            &&& !just ==> after.fallback_activations == held.fallback_activations
        }),
{
}

} // verus!
