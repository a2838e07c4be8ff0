//! What becomes of a transaction once it is submitted: it is taken in, made
//! final at once where nothing competes with it, voted on where something does,
//! and cleaned up after.

use crate::clock::{utc_millis, utc_seconds};
use crate::crypto::{hex_encode, hex_text, sha256, sha256_digest};
use crate::engine::{ConsensusEngine, EngineV};
use crate::fallback::PendingInputs;
use crate::status::{epoch_slot, voting_updates, StateUpdate};
use crate::sums::views;
use crate::text::{decimal, decimal_text, join2, join3, join5, join7, text_of_bytes, told};
use crate::thresholds::{finality_weight, quorum_percent, vote_finality_threshold};
use crate::timevote::{
    at, count_at, validator_weight, weigh_validators, ConsensusV, Preference, VotingState,
};
use crate::types::{
    Hash256, OutPoint, OutPointV, Transaction, TransactionStatus, TransactionStatusV, TransactionV,
    UTXOState, UTXO, UTXOV,
};
use crate::validation::{
    add_inputs, add_outputs, held_by_other, holder_of, input_value, output_value, spent_by_other, sum_inputs, sum_outputs,
    InputView,
};
use vstd::prelude::*;
use vstd::utf8::{decode_utf8, valid_utf8};

verus! {

/// How many transactions can be pending.
pub const MAX_MEMPOOL_TRANSACTIONS: usize = 10_000;

/// How long a vote runs before its weight is looked at, in seconds.
pub const INITIAL_VOTE_SECONDS: u64 = 5;

/// How long a vote can be extended to, in seconds.
pub const MAX_VOTE_SECONDS: u64 = 15;

/// How often a vote is looked at, in milliseconds.
pub const VOTE_POLL_MILLIS: u64 = 50;

/// What the stores say of a transaction that is taken in.
#[derive(Debug)]
pub struct ProcessView {
    /// One for each input.
    pub inputs: Vec<InputView>,
    /// The fee that the pool has on record for the transaction.
    pub pool_fee: Option<u64>,
    /// How many transactions are pending.
    pub pending_count: usize,
    /// Whether another transaction in the pool spends one of the inputs.
    pub pool_conflict: bool,
}

/// What to do with the outputs when a transaction becomes final.
#[derive(Debug)]
pub struct FinalizePlan {
    /// Outputs that are spent for good.
    pub spent: Vec<OutPoint>,
    /// Outputs that can be spent from now on.
    pub created: Vec<UTXO>,
}

/// What to ask the validators, and what to do with the outputs meanwhile.
#[derive(Debug)]
pub struct VotePlan {
    pub tx_hash_commitment: Hash256,
    pub slot_index: u64,
    pub updates: Vec<StateUpdate>,
}

/// What to do with a transaction that was taken in.
#[derive(Debug)]
pub enum ProcessPlan {
    Finalize(FinalizePlan),
    Vote(VotePlan),
}

/// The outputs that a transaction creates.
pub open spec fn created_by(tx: TransactionV, txid: Seq<u8>) -> Seq<UTXOV> {
    Seq::new(
        tx.outputs.len(),
        |i: int|
            UTXOV {
                outpoint: OutPointV { txid, vout: i as u32 },
                value: tx.outputs[i].value,
                script_pubkey: tx.outputs[i].script_pubkey,
                address: if valid_utf8(tx.outputs[i].script_pubkey) {
                    decode_utf8(tx.outputs[i].script_pubkey)
                } else {
                    seq![]
                },
            },
    )
}

/// The outputs that a transaction spends.
pub open spec fn outpoints_of(tx: TransactionV) -> Seq<OutPointV> {
    tx.inputs.map_values(|i: crate::types::TxInputV| i.previous_output)
}

/// Whether a plan is that of a transaction.
pub open spec fn finalizes(plan: FinalizePlan, tx: TransactionV, txid: Seq<u8>) -> bool {
    views(plan.spent@) == outpoints_of(tx) && views(plan.created@) == created_by(tx, txid)
}

/// What is wrong with the shape of a transaction, if anything is.
pub open spec fn shape_fault(tx: TransactionV) -> Option<Seq<char>> {
    if tx.inputs.len() == 0 && tx.outputs.len() == 0 {
        match tx.special_data {
            Some(data) => if data.field_error is None && data.signature_valid
                && data.address_bound {
                None
            } else {
                Some("Ghost TX rejected: no inputs/outputs and no valid special_data"@)
            },
            None => Some("Ghost TX rejected: no inputs/outputs and no valid special_data"@),
        }
    } else if tx.inputs.len() == 0 && tx.special_data is None {
        Some("Transaction has no inputs"@)
    } else if tx.outputs.len() == 0 && tx.special_data is None {
        Some("Transaction has no outputs"@)
    } else {
        None
    }
}

/// The fee of a transaction: what was validated, or what the outputs leave of the
/// inputs. Where no input was found, what the pool has on record.
pub open spec fn fee_of_admitted(
    tx: TransactionV,
    validated_fee: Option<u64>,
    view: ProcessView,
) -> u64 {
    match validated_fee {
        Some(fee) => fee,
        None => {
            let spent = input_value(view.inputs@);
            let sent = output_value(tx.outputs);
            if spent == 0 && tx.inputs.len() > 0 {
                match view.pool_fee {
                    Some(fee) => fee,
                    None => 0,
                }
            } else if spent > sent {
                (spent - sent) as u64
            } else {
                0
            }
        },
    }
}

impl EngineV {
    /// Whether the fee of a transaction is worked out before it is turned down, if
    /// it is.
    pub open spec fn reaches_fee(self, tx: TransactionV, txid: Seq<u8>, view: ProcessView) -> bool {
        &&& self.timevote.registry.active().len() > 0
        &&& shape_fault(tx) is None
        &&& tx.inputs.len() > 0 ==> tx.version >= 2 && forall|i: int|
            0 <= i < view.inputs@.len() ==> !spent_by_other(#[trigger] view.inputs@[i], txid)
    }

    /// Whether the fee of a transaction can be worked out, where it has to be: that
    /// the sums fit.
    pub open spec fn fee_fits(
        self,
        tx: TransactionV,
        txid: Seq<u8>,
        validated_fee: Option<u64>,
        view: ProcessView,
    ) -> bool {
        validated_fee is None && self.reaches_fee(tx, txid, view) ==> input_value(view.inputs@)
            <= u64::MAX && output_value(tx.outputs) <= u64::MAX
    }

    /// Whether a transaction is let into the pool: its fee, or why not.
    pub open spec fn admission(
        self,
        tx: TransactionV,
        txid: Seq<u8>,
        validated_fee: Option<u64>,
        view: ProcessView,
    ) -> Result<u64, Seq<char>> {
        if self.timevote.registry.active().len() == 0 {
            Err("No masternodes available"@)
        } else if shape_fault(tx) is Some {
            Err(shape_fault(tx)->0)
        } else if tx.inputs.len() > 0 && tx.version < 2 {
            Err(
                "Transaction "@ + hex_text(txid)
                    + " rejected: version 1 is no longer accepted (upgrade your wallet to generate v2 transactions)"@,
            )
        } else if tx.inputs.len() > 0 && exists|i: int|
            0 <= i < view.inputs@.len() && spent_by_other(#[trigger] view.inputs@[i], txid) {
            Err(
                "Transaction "@ + hex_text(txid)
                    + " rejected: input already spent by another transaction"@,
            )
        } else if view.pending_count >= MAX_MEMPOOL_TRANSACTIONS {
            Err(
                "Mempool full: "@ + decimal(view.pending_count as nat) + " transactions (max "@
                    + decimal(MAX_MEMPOOL_TRANSACTIONS as nat) + ")"@,
            )
        } else {
            Ok(fee_of_admitted(tx, validated_fee, view))
        }
    }

    /// After a transaction became final without a vote.
    pub open spec fn with_uncontested(
        self,
        txid: Seq<u8>,
        weight: u64,
        now_nanos: u64,
        now_ms: i64,
    ) -> EngineV {
        EngineV {
            timevote: ConsensusV {
                finalized_txs: self.timevote.finalized_txs.insert(
                    txid,
                    (Preference::Accept, now_nanos),
                ),
                tx_status: self.timevote.tx_status.insert(
                    txid,
                    TransactionStatusV::Finalized { finalized_at: now_ms, vfp_weight: weight },
                ),
                ..self.timevote
            },
            ..self
        }
    }

    /// After a vote on a transaction began.
    pub open spec fn with_contested(self, txid: Seq<u8>, now_ms: i64, now_nanos: u64) -> EngineV {
        let held = ConsensusV {
            tx_state: self.timevote.tx_state.insert(
                txid,
                VotingState { preference: Preference::Accept, last_finalized: None },
            ),
            ..self.timevote
        };
        EngineV { timevote: held.voting(txid, now_ms, now_nanos), ..self }
    }

    /// After a vote on a transaction ended, with its weight where it made the
    /// transaction final.
    pub open spec fn with_vote_ended(
        self,
        txid: Seq<u8>,
        weight: Option<u64>,
        now_nanos: u64,
        now_ms: i64,
    ) -> EngineV {
        let settled = match weight {
            Some(w) => self.with_uncontested(txid, w, now_nanos, now_ms),
            None => self,
        };
        EngineV {
            timevote: ConsensusV {
                tx_state: settled.timevote.tx_state.remove(txid),
                ..settled.timevote
            },
            ..settled
        }
    }
}

/// What to do with the outputs of a transaction that becomes final.
pub fn plan_finalize(tx: &Transaction, txid: &Hash256) -> (plan: FinalizePlan)
    ensures
        finalizes(plan, tx@, txid@),
{
    let mut spent: Vec<OutPoint> = Vec::new();
    let mut i: usize = 0;
    while i < tx.inputs.len()
        invariant
            i <= tx.inputs@.len(),
            spent@.len() == i,
            forall|j: int|
                0 <= j < i ==> (#[trigger] spent@[j])@ == tx@.inputs[j].previous_output,
        decreases tx.inputs@.len() - i,
    {
        assert(tx@.inputs[i as int] == tx.inputs@[i as int]@);
        spent.push(tx.inputs[i].previous_output.clone());
        i = i + 1;
    }
    let mut created: Vec<UTXO> = Vec::new();
    let mut k: usize = 0;
    while k < tx.outputs.len()
        invariant
            k <= tx.outputs@.len(),
            created@.len() == k,
            forall|j: int| 0 <= j < k ==> (#[trigger] created@[j])@ == created_by(tx@, txid@)[j],
        decreases tx.outputs@.len() - k,
    {
        assert(tx@.outputs[k as int] == tx.outputs@[k as int]@);
        let output = &tx.outputs[k];
        let address = match text_of_bytes(&output.script_pubkey) {
            Some(text) => text,
            None => String::from_str(""),
        };
        proof {
            reveal_strlit("");
            assert(""@ =~= seq![]);
        }
        created.push(
            UTXO {
                outpoint: OutPoint {
                    txid: *txid,
                    vout: #[verifier::truncate]
                    (k as u32),
                },
                value: output.value,
                script_pubkey: crate::text::copy_bytes(&output.script_pubkey),
                address,
            },
        );
        k = k + 1;
    }
    let plan = FinalizePlan { spent, created };
    assert(views(plan.spent@) =~= outpoints_of(tx@));
    assert(views(plan.created@) =~= created_by(tx@, txid@));
    plan
}

fn find_shape_fault(tx: &Transaction) -> (fault: Option<String>)
    ensures
        crate::types::option_view(fault) == shape_fault(tx@),
{
    if tx.inputs.len() == 0 && tx.outputs.len() == 0 {
        let valid = match &tx.special_data {
            Some(data) => data.field_error.is_none() && data.signature_valid && data.address_bound,
            None => false,
        };
        if valid {
            return None;
        }
        return Some(
            String::from_str("Ghost TX rejected: no inputs/outputs and no valid special_data"),
        );
    }
    if tx.inputs.len() == 0 && tx.special_data.is_none() {
        return Some(String::from_str("Transaction has no inputs"));
    }
    if tx.outputs.len() == 0 && tx.special_data.is_none() {
        return Some(String::from_str("Transaction has no outputs"));
    }
    None
}

impl EngineV {
    /// Whether another state and an answer come from processing a transaction.
    pub open spec fn processes(
        self,
        tx: &Transaction,
        txid: Hash256,
        validated_fee: Option<u64>,
        view: ProcessView,
        added: Result<(), String>,
        tx_bytes: Seq<u8>,
        now_nanos: u64,
        now_ms: i64,
        now_secs: i64,
        after: EngineV,
        processed: Result<ProcessPlan, String>,
    ) -> bool {
        match processed {
            Err(text) => {
                &&& after == self
                &&& match self.admission(tx@, txid@, validated_fee, view) {
                    Err(why) => text@ == why,
                    Ok(_) => added matches Err(why) && text@ == "Failed to add to pool: "@
                        + why@,
                }
            },
            Ok(plan) => {
                let contested = view.pool_conflict || held_by_other(view.inputs@, txid@);
                &&& self.admission(tx@, txid@, validated_fee, view) is Ok
                &&& added is Ok
                &&& match plan {
                    ProcessPlan::Finalize(finish) => {
                        &&& !contested
                        &&& finalizes(finish, tx@, txid@)
                        &&& after == self.with_uncontested(
                            txid@,
                            0,
                            now_nanos,
                            now_ms,
                        )
                    },
                    ProcessPlan::Vote(vote) => {
                        &&& contested
                        &&& vote.tx_hash_commitment@ == sha256(tx_bytes)
                        &&& vote.slot_index == epoch_slot(now_secs)
                        &&& voting_updates(
                            vote.updates@,
                            Some(tx),
                            txid,
                            self.timevote.registry.active().len() as u32,
                            now_secs,
                        )
                        &&& after == self.with_contested(
                            txid@,
                            now_ms,
                            now_nanos,
                        )
                    },
                }
            },
        }
    }
}

impl ConsensusEngine {
    /// Looks at a transaction up to its fee: why it is turned down, if it is.
    fn admit_upto_fee(&self, tx: &Transaction, txid: &Hash256, view: &ProcessView) -> (fault: Option<
        String,
    >)
        ensures
            fault is None <==> self@.reaches_fee(tx@, txid@, *view),
            forall|fee: Option<u64>|
                fault matches Some(text) ==> #[trigger] self@.admission(tx@, txid@, fee, *view)
                    == Err::<u64, Seq<char>>(text@),
    {
        let active = self.timevote.masternode_registry.list_active();
        assert(views(active@).len() == active@.len());
        if active.len() == 0 {
            return Some(String::from_str("No masternodes available"));
        }
        match find_shape_fault(tx) {
            Some(text) => {
                return Some(text);
            },
            None => {},
        }
        let hex = hex_encode(txid);
        if tx.inputs.len() > 0 && tx.version < 2 {
            return Some(
                join3(
                    "Transaction ",
                    hex.as_str(),
                    " rejected: version 1 is no longer accepted (upgrade your wallet to generate v2 transactions)",
                ),
            );
        }
        if tx.inputs.len() > 0 && self.inputs_already_spent_by_other(&view.inputs, txid) {
            return Some(
                join3(
                    "Transaction ",
                    hex.as_str(),
                    " rejected: input already spent by another transaction",
                ),
            );
        }
        None
    }

    /// Whether the fee of a transaction can be worked out, where it has to be.
    pub fn fee_in_range(
        &self,
        tx: &Transaction,
        txid: &Hash256,
        validated_fee: Option<u64>,
        view: &ProcessView,
    ) -> (fit: bool)
        ensures
            fit == self@.fee_fits(tx@, txid@, validated_fee, *view),
    {
        if validated_fee.is_some() || self.admit_upto_fee(tx, txid, view).is_some() {
            return true;
        }
        add_inputs(&view.inputs).is_some() && add_outputs(tx).is_some()
    }

    /// Whether a transaction is let into the pool: the fee to put on record, or
    /// why it is turned down.
    pub fn admit_transaction(
        &self,
        tx: &Transaction,
        txid: &Hash256,
        validated_fee: Option<u64>,
        view: &ProcessView,
    ) -> (admitted: Result<u64, String>)
        requires
            self@.fee_fits(tx@, txid@, validated_fee, *view),
        ensures
            told(admitted) == self@.admission(tx@, txid@, validated_fee, *view),
    {
        match self.admit_upto_fee(tx, txid, view) {
            Some(text) => {
                return Err(text);
            },
            None => {},
        }
        let fee: u64 = match validated_fee {
            Some(fee) => fee,
            None => {
                let input_sum: u64 = sum_inputs(&view.inputs);
                let output_sum: u64 = sum_outputs(tx);
                let computed: u64 = input_sum.saturating_sub(output_sum);
                if computed == 0 && input_sum == 0 && tx.inputs.len() > 0 {
                    match view.pool_fee {
                        Some(fee) => fee,
                        None => 0,
                    }
                } else {
                    computed
                }
            },
        };
        if view.pending_count >= MAX_MEMPOOL_TRANSACTIONS {
            let count = decimal_text(view.pending_count as u64);
            let limit = decimal_text(MAX_MEMPOOL_TRANSACTIONS as u64);
            return Err(
                join5(
                    "Mempool full: ",
                    count.as_str(),
                    " transactions (max ",
                    limit.as_str(),
                    ")",
                ),
            );
        }
        Ok(fee)
    }

    /// Records a transaction as final without counting it, at given times.
    pub fn record_uncontested_at(
        &mut self,
        txid: Hash256,
        weight: u64,
        now_nanos: u64,
        now_ms: i64,
    )
        requires
            old(self).wf(),
        ensures
            final(self).wf(),
            final(self)@ == old(self)@.with_uncontested(txid@, weight, now_nanos, now_ms),
    {
        let ghost before = self@;
        self.timevote.finalized_txs.insert(txid, (Preference::Accept, now_nanos));
        self.timevote.tx_status.insert(
            txid,
            TransactionStatus::Finalized { finalized_at: now_ms, vfp_weight: weight },
        );
        assert(self@.timevote =~= before.with_uncontested(
            txid@,
            weight,
            now_nanos,
            now_ms,
        ).timevote);
    }

    /// Processes a transaction, at given times. `added` is what the pool said
    /// when the transaction was put into it with the admitted fee. A transaction
    /// that nothing competes with becomes final at once; any other is voted on.
    pub fn process_transaction_at(
        &mut self,
        tx: &Transaction,
        txid: Hash256,
        validated_fee: Option<u64>,
        view: &ProcessView,
        added: Result<(), String>,
        tx_bytes: &[u8],
        now_nanos: u64,
        now_ms: i64,
        now_secs: i64,
    ) -> (processed: Result<ProcessPlan, String>)
        requires
            old(self).wf(),
            old(self)@.fee_fits(tx@, txid@, validated_fee, *view),
        ensures
            final(self).wf(),
            old(self)@.processes(
                tx,
                txid,
                validated_fee,
                *view,
                added,
                tx_bytes@,
                now_nanos,
                now_ms,
                now_secs,
                final(self)@,
                processed,
            ),
    {
        match self.admit_transaction(tx, &txid, validated_fee, view) {
            Ok(_) => {},
            Err(text) => {
                return Err(text);
            },
        }
        match added {
            Ok(_) => {},
            Err(text) => {
                return Err(join2("Failed to add to pool: ", text.as_str()));
            },
        }
        let ghost before = self@;
        if !self.has_double_spend_conflict(&view.inputs, &txid, view.pool_conflict) {
            let plan = plan_finalize(tx, &txid);
            self.record_uncontested_at(txid, 0, now_nanos, now_ms);
            return Ok(ProcessPlan::Finalize(plan));
        }
        self.timevote.tx_state.insert(txid, VotingState::new(Preference::Accept));
        let ghost prepared = self@;
        proof {
            assert(prepared.timevote.timeproof_votes == before.timevote.timeproof_votes);
            assert(prepared.timevote.accumulated_weight == before.timevote.accumulated_weight);
        }
        let tx_hash_commitment = sha256_digest(tx_bytes);
        let seconds: u64 = #[verifier::truncate]
        (now_secs as u64);
        let slot_index: u64 = seconds / 600;
        let updates = self.transition_to_voting_at(txid, Some(tx), now_ms, now_secs, now_nanos);
        assert(self@.timevote =~= before.with_contested(txid@, now_ms, now_nanos).timevote);
        assert(self@ =~= before.with_contested(txid@, now_ms, now_nanos));
        Ok(ProcessPlan::Vote(VotePlan { tx_hash_commitment, slot_index, updates }))
    }

    /// Processes a transaction.
    pub fn process_transaction(
        &mut self,
        tx: &Transaction,
        txid: Hash256,
        validated_fee: Option<u64>,
        view: &ProcessView,
        added: Result<(), String>,
        tx_bytes: &[u8],
    ) -> (processed: Result<ProcessPlan, String>)
        requires
            old(self).wf(),
            old(self)@.fee_fits(tx@, txid@, validated_fee, *view),
        ensures
            final(self).wf(),
            exists|nanos: u64, ms: i64, secs: i64| #[trigger]
                old(self)@.processes(
                    tx,
                    txid,
                    validated_fee,
                    *view,
                    added,
                    tx_bytes@,
                    nanos,
                    ms,
                    secs,
                    final(self)@,
                    processed,
                ),
    {
        let nanos: u64 = self.timevote.clock.nanos();
        let ms: i64 = utc_millis();
        let secs: i64 = utc_seconds();
        self.process_transaction_at(
            tx,
            txid,
            validated_fee,
            view,
            added,
            tx_bytes,
            nanos,
            ms,
            secs,
        )
    }

    /// Ends the vote on a transaction, at given times. `weight` is what it
    /// became final with, if it did.
    pub fn conclude_vote_at(
        &mut self,
        txid: Hash256,
        weight: Option<u64>,
        now_nanos: u64,
        now_ms: i64,
    )
        requires
            old(self).wf(),
        ensures
            final(self).wf(),
            final(self)@ == old(self)@.with_vote_ended(txid@, weight, now_nanos, now_ms),
    {
        let ghost before = self@;
        match weight {
            Some(w) => {
                self.record_uncontested_at(txid, w, now_nanos, now_ms);
            },
            None => {},
        }
        let ghost settled = self@;
        let _ = self.timevote.tx_state.remove(&txid);
        proof {
            assert(self@.timevote.timeproof_votes == settled.timevote.timeproof_votes);
            assert(self@.timevote.accumulated_weight == settled.timevote.accumulated_weight);
            assert(self@.timevote =~= before.with_vote_ended(
                txid@,
                weight,
                now_nanos,
                now_ms,
            ).timevote);
            assert(self@ =~= before.with_vote_ended(txid@, weight, now_nanos, now_ms));
        }
    }
}

/// A vote that is being watched: when it began, and how many seconds it has.
#[derive(Debug, Clone, Copy)]
pub struct VoteMonitor {
    pub started: u64,
    pub deadline_secs: u64,
}

/// What to do about a vote.
#[derive(Debug)]
pub enum MonitorAction {
    /// Nothing more: the transaction is final or gone.
    Done,
    /// Look again after a while.
    Wait,
    /// Look again at once: the vote has more time.
    Extended,
    /// Reject the transaction.
    Reject(String),
    /// Make the transaction final with this weight.
    Finalize(u64),
}

/// What to do about a vote, as plain values.
pub enum MonitorActionV {
    Done,
    Wait,
    Extended,
    Reject(Seq<char>),
    Finalize(u64),
}

impl View for MonitorAction {
    type V = MonitorActionV;

    open spec fn view(&self) -> MonitorActionV {
        match *self {
            MonitorAction::Done => MonitorActionV::Done,
            MonitorAction::Wait => MonitorActionV::Wait,
            MonitorAction::Extended => MonitorActionV::Extended,
            MonitorAction::Reject(reason) => MonitorActionV::Reject(reason@),
            MonitorAction::Finalize(weight) => MonitorActionV::Finalize(weight),
        }
    }
}

impl VoteMonitor {
    /// Starts to watch a vote at a clock reading.
    pub fn new(now_nanos: u64) -> (monitor: Self)
        ensures
            monitor == (VoteMonitor { started: now_nanos, deadline_secs: INITIAL_VOTE_SECONDS }),
    {
        VoteMonitor { started: now_nanos, deadline_secs: INITIAL_VOTE_SECONDS }
    }

    /// After something was done about the vote.
    pub open spec fn after(self, action: MonitorActionV) -> VoteMonitor {
        VoteMonitor {
            deadline_secs: if action is Extended {
                (self.deadline_secs + 5) as u64
            } else {
                self.deadline_secs
            },
            ..self
        }
    }

    /// How long the vote has run, in nanoseconds.
    pub open spec fn elapsed(self, now_nanos: u64) -> int {
        if now_nanos > self.started {
            now_nanos - self.started
        } else {
            0
        }
    }
}

impl EngineV {
    /// The weight of all active validators.
    pub open spec fn total_weight(self) -> nat {
        validator_weight(self.timevote.registry.validators())
    }

    /// What to do about a vote whose time has run out.
    pub open spec fn timed_out_vote(self, txid: Seq<u8>, monitor: VoteMonitor, now_nanos: u64) -> MonitorActionV {
        let weight = count_at(self.timevote.accumulated_weight, txid);
        let seconds = (monitor.elapsed(now_nanos) / 1_000_000_000) as u64;
        let threshold = finality_weight(self.total_weight() as int, seconds);
        let accepts = match at(self.timevote.tx_state, txid) {
            Some(state) => state.preference == Preference::Accept,
            None => true,
        };
        if weight < crate::fees::ceil_div(threshold, 4) && monitor.deadline_secs
            < MAX_VOTE_SECONDS {
            MonitorActionV::Extended
        } else if !accepts {
            MonitorActionV::Reject("TimeVote rejected by validators"@)
        } else if weight < threshold {
            MonitorActionV::Reject(
                "TimeVote quorum not reached: "@ + decimal(weight as nat) + " < "@ + decimal(
                    threshold as nat,
                ) + " ("@ + decimal(quorum_percent(seconds) as nat) + "% of AVS)"@,
            )
        } else {
            MonitorActionV::Finalize(weight)
        }
    }

    /// Whether a vote is still open and its time has run out.
    pub open spec fn runs_out(
        self,
        txid: Seq<u8>,
        monitor: VoteMonitor,
        in_final_pool: bool,
        pending: Map<Seq<u8>, Vec<Option<UTXOState>>>,
        now_nanos: u64,
    ) -> bool {
        &&& !self.timevote.finalized_txs.contains_key(txid)
        &&& !in_final_pool
        &&& self.still_valid(txid, pending)
        &&& monitor.elapsed(now_nanos) >= monitor.deadline_secs * 1_000_000_000
    }

    /// Whether the weight that a vote needs at a time can be worked out.
    pub open spec fn quorum_fits(self, monitor: VoteMonitor, now_nanos: u64) -> bool {
        self.total_weight() * quorum_percent(
            (monitor.elapsed(now_nanos) / 1_000_000_000) as u64,
        ) <= u64::MAX
    }

    /// What to do about a vote.
    pub open spec fn monitored(
        self,
        txid: Seq<u8>,
        monitor: VoteMonitor,
        in_final_pool: bool,
        pending: Map<Seq<u8>, Vec<Option<UTXOState>>>,
        now_nanos: u64,
    ) -> MonitorActionV {
        if self.timevote.finalized_txs.contains_key(txid) || in_final_pool || !self.still_valid(
            txid,
            pending,
        ) {
            MonitorActionV::Done
        } else if monitor.elapsed(now_nanos) < monitor.deadline_secs * 1_000_000_000 {
            MonitorActionV::Wait
        } else {
            self.timed_out_vote(txid, monitor, now_nanos)
        }
    }
}

impl ConsensusEngine {
    /// Looks at a vote, at a clock reading, and says what to do. A vote with
    /// little weight gets more time, up to fifteen seconds; after that the
    /// transaction is final with a quorum and rejected without.
    pub fn monitor_vote(
        &self,
        txid: &Hash256,
        monitor: &mut VoteMonitor,
        in_final_pool: bool,
        pending: &PendingInputs,
        now_nanos: u64,
    ) -> (action: MonitorAction)
        requires
            self.wf(),
            pending.wf(),
            old(monitor).deadline_secs <= MAX_VOTE_SECONDS,
            self@.runs_out(txid@, *old(monitor), in_final_pool, pending@, now_nanos)
                ==> self@.quorum_fits(*old(monitor), now_nanos),
        ensures
            action@ == self@.monitored(txid@, *old(monitor), in_final_pool, pending@, now_nanos),
            *final(monitor) == old(monitor).after(action@),
            action is Extended ==> old(monitor).deadline_secs < MAX_VOTE_SECONDS,
    {
        if self.timevote.finalized_txs.contains_key(txid) {
            return MonitorAction::Done;
        }
        if in_final_pool {
            return MonitorAction::Done;
        }
        if !self.is_transaction_still_valid(txid, pending) {
            return MonitorAction::Done;
        }
        let elapsed: u64 = now_nanos.saturating_sub(monitor.started);
        if elapsed < monitor.deadline_secs * 1_000_000_000 {
            return MonitorAction::Wait;
        }
        let weight: u64 = self.timevote.get_accumulated_weight(txid);
        let accepts = match self.timevote.tx_state.get(txid) {
            Some(state) => matches!(state.preference, Preference::Accept),
            None => true,
        };
        let elapsed_secs: u64 = elapsed / 1_000_000_000;
        proof {
            let t = self@.total_weight() as int;
            let q = quorum_percent(elapsed_secs) as int;
            assert(t <= t * q) by (nonlinear_arith)
                requires
                    t >= 0,
                    q >= 1,
            ;
        }
        let validators = self.timevote.masternode_registry.validators();
        let total: u64 = weigh_validators(&validators);
        let (threshold, floor) = vote_finality_threshold(total, elapsed_secs);
        if weight < floor && monitor.deadline_secs < MAX_VOTE_SECONDS {
            monitor.deadline_secs = monitor.deadline_secs + 5;
            return MonitorAction::Extended;
        }
        if !accepts {
            return MonitorAction::Reject(String::from_str("TimeVote rejected by validators"));
        }
        if weight < threshold {
            let got = decimal_text(weight);
            let needed = decimal_text(threshold);
            let percent = if elapsed_secs >= 30 {
                decimal_text(51)
            } else {
                decimal_text(67)
            };
            return MonitorAction::Reject(
                join7(
                    "TimeVote quorum not reached: ",
                    got.as_str(),
                    " < ",
                    needed.as_str(),
                    " (",
                    percent.as_str(),
                    "% of AVS)",
                ),
            );
        }
        MonitorAction::Finalize(weight)
    }
}

/// A vote makes a transaction final only with the quorum, and only a transaction
/// that the node prefers to accept.
pub proof fn finality_needs_quorum(
    held: EngineV,
    txid: Seq<u8>,
    monitor: VoteMonitor,
    in_final_pool: bool,
    pending: Map<Seq<u8>, Vec<Option<UTXOState>>>,
    now_nanos: u64,
)
    ensures
        held.monitored(txid, monitor, in_final_pool, pending, now_nanos) matches
            MonitorActionV::Finalize(weight) ==> {
            &&& weight == count_at(held.timevote.accumulated_weight, txid)
            &&& weight >= finality_weight(
                held.total_weight() as int,
                (monitor.elapsed(now_nanos) / 1_000_000_000) as u64,
            )
            &&& held.timevote.tx_state.contains_key(txid) ==> held.timevote.tx_state[txid].preference
                == Preference::Accept
        },
{
}

/// Two final transactions out of a vote do not fit into one network: where the
/// weights behind them are of different voters, they do not both reach a quorum.
pub proof fn quorums_overlap(total: int, first: int, second: int, secs_a: u64, secs_b: u64)
    requires
        total > 0,
        first + second <= total,
        first >= finality_weight(total, secs_a),
    ensures
        second < finality_weight(total, secs_b),
{
    crate::thresholds::final_means_more_than_half(total, secs_a);
    crate::thresholds::final_means_more_than_half(total, secs_b);
}

/// A transaction that something competes with never becomes final without a vote.
pub proof fn contested_is_voted_on(inputs: Seq<InputView>, txid: Seq<u8>, i: int)
    requires
        0 <= i < inputs.len(),
        holder_of(inputs[i].state) matches Some(other) && other != txid,
    ensures
        held_by_other(inputs, txid),
{
    assert(crate::validation::belongs_to_other(inputs[i].state, txid));
}

/// A transaction that the node prefers to accept becomes final with its weight once
/// the time of its vote has run out and enough weight accepts it: 67 hundredths of
/// all, or 51 from half a minute on.
pub proof fn quorum_suffices(
    held: EngineV,
    txid: Seq<u8>,
    monitor: VoteMonitor,
    pending: Map<Seq<u8>, Vec<Option<UTXOState>>>,
    now_nanos: u64,
)
    requires
        held.runs_out(txid, monitor, false, pending, now_nanos),
        held.timevote.tx_state.contains_key(txid) ==> held.timevote.tx_state[txid].preference
            == Preference::Accept,
        ({
            let weight = count_at(held.timevote.accumulated_weight, txid);
            let seconds = monitor.elapsed(now_nanos) / 1_000_000_000;
            ||| 100 * weight >= 67 * held.total_weight()
            ||| seconds >= 30 && 100 * weight >= 51 * held.total_weight()
        }),
    ensures
        held.monitored(txid, monitor, false, pending, now_nanos) == MonitorActionV::Finalize(
            count_at(held.timevote.accumulated_weight, txid),
        ),
{
    let seconds = (monitor.elapsed(now_nanos) / 1_000_000_000) as u64;
    let total = held.total_weight() as int;
    let needed = finality_weight(total, seconds);
    crate::thresholds::finality_weight_is_the_share(total, seconds);
    crate::fees::quotients_are_rounded_up(needed, 4);
}

/// A vote is left alone when its transaction is final or can no longer become so,
/// waited for while its time runs, and given more time while it has less than a
/// quarter of the quorum and fewer than fifteen seconds. After that a transaction
/// that the node prefers to reject, or without the quorum, is rejected.
pub proof fn votes_take_their_course(
    held: EngineV,
    txid: Seq<u8>,
    monitor: VoteMonitor,
    in_final_pool: bool,
    pending: Map<Seq<u8>, Vec<Option<UTXOState>>>,
    now_nanos: u64,
)
    ensures
        ({
            let action = held.monitored(txid, monitor, in_final_pool, pending, now_nanos);
            let closed = held.timevote.finalized_txs.contains_key(txid) || in_final_pool
                || !held.still_valid(txid, pending);
            let ran: int = if now_nanos >= monitor.started {
                now_nanos - monitor.started
            } else {
                0
            };
            let weight = count_at(held.timevote.accumulated_weight, txid);
            let quorum = finality_weight(
                held.total_weight() as int,
                (ran / 1_000_000_000) as u64,
            );
            let little = 4 * weight < quorum && monitor.deadline_secs < 15;
            let unwanted = held.timevote.tx_state.contains_key(txid)
                && held.timevote.tx_state[txid].preference == Preference::Reject;
            &&& closed <==> action is Done
            &&& !closed && ran < monitor.deadline_secs * 1_000_000_000 <==> action is Wait
            &&& !closed && ran >= monitor.deadline_secs * 1_000_000_000 ==> {
                &&& little <==> action is Extended
                &&& !little && (unwanted || weight < quorum) <==> action is Reject
                &&& !little && !unwanted && weight >= quorum <==> action
                    == MonitorActionV::Finalize(weight)
            }
        }),
{
    let seconds = (monitor.elapsed(now_nanos) / 1_000_000_000) as u64;
    let total = held.total_weight() as int;
    let needed = finality_weight(total, seconds);
    crate::thresholds::finality_weight_is_the_share(total, seconds);
    crate::fees::quotients_are_rounded_up(needed, 4);
}

/// What becomes final spends and creates just what the transaction says: the output
/// at place `i` of the transaction stands behind its hash under the number `i`, with
/// its value and its script, and at the address that the script spells.
pub proof fn final_outputs_stand_at_their_places(
    plan: FinalizePlan,
    tx: TransactionV,
    txid: Seq<u8>,
    i: int,
)
    requires
        finalizes(plan, tx, txid),
        tx.outputs.len() <= u32::MAX,
    ensures
        plan.created@.len() == tx.outputs.len(),
        0 <= i < tx.outputs.len() ==> {
            let made = plan.created@[i]@;
            &&& made.outpoint.txid == txid
            &&& made.outpoint.vout == i
            &&& made.value == tx.outputs[i].value
            &&& made.script_pubkey == tx.outputs[i].script_pubkey
            &&& valid_utf8(tx.outputs[i].script_pubkey) ==> made.address == decode_utf8(
                tx.outputs[i].script_pubkey,
            )
            &&& !valid_utf8(tx.outputs[i].script_pubkey) ==> made.address.len() == 0
        },
        plan.spent@.len() == tx.inputs.len(),
        0 <= i < tx.inputs.len() ==> plan.spent@[i]@ == tx.inputs[i].previous_output,
{
    assert(views(plan.created@).len() == plan.created@.len());
    assert(views(plan.spent@).len() == plan.spent@.len());
    if 0 <= i < tx.outputs.len() {
        assert(views(plan.created@)[i] == plan.created@[i]@);
    }
    if 0 <= i < tx.inputs.len() {
        assert(views(plan.spent@)[i] == plan.spent@[i]@);
    }
}

/// Money is neither made nor lost when a transaction becomes final: what it creates
/// is worth what its outputs say.
pub proof fn created_outputs_keep_the_value(tx: TransactionV, txid: Seq<u8>)
    ensures
        output_value(
            created_by(tx, txid).map_values(
                |u: UTXOV| crate::types::TxOutputV {
                    value: u.value,
                    script_pubkey: u.script_pubkey,
                },
            ),
        ) == output_value(tx.outputs),
{
    let made = created_by(tx, txid).map_values(
        |u: UTXOV| crate::types::TxOutputV { value: u.value, script_pubkey: u.script_pubkey },
    );
    assert(made =~= tx.outputs);
}

/// A transaction that is let in and put into the pool becomes final at once where
/// nothing competes with it, and is voted on where something does; one that is not
/// changes nothing.
pub proof fn admitted_transactions_are_settled_or_voted_on(
    held: EngineV,
    tx: &Transaction,
    txid: Hash256,
    validated_fee: Option<u64>,
    view: ProcessView,
    added: Result<(), String>,
    tx_bytes: Seq<u8>,
    now_nanos: u64,
    now_ms: i64,
    now_secs: i64,
    after: EngineV,
    processed: Result<ProcessPlan, String>,
)
    requires
        held.processes(
            tx,
            txid,
            validated_fee,
            view,
            added,
            tx_bytes,
            now_nanos,
            now_ms,
            now_secs,
            after,
            processed,
        ),
    ensures
        ({
            let let_in = held.admission(tx@, txid@, validated_fee, view) is Ok && added is Ok;
            let contested = view.pool_conflict || exists|i: int|
                0 <= i < view.inputs@.len() && (holder_of(
                    (#[trigger] view.inputs@[i]).state,
                ) matches Some(other) && other != txid@);
            &&& processed is Ok <==> let_in
            &&& !let_in ==> after == held
            &&& let_in && !contested ==> processed->Ok_0 is Finalize
                && after.timevote.finalized_txs.contains_key(txid@)
                && after.timevote.finalized_txs[txid@].0 == Preference::Accept
                && after.timevote.tx_status[txid@] is Finalized
            &&& let_in && contested ==> processed->Ok_0 is Vote
                && after.timevote.tx_status[txid@] is Voting
                && after.timevote.stall_timers[txid@] == now_nanos
                && after.timevote.tx_state[txid@].preference == Preference::Accept
                && after.timevote.finalized_txs == held.timevote.finalized_txs
        }),
{
    let inputs = view.inputs@;
    if exists|i: int|
        0 <= i < inputs.len() && (holder_of((#[trigger] inputs[i]).state) matches Some(other)
            && other != txid@) {
        let i = choose|i: int|
            0 <= i < inputs.len() && (holder_of((#[trigger] inputs[i]).state) matches Some(other)
                && other != txid@);
        contested_is_voted_on(inputs, txid@, i);
    }
    if held_by_other(inputs, txid@) {
        let i = choose|i: int|
            0 <= i < inputs.len() && crate::validation::belongs_to_other(
                (#[trigger] inputs[i]).state,
                txid@,
            );
        assert(holder_of(inputs[i].state) is Some);
    }
}

/// Who is let into the pool: with a masternode at work, a transaction that has inputs
/// and outputs or special data, of version 2 or later where it spends anything, whose
/// inputs nobody else has spent, while fewer than ten thousand are pending. Anything
/// else is turned down.
pub proof fn pool_takes_sound_transactions(
    held: EngineV,
    tx: TransactionV,
    txid: Seq<u8>,
    validated_fee: Option<u64>,
    view: ProcessView,
)
    requires
        tx.special_data is None,
    ensures
        held.admission(tx, txid, validated_fee, view) is Ok <==> {
            &&& held.timevote.registry.active().len() > 0
            &&& tx.inputs.len() > 0
            &&& tx.outputs.len() > 0
            &&& tx.version >= 2
            &&& forall|i: int|
                0 <= i < view.inputs@.len() ==> !spent_by_other(#[trigger] view.inputs@[i], txid)
            &&& view.pending_count < 10_000
        },
{
}

/// The fee on record is the one that was validated; without one it is what the inputs
/// are worth above the outputs.
pub proof fn recorded_fee_is_what_is_left(
    held: EngineV,
    tx: TransactionV,
    txid: Seq<u8>,
    validated_fee: Option<u64>,
    view: ProcessView,
)
    requires
        held.admission(tx, txid, validated_fee, view) is Ok,
        input_value(view.inputs@) <= u64::MAX,
    ensures
        ({
            let fee = held.admission(tx, txid, validated_fee, view)->Ok_0;
            let spent = input_value(view.inputs@);
            &&& validated_fee matches Some(paid) ==> fee == paid
            &&& validated_fee is None && spent > 0 && spent >= output_value(tx.outputs) ==> fee
                + output_value(tx.outputs) == spent
            &&& validated_fee is None && 0 < spent < output_value(tx.outputs) ==> fee == 0
            &&& validated_fee is None && spent == 0 && tx.inputs.len() > 0 ==> fee == (
            match view.pool_fee {
                Some(known) => known,
                None => 0,
            })
        }),
{
}

/// A vote that ended is over: nothing of it is kept. With a weight the transaction is
/// final with that weight, without one its status stays as it was.
pub proof fn ended_votes_are_over(
    held: EngineV,
    txid: Seq<u8>,
    weight: Option<u64>,
    now_nanos: u64,
    now_ms: i64,
)
    ensures
        ({
            let after = held.with_vote_ended(txid, weight, now_nanos, now_ms).timevote;
            &&& !after.tx_state.contains_key(txid)
            &&& weight matches Some(w) ==> after.finalized_txs.contains_key(txid)
                && after.finalized_txs[txid] == (Preference::Accept, now_nanos)
                && after.tx_status[txid] == (TransactionStatusV::Finalized {
                finalized_at: now_ms,
                vfp_weight: w,
            })
            &&& weight is None ==> after.finalized_txs == held.timevote.finalized_txs
                && after.tx_status == held.timevote.tx_status
        }),
{
}

/// A vote that is given more time gets five seconds, and never more than twenty in
/// all; nothing else moves its deadline, and nothing its beginning.
pub proof fn votes_are_extended_by_five_seconds(
    held: EngineV,
    txid: Seq<u8>,
    monitor: VoteMonitor,
    in_final_pool: bool,
    pending: Map<Seq<u8>, Vec<Option<UTXOState>>>,
    now_nanos: u64,
)
    requires
        monitor.deadline_secs <= 15,
    ensures
        ({
            let action = held.monitored(txid, monitor, in_final_pool, pending, now_nanos);
            let next = monitor.after(action);
            &&& next.started == monitor.started
            &&& action is Extended ==> next.deadline_secs == monitor.deadline_secs + 5
            &&& !(action is Extended) ==> next.deadline_secs == monitor.deadline_secs
            &&& next.deadline_secs < 20
        }),
{
}

/// What a vote asks for: the hash of the transaction's bytes and the ten minutes of the
/// Unix epoch that it falls into; meanwhile every input counts as being spent by it.
pub proof fn votes_name_the_transaction(
    held: EngineV,
    tx: &Transaction,
    txid: Hash256,
    validated_fee: Option<u64>,
    view: ProcessView,
    added: Result<(), String>,
    tx_bytes: Seq<u8>,
    now_nanos: u64,
    now_ms: i64,
    now_secs: i64,
    after: EngineV,
    processed: Result<ProcessPlan, String>,
    i: int,
)
    requires
        held.processes(
            tx,
            txid,
            validated_fee,
            view,
            added,
            tx_bytes,
            now_nanos,
            now_ms,
            now_secs,
            after,
            processed,
        ),
        now_secs >= 0,
    ensures
        processed matches Ok(ProcessPlan::Vote(vote)) ==> {
            &&& vote.tx_hash_commitment@ == sha256(tx_bytes)
            &&& 600 * vote.slot_index <= now_secs < 600 * (vote.slot_index + 1)
            &&& vote.updates@.len() == tx@.inputs.len()
            &&& 0 <= i < tx@.inputs.len() ==> vote.updates@[i].outpoint@
                == tx@.inputs[i].previous_output && (
            vote.updates@[i].state matches UTXOState::SpentPending { txid: by, votes, spent_at, .. }
                && by == txid && votes == 0 && spent_at == now_secs)
        },
        processed matches Ok(ProcessPlan::Finalize(finish)) ==> {
            &&& finalizes(finish, tx@, txid@)
            &&& after.timevote.tx_status[txid@] == (TransactionStatusV::Finalized {
                finalized_at: now_ms,
                vfp_weight: 0,
            })
            &&& after.timevote.finalized_txs[txid@] == (Preference::Accept, now_nanos)
        },
{
}

/// Without inputs and outputs a transaction needs special data that is sound: signed and
/// bound to its address. With special data it needs neither inputs nor outputs.
pub proof fn special_data_can_stand_alone(tx: TransactionV, data: crate::types::SpecialDataV)
    requires
        tx.special_data == Some(data),
    ensures
        tx.inputs.len() == 0 && tx.outputs.len() == 0 ==> (shape_fault(tx) is None
            <==> data.field_error is None && data.signature_valid && data.address_bound),
        tx.inputs.len() > 0 || tx.outputs.len() > 0 ==> shape_fault(tx) is None,
{
}

} // verus!
