//! Locking and unlocking outputs, and clearing the pool of what is stuck, stale,
//! banned or cannot be spent.

use crate::clock::utc_millis;
use crate::engine::{ConsensusEngine, EngineV};
use crate::messages::{MessageV, NetworkMessage};
use crate::processing::{finalizes, FinalizePlan};
use crate::status::StateUpdate;
use crate::sums::views;
use crate::text::{decimal, decimal_text, join2, join3, told};
use crate::timevote::ConsensusV;
use crate::types::{
    same_hash, Hash256, OutPoint, OutPointV, Transaction, TransactionStatusV, TransactionV,
    UTXOState,
};
use crate::validation::{authorised_upto, held_by_other, spent_by_other, InputView, TransactionView};
use vstd::prelude::*;

verus! {

/// The outputs at the chosen places of a transaction's inputs.
pub open spec fn chosen(tx: TransactionV, pick: spec_fn(int) -> bool, n: int) -> Seq<OutPointV>
    decreases n,
{
    if n <= 0 {
        seq![]
    } else if pick(n - 1) {
        chosen(tx, pick, n - 1).push(tx.inputs[n - 1].previous_output)
    } else {
        chosen(tx, pick, n - 1)
    }
}

/// Whether updates set some outputs, in order, to one state.
pub open spec fn sets_all(updates: Seq<StateUpdate>, outpoints: Seq<OutPointV>, state: UTXOState) -> bool {
    &&& updates.len() == outpoints.len()
    &&& forall|i: int|
        0 <= i < updates.len() ==> (#[trigger] updates[i]).outpoint@ == outpoints[i]
            && updates[i].state == state
}

/// Whether an output is locked for a transaction.
pub open spec fn locked_for(state: Option<UTXOState>, txid: Seq<u8>) -> bool {
    state matches Some(UTXOState::Locked { txid: by, .. }) && by@ == txid
}

/// Whether an output is locked for a transaction or being spent by it.
pub open spec fn reserved_for(state: Option<UTXOState>, txid: Seq<u8>) -> bool {
    locked_for(state, txid) || (state matches Some(UTXOState::SpentPending { txid: by, .. })
        && by@ == txid)
}

/// Whether an output is locked or spent, but not archived.
pub open spec fn is_taken(state: Option<UTXOState>) -> bool {
    match state {
        Some(UTXOState::SpentFinalized { .. }) => true,
        Some(UTXOState::SpentPending { .. }) => true,
        Some(UTXOState::Locked { .. }) => true,
        _ => false,
    }
}

/// Whether an output can be locked.
pub open spec fn is_free(state: Option<UTXOState>) -> bool {
    match state {
        Some(UTXOState::Unspent) => true,
        None => true,
        _ => false,
    }
}

/// The inputs that are locked for a transaction.
pub open spec fn own_locks(tx: TransactionV, states: Seq<Option<UTXOState>>, txid: Seq<u8>) -> Seq<
    OutPointV,
> {
    chosen(tx, |i: int| locked_for(states[i], txid), tx.inputs.len() as int)
}

/// The inputs that can be locked.
pub open spec fn free_inputs(tx: TransactionV, inputs: Seq<InputView>) -> Seq<OutPointV> {
    chosen(tx, |i: int| is_free(inputs[i].state), tx.inputs.len() as int)
}

/// The inputs that a stale transaction gives back.
pub open spec fn given_back(tx: TransactionV, inputs: Seq<InputView>, txid: Seq<u8>) -> Seq<OutPointV> {
    chosen(
        tx,
        |i: int| !inputs[i].collateral_locked && reserved_for(inputs[i].state, txid),
        tx.inputs.len() as int,
    )
}

/// The inputs that an evicted transaction gives back: those that exist and are
/// taken, but no collateral.
pub open spec fn restored(tx: TransactionV, inputs: Seq<InputView>) -> Seq<OutPointV> {
    chosen(
        tx,
        |i: int| inputs[i].utxo is Some && !inputs[i].collateral_locked && is_taken(inputs[i].state),
        tx.inputs.len() as int,
    )
}

/// The inputs of a final transaction that are still there to be marked as spent.
pub open spec fn unmarked(tx: TransactionV, inputs: Seq<InputView>) -> Seq<OutPointV> {
    chosen(
        tx,
        |i: int| !inputs[i].tombstoned && inputs[i].utxo is Some,
        tx.inputs.len() as int,
    )
}

/// Whether an input neither exists nor was ever spent for good.
pub open spec fn has_phantom(inputs: Seq<InputView>) -> bool {
    exists|i: int|
        0 <= i < inputs.len() && (#[trigger] inputs[i]).utxo is None && !inputs[i].tombstoned
}

/// The outputs of a transaction that are known to the store.
pub open spec fn known_outputs(txid: Seq<u8>, known: Seq<bool>) -> Seq<OutPointV>
    decreases known.len(),
{
    if known.len() == 0 {
        seq![]
    } else if known.last() {
        known_outputs(txid, known.drop_last()).push(
            OutPointV { txid, vout: (known.len() - 1) as u32 },
        )
    } else {
        known_outputs(txid, known.drop_last())
    }
}

fn is_locked_for(state: &Option<UTXOState>, txid: &Hash256) -> (yes: bool)
    ensures
        yes == locked_for(*state, txid@),
{
    match state {
        Some(UTXOState::Locked { txid: by, .. }) => same_hash(by, txid),
        _ => false,
    }
}

fn is_reserved_for(state: &Option<UTXOState>, txid: &Hash256) -> (yes: bool)
    ensures
        yes == reserved_for(*state, txid@),
{
    match state {
        Some(UTXOState::Locked { txid: by, .. }) => same_hash(by, txid),
        Some(UTXOState::SpentPending { txid: by, .. }) => same_hash(by, txid),
        _ => false,
    }
}

fn taken(state: &Option<UTXOState>) -> (yes: bool)
    ensures
        yes == is_taken(*state),
{
    match state {
        Some(UTXOState::SpentFinalized { .. }) => true,
        Some(UTXOState::SpentPending { .. }) => true,
        Some(UTXOState::Locked { .. }) => true,
        _ => false,
    }
}

fn free(state: &Option<UTXOState>) -> (yes: bool)
    ensures
        yes == is_free(*state),
{
    match state {
        Some(UTXOState::Unspent) => true,
        None => true,
        _ => false,
    }
}

/// Lists the inputs at the places that a list marks.
fn pick_inputs(tx: &Transaction, marks: &Vec<bool>) -> (picked: Vec<OutPoint>)
    requires
        marks@.len() == tx@.inputs.len(),
    ensures
        forall|pick: spec_fn(int) -> bool|
            (forall|i: int| 0 <= i < marks@.len() ==> #[trigger] marks@[i] == pick(i))
                ==> views(picked@) == #[trigger] chosen(tx@, pick, tx@.inputs.len() as int),
{
    let ghost by_mark = |i: int| marks@[i];
    let mut picked: Vec<OutPoint> = Vec::new();
    let mut i: usize = 0;
    assert(views(picked@) =~= chosen(tx@, by_mark, 0));
    while i < tx.inputs.len()
        invariant
            i <= tx.inputs@.len(),
            marks@.len() == tx@.inputs.len(),
            by_mark == (|i: int| marks@[i]),
            views(picked@) == chosen(tx@, by_mark, i as int),
        decreases tx.inputs@.len() - i,
    {
        assert(tx@.inputs[i as int] == tx.inputs@[i as int]@);
        if marks[i] {
            let ghost held = views(picked@);
            let outpoint = tx.inputs[i].previous_output.clone();
            picked.push(outpoint);
            assert(views(picked@) =~= held.push(outpoint@));
        }
        i = i + 1;
    }
    proof {
        assert forall|pick: spec_fn(int) -> bool|
            (forall|i: int| 0 <= i < marks@.len() ==> #[trigger] marks@[i] == pick(
                i,
            )) implies views(picked@) == #[trigger] chosen(tx@, pick, tx@.inputs.len() as int) by {
            lemma_chosen_agrees(tx@, by_mark, pick, tx@.inputs.len() as int);
        }
    }
    picked
}

proof fn lemma_chosen_agrees(
    tx: TransactionV,
    a: spec_fn(int) -> bool,
    b: spec_fn(int) -> bool,
    n: int,
)
    requires
        forall|i: int| 0 <= i < n ==> #[trigger] a(i) == b(i),
    ensures
        chosen(tx, a, n) == chosen(tx, b, n),
    decreases n,
{
    if n > 0 {
        assert(a(n - 1) == b(n - 1));
        lemma_chosen_agrees(tx, a, b, n - 1);
    }
}

fn set_all(outpoints: Vec<OutPoint>, state: UTXOState) -> (updates: Vec<StateUpdate>)
    ensures
        sets_all(updates@, views(outpoints@), state),
{
    let mut updates: Vec<StateUpdate> = Vec::new();
    let mut i: usize = 0;
    while i < outpoints.len()
        invariant
            i <= outpoints@.len(),
            updates@.len() == i,
            forall|j: int|
                0 <= j < i ==> (#[trigger] updates@[j]).outpoint@ == outpoints@[j]@
                    && updates@[j].state == state,
        decreases outpoints@.len() - i,
    {
        updates.push(StateUpdate { outpoint: outpoints[i].clone(), state });
        i = i + 1;
    }
    updates
}

/// All inputs of a transaction.
fn all_inputs(tx: &Transaction) -> (outpoints: Vec<OutPoint>)
    ensures
        views(outpoints@) == crate::processing::outpoints_of(tx@),
{
    let mut outpoints: Vec<OutPoint> = Vec::new();
    let mut i: usize = 0;
    while i < tx.inputs.len()
        invariant
            i <= tx.inputs@.len(),
            outpoints@.len() == i,
            forall|j: int|
                0 <= j < i ==> (#[trigger] outpoints@[j])@ == tx@.inputs[j].previous_output,
        decreases tx.inputs@.len() - i,
    {
        assert(tx@.inputs[i as int] == tx.inputs@[i as int]@);
        outpoints.push(tx.inputs[i].previous_output.clone());
        i = i + 1;
    }
    assert(views(outpoints@) =~= crate::processing::outpoints_of(tx@));
    outpoints
}

/// What came of locking and validating a transaction.
#[derive(Debug)]
pub struct LockOutcome {
    /// The fee, or why the transaction is turned down.
    pub result: Result<u64, String>,
    /// How many of the first inputs are known to be signed by their key.
    pub verified: usize,
    /// Outputs to free again.
    pub released: Vec<StateUpdate>,
    /// Locks to tell others of.
    pub announced: Vec<StateUpdate>,
}

/// What to do about a transaction that is stuck in the pool, at first.
#[derive(Debug)]
pub enum RetryStart {
    /// It is not pending any more.
    Skip,
    /// It is to be rejected.
    Reject(String),
    /// These outputs are to be locked for it again.
    Relock(Vec<OutPoint>),
}

/// What to do about a transaction that is stuck in the pool, once it is locked.
#[derive(Debug)]
pub enum RetryDecision {
    /// It is to be rejected.
    Reject(String),
    /// It stays; its fee on record may have to be put right.
    Leave { repaired_fee: Option<u64> },
    /// It becomes final; its fee on record may have to be put right.
    Finalize { repaired_fee: Option<u64>, plan: FinalizePlan },
}

/// What to undo for a transaction that is dropped.
#[derive(Debug)]
pub struct EvictionPlan {
    /// Outputs that become free again.
    pub restored: Vec<StateUpdate>,
    /// Outputs that never were.
    pub removed: Vec<OutPoint>,
}

/// Whether a plan is the one for a final transaction that may have to be evicted.
pub open spec fn evicts(
    tx: TransactionV,
    txid: Seq<u8>,
    inputs: Seq<InputView>,
    known: Seq<bool>,
    plan: Option<EvictionPlan>,
) -> bool {
    match plan {
        None => !has_phantom(inputs),
        Some(eviction) => {
            &&& has_phantom(inputs)
            &&& sets_all(eviction.restored@, restored(tx, inputs), UTXOState::Unspent)
            &&& views(eviction.removed@) == known_outputs(txid, known)
        },
    }
}

/// Whether a beginning with a stuck transaction is the right one.
pub open spec fn starts_retry(
    tx: TransactionV,
    txid: Seq<u8>,
    still_pending: bool,
    inputs: Seq<InputView>,
    contested: bool,
    start: RetryStart,
) -> bool {
    match start {
        RetryStart::Skip => !still_pending,
        RetryStart::Reject(reason) => {
            &&& still_pending
            &&& exists|i: int|
                0 <= i < inputs.len() && spent_by_other(#[trigger] inputs[i], txid)
            &&& reason@ == "Inputs already spent by another transaction"@
        },
        RetryStart::Relock(outpoints) => {
            &&& still_pending
            &&& forall|i: int|
                0 <= i < inputs.len() ==> !spent_by_other(#[trigger] inputs[i], txid)
            &&& views(outpoints@) == (if contested {
                seq![]
            } else {
                free_inputs(tx, inputs)
            })
        },
    }
}

impl EngineV {
    /// Whether an outcome is that of locking and validating a transaction.
    pub open spec fn locks(
        self,
        tx: TransactionV,
        txid: Hash256,
        locked: Result<(), String>,
        states: Seq<Option<UTXOState>>,
        view: TransactionView,
        now_secs: i64,
        outcome: LockOutcome,
    ) -> bool {
        match locked {
            Err(text) => {
                &&& told(outcome.result) == Err::<u64, Seq<char>>(
                    "UTXO double-spend prevented: "@ + text@,
                )
                &&& outcome.verified == 0
                &&& sets_all(
                    outcome.released@,
                    own_locks(tx, states, txid@),
                    UTXOState::Unspent,
                )
                &&& outcome.announced@.len() == 0
            },
            Ok(_) => {
                &&& told(outcome.result) == self.verdict(tx, txid@, view)
                &&& outcome.verified == (if self.reaches_signatures(tx, txid@, view) {
                    authorised_upto(tx, self.chain_id, view, tx.inputs.len() as int)
                } else {
                    0
                })
                &&& if outcome.result is Ok {
                    outcome.released@.len() == 0 && sets_all(
                        outcome.announced@,
                        crate::processing::outpoints_of(tx),
                        (UTXOState::Locked { txid, locked_at: now_secs }),
                    )
                } else {
                    outcome.announced@.len() == 0 && sets_all(
                        outcome.released@,
                        crate::processing::outpoints_of(tx),
                        UTXOState::Unspent,
                    )
                }
            },
        }
    }

    /// Whether an outcome is that of taking a new transaction in.
    pub open spec fn submits(
        self,
        tx: TransactionV,
        txid: Hash256,
        can_send: bool,
        locked: Result<(), String>,
        states: Seq<Option<UTXOState>>,
        view: TransactionView,
        now_secs: i64,
        outcome: (LockOutcome, Option<NetworkMessage>),
    ) -> bool {
        if !can_send {
            &&& told(outcome.0.result) == Err::<u64, Seq<char>>(
                "Network not initialized - broadcast callback not available"@,
            )
            &&& outcome.0.verified == 0
            &&& outcome.0.released@.len() == 0
            &&& outcome.0.announced@.len() == 0
            &&& outcome.1 is None
        } else {
            match locked {
                Err(text) => {
                    &&& told(outcome.0.result) == Err::<u64, Seq<char>>(
                        "UTXO double-spend prevented: "@ + text@,
                    )
                    &&& outcome.0.verified == 0
                    &&& sets_all(
                        outcome.0.released@,
                        own_locks(tx, states, txid@),
                        UTXOState::Unspent,
                    )
                    &&& outcome.0.announced@.len() == 0
                    &&& outcome.1 is None
                },
                Ok(_) => {
                    &&& told(outcome.0.result) == self.verdict(tx, txid@, view)
                    &&& outcome.0.verified == (if self.reaches_signatures(
                        tx,
                        txid@,
                        view,
                    ) {
                        authorised_upto(tx, self.chain_id, view, tx.inputs.len() as int)
                    } else {
                        0
                    })
                    &&& if outcome.0.result is Ok {
                        &&& outcome.0.released@.len() == 0
                        &&& sets_all(
                            outcome.0.announced@,
                            crate::processing::outpoints_of(tx),
                            (UTXOState::Locked { txid, locked_at: now_secs }),
                        )
                        &&& outcome.1 matches Some(message) && message@
                            == MessageV::TransactionBroadcast(tx)
                    } else {
                        &&& outcome.0.announced@.len() == 0
                        &&& sets_all(
                            outcome.0.released@,
                            crate::processing::outpoints_of(tx),
                            UTXOState::Unspent,
                        )
                        &&& outcome.1 is None
                    }
                },
            }
        }
    }

    /// Whether a decision on a stuck transaction is the right one.
    pub open spec fn retries(
        self,
        tx: TransactionV,
        txid: Hash256,
        stored_fee: u64,
        view: TransactionView,
        contested: bool,
        outcome: (RetryDecision, usize),
    ) -> bool {
        &&& outcome.1 == (if self.reaches_signatures(tx, txid@, view) {
            authorised_upto(tx, self.chain_id, view, tx.inputs.len() as int)
        } else {
            0
        })
        &&& match self.verdict(tx, txid@, view) {
            Err(text) => outcome.0 matches RetryDecision::Reject(reason) && reason@ == text,
            Ok(fee) => {
                let repair: Option<u64> = if stored_fee == 0 && fee > 0 {
                    Some(fee)
                } else {
                    None
                };
                if contested || held_by_other(view.inputs@, txid@) {
                    outcome.0 == (RetryDecision::Leave { repaired_fee: repair })
                } else {
                    outcome.0 matches RetryDecision::Finalize { repaired_fee, plan }
                        && repaired_fee == repair && finalizes(plan, tx, txid@)
                }
            },
        }
    }
}

fn list_known(txid: &Hash256, known: &Vec<bool>) -> (outpoints: Vec<OutPoint>)
    ensures
        views(outpoints@) == known_outputs(txid@, known@),
{
    let mut outpoints: Vec<OutPoint> = Vec::new();
    let mut i: usize = 0;
    assert(views(outpoints@) =~= known_outputs(txid@, known@.take(0)));
    while i < known.len()
        invariant
            i <= known@.len(),
            views(outpoints@) == known_outputs(txid@, known@.take(i as int)),
        decreases known@.len() - i,
    {
        proof {
            assert(known@.take(i + 1).drop_last() =~= known@.take(i as int));
            assert(known@.take(i + 1).last() == known@[i as int]);
        }
        if known[i] {
            let ghost held = views(outpoints@);
            let outpoint = OutPoint {
                txid: *txid,
                vout: #[verifier::truncate]
                (i as u32),
            };
            outpoints.push(outpoint);
            assert(views(outpoints@) =~= held.push(outpoint@));
        }
        i = i + 1;
    }
    assert(known@.take(i as int) =~= known@);
    outpoints
}

impl ConsensusEngine {
    /// The inputs of a transaction that are locked for it become free again.
    pub fn unlock_transaction_inputs(
        &self,
        tx: &Transaction,
        txid: &Hash256,
        states: &Vec<Option<UTXOState>>,
    ) -> (updates: Vec<StateUpdate>)
        requires
            states@.len() == tx@.inputs.len(),
        ensures
            sets_all(updates@, own_locks(tx@, states@, txid@), UTXOState::Unspent),
    {
        let mut marks: Vec<bool> = Vec::new();
        let mut i: usize = 0;
        while i < states.len()
            invariant
                i <= states@.len(),
                marks@.len() == i,
                forall|j: int| 0 <= j < i ==> #[trigger] marks@[j] == locked_for(states@[j], txid@),
            decreases states@.len() - i,
        {
            marks.push(is_locked_for(&states[i], txid));
            i = i + 1;
        }
        let picked = pick_inputs(tx, &marks);
        let ghost pick = |i: int| locked_for(states@[i], txid@);
        assert(views(picked@) == chosen(tx@, pick, tx@.inputs.len() as int));
        assert(own_locks(tx@, states@, txid@) == chosen(tx@, pick, tx@.inputs.len() as int));
        set_all(picked, UTXOState::Unspent)
    }

    /// Validates a transaction whose inputs were locked for it, at a time in
    /// seconds. `locked` is what came of locking and `states` what the inputs are
    /// then. Locking is all or nothing: where it fails, the transaction's own
    /// locks are undone. Where validation fails all inputs become free again;
    /// where it succeeds the locks are announced.
    pub fn lock_and_validate_transaction(
        &self,
        tx: &Transaction,
        txid: Hash256,
        locked: Result<(), String>,
        states: &Vec<Option<UTXOState>>,
        view: &TransactionView,
        now_secs: i64,
    ) -> (outcome: LockOutcome)
        requires
            locked is Ok ==> self@.amounts_fit(tx@, txid@, *view),
            states@.len() == tx@.inputs.len(),
        ensures
            self@.locks(tx@, txid, locked, states@, *view, now_secs, outcome),
    {
        match locked {
            Err(text) => {
                return LockOutcome {
                    result: Err(join2("UTXO double-spend prevented: ", text.as_str())),
                    verified: 0,
                    released: self.unlock_transaction_inputs(tx, &txid, states),
                    announced: Vec::new(),
                };
            },
            Ok(_) => {},
        }
        let (result, verified) = self.validate_transaction_with_locks(tx, txid, view);
        let outpoints = all_inputs(tx);
        match result {
            Ok(fee) => LockOutcome {
                result: Ok(fee),
                verified,
                released: Vec::new(),
                announced: set_all(outpoints, UTXOState::Locked { txid, locked_at: now_secs }),
            },
            Err(text) => LockOutcome {
                result: Err(text),
                verified,
                released: set_all(outpoints, UTXOState::Unspent),
                announced: Vec::new(),
            },
        }
    }

    /// Rejects a transaction whose vote failed, at a time. `pending` is the
    /// transaction with the states of its inputs, where the pool still has it.
    pub fn reject_failed_voting_transaction_at(
        &mut self,
        txid: Hash256,
        reason: String,
        pending: Option<(&Transaction, &Vec<Option<UTXOState>>)>,
        now_ms: i64,
    ) -> (updates: Vec<StateUpdate>)
        requires
            old(self).wf(),
            pending matches Some(found) ==> found.1@.len() == found.0@.inputs.len(),
        ensures
            final(self).wf(),
            final(self)@ == old(self)@.with_rejected(txid@, reason@, now_ms),
            match pending {
                Some((tx, states)) => sets_all(
                    updates@,
                    own_locks(tx@, states@, txid@),
                    UTXOState::Unspent,
                ),
                None => updates@.len() == 0,
            },
    {
        let updates = match pending {
            Some((tx, states)) => self.unlock_transaction_inputs(tx, &txid, states),
            None => Vec::new(),
        };
        self.transition_to_rejected_at(txid, reason, now_ms);
        updates
    }

    /// Rejects a transaction whose vote failed.
    pub fn reject_failed_voting_transaction(
        &mut self,
        txid: Hash256,
        reason: String,
        pending: Option<(&Transaction, &Vec<Option<UTXOState>>)>,
    ) -> (updates: Vec<StateUpdate>)
        requires
            old(self).wf(),
            pending matches Some(found) ==> found.1@.len() == found.0@.inputs.len(),
        ensures
            final(self).wf(),
            exists|ms: i64| final(self)@ == #[trigger] old(self)@.with_rejected(txid@, reason@, ms),
            match pending {
                Some((tx, states)) => sets_all(
                    updates@,
                    own_locks(tx@, states@, txid@),
                    UTXOState::Unspent,
                ),
                None => updates@.len() == 0,
            },
    {
        let ms: i64 = utc_millis();
        self.reject_failed_voting_transaction_at(txid, reason, pending, ms)
    }

    /// Begins with a transaction that is stuck in the pool: it is rejected where
    /// an input is spent by another transaction; otherwise its free inputs are to
    /// be locked again. `contested` says whether another transaction in the pool,
    /// pending or final, spends one of its inputs: such a one gets no locks.
    pub fn retry_stuck_pending_transactions(
        &self,
        tx: &Transaction,
        txid: &Hash256,
        still_pending: bool,
        inputs: &Vec<InputView>,
        contested: bool,
    ) -> (start: RetryStart)
        requires
            inputs@.len() == tx@.inputs.len(),
        ensures
            starts_retry(tx@, txid@, still_pending, inputs@, contested, start),
    {
        if !still_pending {
            return RetryStart::Skip;
        }
        if self.inputs_already_spent_by_other(inputs, txid) {
            return RetryStart::Reject(
                String::from_str("Inputs already spent by another transaction"),
            );
        }
        if contested {
            let none: Vec<OutPoint> = Vec::new();
            assert(views(none@) =~= seq![]);
            return RetryStart::Relock(none);
        }
        let mut marks: Vec<bool> = Vec::new();
        let mut i: usize = 0;
        while i < inputs.len()
            invariant
                i <= inputs@.len(),
                marks@.len() == i,
                forall|j: int| 0 <= j < i ==> #[trigger] marks@[j] == is_free(inputs@[j].state),
            decreases inputs@.len() - i,
        {
            marks.push(free(&inputs[i].state));
            i = i + 1;
        }
        let picked = pick_inputs(tx, &marks);
        let ghost pick = |i: int| is_free(inputs@[i].state);
        assert(views(picked@) == chosen(tx@, pick, tx@.inputs.len() as int));
        assert(free_inputs(tx@, inputs@) == chosen(tx@, pick, tx@.inputs.len() as int));
        RetryStart::Relock(picked)
    }

    /// Decides on a transaction that is stuck in the pool. It is rejected where
    /// it is not valid, left where another transaction of the pool, pending or
    /// final, spends one of its inputs or holds it, and otherwise becomes final.
    /// `contested` says what the pool found. With the decision comes how many of
    /// the first inputs are known to be signed by their key.
    pub fn retry_after_relock(
        &self,
        tx: &Transaction,
        txid: Hash256,
        stored_fee: u64,
        view: &TransactionView,
        contested: bool,
    ) -> (outcome: (RetryDecision, usize))
        requires
            self@.amounts_fit(tx@, txid@, *view),
        ensures
            self@.retries(tx@, txid, stored_fee, *view, contested, outcome),
    {
        let (result, verified) = self.validate_transaction_with_locks(tx, txid, view);
        let fee: u64 = match result {
            Ok(fee) => fee,
            Err(text) => {
                return (RetryDecision::Reject(text), verified);
            },
        };
        let repaired_fee: Option<u64> = if stored_fee == 0 && fee > 0 {
            Some(fee)
        } else {
            None
        };
        if self.has_double_spend_conflict(&view.inputs, &txid, contested) {
            return (RetryDecision::Leave { repaired_fee }, verified);
        }
        (
            RetryDecision::Finalize {
                repaired_fee,
                plan: crate::processing::plan_finalize(tx, &txid),
            },
            verified,
        )
    }

    /// What to undo for a final transaction of which an input never existed.
    /// `known` says which of its outputs the store has. A transaction whose
    /// inputs all exist or were spent for good stays.
    pub fn evict_finalized_with_missing_inputs(
        &self,
        tx: &Transaction,
        txid: &Hash256,
        inputs: &Vec<InputView>,
        known: &Vec<bool>,
    ) -> (plan: Option<EvictionPlan>)
        requires
            inputs@.len() == tx@.inputs.len(),
        ensures
            evicts(tx@, txid@, inputs@, known@, plan),
    {
        let mut any_missing = false;
        let mut marks: Vec<bool> = Vec::new();
        let mut i: usize = 0;
        while i < inputs.len()
            invariant
                i <= inputs@.len(),
                marks@.len() == i,
                any_missing == (exists|j: int|
                    0 <= j < i && (#[trigger] inputs@[j]).utxo is None && !inputs@[j].tombstoned),
                forall|j: int|
                    0 <= j < i ==> #[trigger] marks@[j] == (inputs@[j].utxo is Some
                        && !inputs@[j].collateral_locked && is_taken(inputs@[j].state)),
            decreases inputs@.len() - i,
        {
            let input = &inputs[i];
            if input.utxo.is_none() && !input.tombstoned {
                assert(inputs@[i as int].utxo is None);
                any_missing = true;
            }
            marks.push(input.utxo.is_some() && !input.collateral_locked && taken(&input.state));
            i = i + 1;
        }
        if !any_missing {
            return None;
        }
        let picked = pick_inputs(tx, &marks);
        let ghost pick = |i: int|
            inputs@[i].utxo is Some && !inputs@[i].collateral_locked && is_taken(inputs@[i].state);
        assert(views(picked@) == chosen(tx@, pick, tx@.inputs.len() as int));
        assert(restored(tx@, inputs@) == chosen(tx@, pick, tx@.inputs.len() as int));
        Some(
            EvictionPlan {
                restored: set_all(picked, UTXOState::Unspent),
                removed: list_known(txid, known),
            },
        )
    }

    /// The inputs of a final transaction that are still to be marked as spent for
    /// good.
    pub fn tombstone_confirmed_inputs_on_startup(&self, tx: &Transaction, inputs: &Vec<InputView>) -> (outpoints: Vec<OutPoint>)
        requires
            inputs@.len() == tx@.inputs.len(),
        ensures
            views(outpoints@) == unmarked(tx@, inputs@),
    {
        let mut marks: Vec<bool> = Vec::new();
        let mut i: usize = 0;
        while i < inputs.len()
            invariant
                i <= inputs@.len(),
                marks@.len() == i,
                forall|j: int|
                    0 <= j < i ==> #[trigger] marks@[j] == (!inputs@[j].tombstoned
                        && inputs@[j].utxo is Some),
            decreases inputs@.len() - i,
        {
            marks.push(!inputs[i].tombstoned && inputs[i].utxo.is_some());
            i = i + 1;
        }
        let picked = pick_inputs(tx, &marks);
        let ghost pick = |i: int| !inputs@[i].tombstoned && inputs@[i].utxo is Some;
        assert(views(picked@) == chosen(tx@, pick, tx@.inputs.len() as int));
        assert(unmarked(tx@, inputs@) == chosen(tx@, pick, tx@.inputs.len() as int));
        picked
    }

    /// The inputs that a stale transaction gives back: those that are locked for
    /// it or being spent by it, but no collateral.
    pub fn stale_release(&self, tx: &Transaction, txid: &Hash256, inputs: &Vec<InputView>) -> (updates:
        Vec<StateUpdate>)
        requires
            inputs@.len() == tx@.inputs.len(),
        ensures
            sets_all(updates@, given_back(tx@, inputs@, txid@), UTXOState::Unspent),
    {
        let mut marks: Vec<bool> = Vec::new();
        let mut i: usize = 0;
        while i < inputs.len()
            invariant
                i <= inputs@.len(),
                marks@.len() == i,
                forall|j: int|
                    0 <= j < i ==> #[trigger] marks@[j] == (!inputs@[j].collateral_locked
                        && reserved_for(inputs@[j].state, txid@)),
            decreases inputs@.len() - i,
        {
            marks.push(!inputs[i].collateral_locked && is_reserved_for(&inputs[i].state, txid));
            i = i + 1;
        }
        let picked = pick_inputs(tx, &marks);
        let ghost pick = |i: int|
            !inputs@[i].collateral_locked && reserved_for(inputs@[i].state, txid@);
        assert(views(picked@) == chosen(tx@, pick, tx@.inputs.len() as int));
        assert(given_back(tx@, inputs@, txid@) == chosen(tx@, pick, tx@.inputs.len() as int));
        set_all(picked, UTXOState::Unspent)
    }

    /// Forgets a pending transaction that is older than a number of seconds, at a
    /// time: it is rejected, and nothing of its vote is kept.
    pub fn forget_stale_at(&mut self, txid: Hash256, max_age_secs: u64, now_ms: i64)
        requires
            old(self).wf(),
        ensures
            final(self).wf(),
            final(self)@ == old(self)@.without_stale(txid@, max_age_secs, now_ms),
    {
        let ghost before = self@;
        let age = decimal_text(max_age_secs);
        let reason = join3(
            "Pending transaction evicted after exceeding stale age (",
            age.as_str(),
            "s)",
        );
        self.transition_to_rejected_at(txid, reason, now_ms);
        let proposals = self.detect_multiple_proposals(&txid);
        let _ = self.timevote.tx_state.remove(&txid);
        self.timevote.clear_timeproof_votes(&txid);
        let ghost cleared = self@;
        let _ = self.timevote.finalized_txs.remove(&txid);
        let _ = self.timevote.fallback_votes.remove(&txid);
        crate::select::drop_all(&mut self.timevote.proposal_to_tx, &proposals);
        proof {
            let gone = before.timevote.proposal_to_tx.dom().filter(
                |p: Seq<u8>| before.timevote.proposal_to_tx[p] == txid@,
            );
            assert forall|p: Seq<u8>| views(proposals@).to_set().contains(p) <==> gone.contains(
                p,
            ) by {
                assert(views(proposals@).contains(p) <==> views(proposals@).to_set().contains(p));
            }
            assert(views(proposals@).to_set() =~= gone);
            assert(self@.timevote.timeproof_votes == cleared.timevote.timeproof_votes);
            assert(self@.timevote.accumulated_weight == cleared.timevote.accumulated_weight);
            let expected = before.without_stale(txid@, max_age_secs, now_ms);
            assert(self@.timevote.proposal_to_tx =~= expected.timevote.proposal_to_tx);
            assert(self@.timevote =~= expected.timevote);
            assert(self@ =~= expected);
        }
    }

    /// Drops pending transactions that are older than a number of seconds, at a
    /// time: the pool has let go of them, what they hold becomes free again, and
    /// nothing of their votes is kept. Says how many there were.
    pub fn evict_stale_pending_transactions_at(
        &mut self,
        evicted: &Vec<PooledTransaction>,
        max_age_secs: u64,
        now_ms: i64,
    ) -> (done: (Vec<StateUpdate>, usize))
        requires
            old(self).wf(),
            forall|i: int|
                0 <= i < evicted@.len() ==> (#[trigger] evicted@[i]).inputs@.len()
                    == evicted@[i].tx@.inputs.len(),
        ensures
            final(self).wf(),
            sets_all(done.0@, all_given_back(evicted@), UTXOState::Unspent),
            done.1 == evicted@.len(),
            final(self)@ == old(self)@.without_all_stale(evicted@, max_age_secs, now_ms),
    {
        let ghost before = self@;
        let mut updates: Vec<StateUpdate> = Vec::new();
        let mut i: usize = 0;
        assert(evicted@.take(0) =~= seq![]);
        while i < evicted.len()
            invariant
                self.wf(),
                i <= evicted@.len(),
                forall|j: int|
                    0 <= j < evicted@.len() ==> (#[trigger] evicted@[j]).inputs@.len()
                        == evicted@[j].tx@.inputs.len(),
                sets_all(
                    updates@,
                    all_given_back(evicted@.take(i as int)),
                    UTXOState::Unspent,
                ),
                self@ == before.without_all_stale(evicted@.take(i as int), max_age_secs, now_ms),
            decreases evicted@.len() - i,
        {
            proof {
                assert(evicted@.take(i + 1).drop_last() =~= evicted@.take(i as int));
                assert(evicted@.take(i + 1).last() == evicted@[i as int]);
            }
            let stale = &evicted[i];
            let mut released = self.stale_release(&stale.tx, &stale.txid, &stale.inputs);
            updates.append(&mut released);
            self.forget_stale_at(stale.txid, max_age_secs, now_ms);
            i = i + 1;
        }
        assert(evicted@.take(i as int) =~= evicted@);
        (updates, evicted.len())
    }

    /// Drops pending transactions that are older than a number of seconds.
    pub fn evict_stale_pending_transactions(
        &mut self,
        evicted: &Vec<PooledTransaction>,
        max_age_secs: u64,
    ) -> (done: (Vec<StateUpdate>, usize))
        requires
            old(self).wf(),
            forall|i: int|
                0 <= i < evicted@.len() ==> (#[trigger] evicted@[i]).inputs@.len()
                    == evicted@[i].tx@.inputs.len(),
        ensures
            final(self).wf(),
            sets_all(done.0@, all_given_back(evicted@), UTXOState::Unspent),
            done.1 == evicted@.len(),
            exists|ms: i64|
                final(self)@ == #[trigger] old(self)@.without_all_stale(
                    evicted@,
                    max_age_secs,
                    ms,
                ),
    {
        let ms: i64 = utc_millis();
        self.evict_stale_pending_transactions_at(evicted, max_age_secs, ms)
    }

    /// Takes a new transaction in, at a time in seconds. Without a way to send
    /// nothing is done. `locked` is what came of locking its inputs and `states`
    /// what they are then; where that fails the transaction's own locks are
    /// undone, and where it is not valid all its inputs become free again.
    /// Otherwise the locks are announced and the transaction is sent.
    pub fn submit_transaction(
        &self,
        tx: &Transaction,
        txid: Hash256,
        can_send: bool,
        locked: Result<(), String>,
        states: &Vec<Option<UTXOState>>,
        view: &TransactionView,
        now_secs: i64,
    ) -> (outcome: (LockOutcome, Option<NetworkMessage>))
        requires
            can_send && locked is Ok ==> self@.amounts_fit(tx@, txid@, *view),
            states@.len() == tx@.inputs.len(),
        ensures
            self@.submits(tx@, txid, can_send, locked, states@, *view, now_secs, outcome),
    {
        if !can_send {
            return (
                LockOutcome {
                    result: Err(
                        String::from_str(
                            "Network not initialized - broadcast callback not available",
                        ),
                    ),
                    verified: 0,
                    released: Vec::new(),
                    announced: Vec::new(),
                },
                None,
            );
        }
        let outcome = self.lock_and_validate_transaction(
            tx,
            txid,
            locked,
            states,
            view,
            now_secs,
        );
        if outcome.result.is_ok() {
            (outcome, Some(NetworkMessage::TransactionBroadcast(tx.clone())))
        } else {
            (outcome, None)
        }
    }
}

/// A transaction of the pool with what the stores say of its inputs.
#[derive(Debug)]
pub struct PooledTransaction {
    pub tx: Transaction,
    pub txid: Hash256,
    pub inputs: Vec<InputView>,
}

/// What stale transactions give back, in order.
pub open spec fn all_given_back(stale: Seq<PooledTransaction>) -> Seq<OutPointV>
    decreases stale.len(),
{
    if stale.len() == 0 {
        seq![]
    } else {
        all_given_back(stale.drop_last()) + given_back(
            stale.last().tx@,
            stale.last().inputs@,
            stale.last().txid@,
        )
    }
}

impl EngineV {
    /// After stale transactions were forgotten, one after the other.
    pub open spec fn without_all_stale(
        self,
        stale: Seq<PooledTransaction>,
        max_age_secs: u64,
        now_ms: i64,
    ) -> EngineV
        decreases stale.len(),
    {
        if stale.len() == 0 {
            self
        } else {
            self.without_all_stale(stale.drop_last(), max_age_secs, now_ms).without_stale(
                stale.last().txid@,
                max_age_secs,
                now_ms,
            )
        }
    }

    /// After a stale transaction was forgotten.
    pub open spec fn without_stale(self, txid: Seq<u8>, max_age_secs: u64, now_ms: i64) -> EngineV {
        let held = self.timevote.settled(
            txid,
            TransactionStatusV::Rejected {
                rejected_at: now_ms,
                reason: "Pending transaction evicted after exceeding stale age ("@ + decimal(
                    max_age_secs as nat,
                ) + "s)"@,
            },
        );
        EngineV {
            timevote: ConsensusV {
                tx_state: held.tx_state.remove(txid),
                timeproof_votes: held.timeproof_votes.remove(txid),
                accumulated_weight: held.accumulated_weight.remove(txid),
                finalized_txs: held.finalized_txs.remove(txid),
                fallback_votes: held.fallback_votes.remove(txid),
                proposal_to_tx: held.proposal_to_tx.remove_keys(
                    held.proposal_to_tx.dom().filter(
                        |p: Seq<u8>| held.proposal_to_tx[p] == txid,
                    ),
                ),
                ..held
            },
            ..self
        }
    }
}

/// What the store says of an output of a banned transaction.
#[derive(Debug)]
pub struct BannedOutput {
    pub outpoint: OutPoint,
    pub collateral_locked: bool,
    pub state: Option<UTXOState>,
}

/// The outputs at the chosen places of a list.
pub open spec fn chosen_banned(
    outputs: Seq<BannedOutput>,
    pick: spec_fn(BannedOutput) -> bool,
) -> Seq<OutPointV>
    decreases outputs.len(),
{
    if outputs.len() == 0 {
        seq![]
    } else if pick(outputs.last()) {
        chosen_banned(outputs.drop_last(), pick).push(outputs.last().outpoint@)
    } else {
        chosen_banned(outputs.drop_last(), pick)
    }
}

/// The real inputs that a banned transaction gives back.
pub open spec fn freed_by_ban(outputs: Seq<BannedOutput>) -> Seq<OutPointV> {
    chosen_banned(outputs, |o: BannedOutput| !o.collateral_locked && is_taken(o.state))
}

/// The outputs of a banned transaction that the store has.
pub open spec fn phantoms_of_ban(outputs: Seq<BannedOutput>) -> Seq<OutPointV> {
    chosen_banned(outputs, |o: BannedOutput| o.state is Some)
}

impl ConsensusEngine {
    /// What to undo for a banned transaction: its real inputs become free again,
    /// except collateral, and its outputs are removed where the store has them.
    pub fn purge_banned_transactions(&self, real_inputs: &Vec<BannedOutput>, phantom_outputs: &Vec<BannedOutput>) -> (plan:
        EvictionPlan)
        ensures
            sets_all(plan.restored@, freed_by_ban(real_inputs@), UTXOState::Unspent),
            views(plan.removed@) == phantoms_of_ban(phantom_outputs@),
    {
        let ghost free_pick = |o: BannedOutput| !o.collateral_locked && is_taken(o.state);
        let mut freed: Vec<OutPoint> = Vec::new();
        let mut i: usize = 0;
        assert(views(freed@) =~= chosen_banned(real_inputs@.take(0), free_pick));
        while i < real_inputs.len()
            invariant
                i <= real_inputs@.len(),
                free_pick == (|o: BannedOutput| !o.collateral_locked && is_taken(o.state)),
                views(freed@) == chosen_banned(real_inputs@.take(i as int), free_pick),
            decreases real_inputs@.len() - i,
        {
            proof {
                assert(real_inputs@.take(i + 1).drop_last() =~= real_inputs@.take(i as int));
                assert(real_inputs@.take(i + 1).last() == real_inputs@[i as int]);
            }
            if !real_inputs[i].collateral_locked && taken(&real_inputs[i].state) {
                let ghost held = views(freed@);
                let outpoint = real_inputs[i].outpoint.clone();
                freed.push(outpoint);
                assert(views(freed@) =~= held.push(outpoint@));
            }
            i = i + 1;
        }
        assert(real_inputs@.take(i as int) =~= real_inputs@);
        let ghost known_pick = |o: BannedOutput| o.state is Some;
        let mut removed: Vec<OutPoint> = Vec::new();
        let mut k: usize = 0;
        assert(views(removed@) =~= chosen_banned(phantom_outputs@.take(0), known_pick));
        while k < phantom_outputs.len()
            invariant
                k <= phantom_outputs@.len(),
                known_pick == (|o: BannedOutput| o.state is Some),
                views(removed@) == chosen_banned(phantom_outputs@.take(k as int), known_pick),
            decreases phantom_outputs@.len() - k,
        {
            proof {
                assert(phantom_outputs@.take(k + 1).drop_last() =~= phantom_outputs@.take(k as int));
                assert(phantom_outputs@.take(k + 1).last() == phantom_outputs@[k as int]);
            }
            if phantom_outputs[k].state.is_some() {
                let ghost held = views(removed@);
                let outpoint = phantom_outputs[k].outpoint.clone();
                removed.push(outpoint);
                assert(views(removed@) =~= held.push(outpoint@));
            }
            k = k + 1;
        }
        assert(phantom_outputs@.take(k as int) =~= phantom_outputs@);
        EvictionPlan { restored: set_all(freed, UTXOState::Unspent), removed }
    }
}

/// Whether purging a banned transaction touched anything: an output became free,
/// one was removed, or the pool dropped the transaction.
pub fn purge_touched(restored: usize, removed: usize, dropped: bool) -> (touched: bool)
    ensures
        touched == (restored > 0 || removed > 0 || dropped),
{
    restored > 0 || removed > 0 || dropped
}

/// Whether a pending transaction is tried before another: the higher fee first,
/// then the earlier one.
pub open spec fn goes_first(a: (u64, u64), b: (u64, u64)) -> bool {
    a.0 > b.0 || (a.0 == b.0 && a.1 <= b.1)
}

/// The order in which pending transactions are tried again, each given by its fee
/// and when it came in: higher fees first, then earlier ones; those that are
/// alike stay in order.
pub fn retry_order(pending: &Vec<(u64, u64)>) -> (order: Vec<usize>)
    ensures
        order@.len() == pending@.len(),
        order@.no_duplicates(),
        forall|i: int| 0 <= i < order@.len() ==> (#[trigger] order@[i]) < pending@.len(),
        forall|i: int, j: int|
            0 <= i < j < order@.len() ==> goes_first(
                pending@[#[trigger] order@[i] as int],
                pending@[#[trigger] order@[j] as int],
            ) && (pending@[order@[i] as int] == pending@[order@[j] as int] ==> order@[i]
                < order@[j]),
{
    let mut order: Vec<usize> = Vec::new();
    let mut k: usize = 0;
    while k < pending.len()
        invariant
            k <= pending@.len(),
            order@.len() == k,
            order@.no_duplicates(),
            forall|i: int| 0 <= i < order@.len() ==> (#[trigger] order@[i]) < k,
            forall|i: int, j: int|
                0 <= i < j < order@.len() ==> goes_first(
                    pending@[#[trigger] order@[i] as int],
                    pending@[#[trigger] order@[j] as int],
                ) && (pending@[order@[i] as int] == pending@[order@[j] as int] ==> order@[i]
                    < order@[j]),
        decreases pending@.len() - k,
    {
        let entry: (u64, u64) = pending[k];
        let mut place: usize = 0;
        while place < order.len() && (pending[order[place]].0 > entry.0 || (
        pending[order[place]].0 == entry.0 && pending[order[place]].1 <= entry.1))
            invariant
                place <= order@.len(),
                k < pending@.len(),
                entry == pending@[k as int],
                forall|i: int| 0 <= i < order@.len() ==> (#[trigger] order@[i]) < k,
                forall|i: int|
                    0 <= i < place ==> goes_first(pending@[#[trigger] order@[i] as int], entry),
            decreases order@.len() - place,
        {
            place = place + 1;
        }
        let ghost before = order@;
        proof {
            assert forall|i: int| place <= i < before.len() implies !goes_first(
                pending@[#[trigger] before[i] as int],
                entry,
            ) by {
                if i > place {
                    assert(goes_first(
                        pending@[before[place as int] as int],
                        pending@[before[i] as int],
                    ));
                }
            }
        }
        order.insert(place, k);
        proof {
            let p = place as int;
            assert(order@ == before.insert(p, k));
            assert forall|i: int, j: int| 0 <= i < j < order@.len() implies goes_first(
                pending@[#[trigger] order@[i] as int],
                pending@[#[trigger] order@[j] as int],
            ) && (pending@[order@[i] as int] == pending@[order@[j] as int] ==> order@[i]
                < order@[j]) by {
                let a = if i < p {
                    i
                } else {
                    i - 1
                };
                let b = if j < p {
                    j
                } else {
                    j - 1
                };
                if i != p {
                    assert(order@[i] == before[a]);
                }
                if j != p {
                    assert(order@[j] == before[b]);
                }
            }
            assert(order@.no_duplicates()) by {
                assert forall|i: int, j: int|
                    0 <= i < order@.len() && 0 <= j < order@.len() && i != j implies order@[i]
                    != order@[j] by {
                    let a = if i < p {
                        i
                    } else {
                        i - 1
                    };
                    let b = if j < p {
                        j
                    } else {
                        j - 1
                    };
                    if i != p {
                        assert(order@[i] == before[a]);
                    }
                    if j != p {
                        assert(order@[j] == before[b]);
                    }
                }
            }
        }
        k = k + 1;
    }
    order
}

proof fn lemma_chosen_from(tx: TransactionV, pick: spec_fn(int) -> bool, n: int, k: int)
    requires
        0 <= k < chosen(tx, pick, n).len(),
        n <= tx.inputs.len(),
    ensures
        exists|i: int|
            0 <= i < n && pick(i) && (#[trigger] tx.inputs[i]).previous_output == chosen(
                tx,
                pick,
                n,
            )[k],
    decreases n,
{
    if n > 0 {
        let earlier = chosen(tx, pick, n - 1);
        if pick(n - 1) && k == earlier.len() {
            assert(tx.inputs[n - 1].previous_output == chosen(tx, pick, n)[k]);
        } else {
            lemma_chosen_from(tx, pick, n - 1, k);
            let i = choose|i: int|
                0 <= i < n - 1 && pick(i) && (#[trigger] tx.inputs[i]).previous_output
                    == earlier[k];
            assert(tx.inputs[i].previous_output == chosen(tx, pick, n)[k]);
        }
    }
}

/// Unlocking touches a transaction's own locks only: an output that becomes free
/// is an input that was locked for that very transaction.
pub proof fn unlocking_spares_others(
    tx: TransactionV,
    states: Seq<Option<UTXOState>>,
    txid: Seq<u8>,
    k: int,
)
    requires
        0 <= k < own_locks(tx, states, txid).len(),
    ensures
        exists|i: int|
            0 <= i < tx.inputs.len() && locked_for(states[i], txid) && (
            #[trigger] tx.inputs[i]).previous_output == own_locks(tx, states, txid)[k],
{
    let pick = |i: int| locked_for(states[i], txid);
    lemma_chosen_from(tx, pick, tx.inputs.len() as int, k);
    let i = choose|i: int|
        0 <= i < tx.inputs.len() && pick(i) && (#[trigger] tx.inputs[i]).previous_output
            == chosen(tx, pick, tx.inputs.len() as int)[k];
    assert(locked_for(states[i], txid));
}

/// Clearing out never frees an output that is locked as collateral.
pub proof fn collateral_stays_locked(
    tx: TransactionV,
    inputs: Seq<InputView>,
    txid: Seq<u8>,
    k: int,
)
    ensures
        0 <= k < restored(tx, inputs).len() ==> exists|i: int|
            0 <= i < tx.inputs.len() && !inputs[i].collateral_locked && (
            #[trigger] tx.inputs[i]).previous_output == restored(tx, inputs)[k],
        0 <= k < given_back(tx, inputs, txid).len() ==> exists|i: int|
            0 <= i < tx.inputs.len() && !inputs[i].collateral_locked && (
            #[trigger] tx.inputs[i]).previous_output == given_back(tx, inputs, txid)[k],
{
    let n = tx.inputs.len() as int;
    if 0 <= k < restored(tx, inputs).len() {
        let pick = |i: int|
            inputs[i].utxo is Some && !inputs[i].collateral_locked && is_taken(inputs[i].state);
        lemma_chosen_from(tx, pick, n, k);
        let i = choose|i: int|
            0 <= i < n && pick(i) && (#[trigger] tx.inputs[i]).previous_output == chosen(
                tx,
                pick,
                n,
            )[k];
        assert(!inputs[i].collateral_locked);
    }
    if 0 <= k < given_back(tx, inputs, txid).len() {
        let pick = |i: int| !inputs[i].collateral_locked && reserved_for(inputs[i].state, txid);
        lemma_chosen_from(tx, pick, n, k);
        let i = choose|i: int|
            0 <= i < n && pick(i) && (#[trigger] tx.inputs[i]).previous_output == chosen(
                tx,
                pick,
                n,
            )[k];
        assert(!inputs[i].collateral_locked);
    }
}

/// A stale transaction that was forgotten leaves no vote, no weight and no
/// proposal behind.
pub proof fn forgotten_leaves_nothing(
    held: EngineV,
    txid: Seq<u8>,
    max_age_secs: u64,
    now_ms: i64,
    proposal: Seq<u8>,
)
    ensures
        ({
            let after = held.without_stale(txid, max_age_secs, now_ms).timevote;
            &&& !after.tx_state.contains_key(txid)
            &&& !after.timeproof_votes.contains_key(txid)
            &&& !after.accumulated_weight.contains_key(txid)
            &&& !after.finalized_txs.contains_key(txid)
            &&& !after.stall_timers.contains_key(txid)
            &&& !after.fallback_rounds.contains_key(txid)
            &&& after.proposal_to_tx.contains_key(proposal) ==> after.proposal_to_tx[proposal]
                != txid
        }),
{
}

proof fn lemma_none_chosen(outputs: Seq<BannedOutput>, pick: spec_fn(BannedOutput) -> bool)
    requires
        forall|i: int| 0 <= i < outputs.len() ==> !pick(#[trigger] outputs[i]),
    ensures
        chosen_banned(outputs, pick).len() == 0,
    decreases outputs.len(),
{
    if outputs.len() > 0 {
        assert(!pick(outputs[outputs.len() - 1]));
        lemma_none_chosen(outputs.drop_last(), pick);
    }
}

/// Purging a banned transaction a second time does nothing: once its inputs are
/// free and its outputs are gone, nothing is left to free or to remove.
pub proof fn purging_again_does_nothing(
    inputs: Seq<BannedOutput>,
    inputs_then: Seq<BannedOutput>,
    outputs_then: Seq<BannedOutput>,
)
    requires
        inputs_then.len() == inputs.len(),
        forall|i: int|
            0 <= i < inputs.len() ==> (#[trigger] inputs_then[i]).collateral_locked
                == inputs[i].collateral_locked && inputs_then[i].state == (
            if !inputs[i].collateral_locked && is_taken(inputs[i].state) {
                Some(UTXOState::Unspent)
            } else {
                inputs[i].state
            }),
        forall|i: int| 0 <= i < outputs_then.len() ==> (#[trigger] outputs_then[i]).state is None,
    ensures
        freed_by_ban(inputs_then).len() == 0,
        phantoms_of_ban(outputs_then).len() == 0,
{
    lemma_none_chosen(
        inputs_then,
        |o: BannedOutput| !o.collateral_locked && is_taken(o.state),
    );
    lemma_none_chosen(outputs_then, |o: BannedOutput| o.state is Some);
}

proof fn lemma_chosen_has(tx: TransactionV, pick: spec_fn(int) -> bool, n: int, i: int)
    requires
        0 <= i < n <= tx.inputs.len(),
        pick(i),
    ensures
        chosen(tx, pick, n).contains(tx.inputs[i].previous_output),
    decreases n,
{
    let earlier = chosen(tx, pick, n - 1);
    let all = chosen(tx, pick, n);
    if i == n - 1 {
        assert(all[earlier.len() as int] == tx.inputs[i].previous_output);
    } else {
        lemma_chosen_has(tx, pick, n - 1, i);
        let k = choose|k: int|
            0 <= k < earlier.len() && earlier[k] == tx.inputs[i].previous_output;
        assert(all[k] == tx.inputs[i].previous_output);
    }
}

proof fn lemma_chosen_only(tx: TransactionV, pick: spec_fn(int) -> bool, n: int, i: int)
    requires
        0 <= i < n <= tx.inputs.len(),
        chosen(tx, pick, n).contains(tx.inputs[i].previous_output),
        forall|j: int|
            0 <= j < n && j != i ==> (#[trigger] tx.inputs[j]).previous_output
                != tx.inputs[i].previous_output,
    ensures
        pick(i),
{
    let all = chosen(tx, pick, n);
    let k = choose|k: int| 0 <= k < all.len() && all[k] == tx.inputs[i].previous_output;
    lemma_chosen_from(tx, pick, n, k);
    let j = choose|j: int|
        0 <= j < n && pick(j) && (#[trigger] tx.inputs[j]).previous_output == all[k];
    assert(j == i);
}

/// Which inputs of a transaction are freed, locked again or marked. Its own locks are
/// undone, and no others. What is unspent or unknown can be locked. A stale transaction
/// gives back what is locked for it or being spent by it, and an evicted one what exists
/// and is locked or spent, but neither any collateral. What is found and not marked as
/// spent is to be marked.
pub proof fn inputs_are_chosen_by_their_state(
    tx: TransactionV,
    states: Seq<Option<UTXOState>>,
    inputs: Seq<InputView>,
    txid: Seq<u8>,
    i: int,
)
    requires
        0 <= i < tx.inputs.len(),
        states.len() == tx.inputs.len(),
        inputs.len() == tx.inputs.len(),
        forall|j: int|
            0 <= j < tx.inputs.len() && j != i ==> (#[trigger] tx.inputs[j]).previous_output
                != tx.inputs[i].previous_output,
    ensures
        ({
            let own = tx.inputs[i].previous_output;
            let input = inputs[i];
            &&& own_locks(tx, states, txid).contains(own) <==> (states[i] matches Some(
                UTXOState::Locked { txid: by, .. },
            ) && by@ == txid)
            &&& free_inputs(tx, inputs).contains(own) <==> input.state is None || input.state
                == Some(UTXOState::Unspent)
            &&& given_back(tx, inputs, txid).contains(own) <==> !input.collateral_locked && ((
            input.state matches Some(UTXOState::Locked { txid: by, .. }) && by@ == txid) || (
            input.state matches Some(UTXOState::SpentPending { txid: by, .. }) && by@ == txid))
            &&& restored(tx, inputs).contains(own) <==> input.utxo is Some
                && !input.collateral_locked && ((input.state matches Some(
                UTXOState::Locked { .. },
            )) || (input.state matches Some(UTXOState::SpentPending { .. })) || (
            input.state matches Some(UTXOState::SpentFinalized { .. })))
            &&& unmarked(tx, inputs).contains(own) <==> !input.tombstoned && input.utxo is Some
        }),
{
    let n = tx.inputs.len() as int;
    let own = tx.inputs[i].previous_output;
    let a = |k: int| locked_for(states[k], txid);
    let b = |k: int| is_free(inputs[k].state);
    let c = |k: int| !inputs[k].collateral_locked && reserved_for(inputs[k].state, txid);
    let d = |k: int|
        inputs[k].utxo is Some && !inputs[k].collateral_locked && is_taken(inputs[k].state);
    let e = |k: int| !inputs[k].tombstoned && inputs[k].utxo is Some;
    if a(i) {
        lemma_chosen_has(tx, a, n, i);
    }
    if own_locks(tx, states, txid).contains(own) {
        lemma_chosen_only(tx, a, n, i);
    }
    if b(i) {
        lemma_chosen_has(tx, b, n, i);
    }
    if free_inputs(tx, inputs).contains(own) {
        lemma_chosen_only(tx, b, n, i);
    }
    if c(i) {
        lemma_chosen_has(tx, c, n, i);
    }
    if given_back(tx, inputs, txid).contains(own) {
        lemma_chosen_only(tx, c, n, i);
    }
    if d(i) {
        lemma_chosen_has(tx, d, n, i);
    }
    if restored(tx, inputs).contains(own) {
        lemma_chosen_only(tx, d, n, i);
    }
    if e(i) {
        lemma_chosen_has(tx, e, n, i);
    }
    if unmarked(tx, inputs).contains(own) {
        lemma_chosen_only(tx, e, n, i);
    }
}

/// A banned transaction gives back those of its inputs that are locked or spent, except
/// collateral, and loses those of its outputs that the store has; one entry decides on
/// itself alone.
pub proof fn bans_undo_what_was_done(outputs: Seq<BannedOutput>, output: BannedOutput)
    ensures
        freed_by_ban(seq![]).len() == 0,
        phantoms_of_ban(seq![]).len() == 0,
        ({
            let taken = (output.state matches Some(UTXOState::Locked { .. })) || (
            output.state matches Some(UTXOState::SpentPending { .. })) || (
            output.state matches Some(UTXOState::SpentFinalized { .. }));
            &&& taken && !output.collateral_locked ==> freed_by_ban(outputs.push(output))
                == freed_by_ban(outputs).push(output.outpoint@)
            &&& !taken || output.collateral_locked ==> freed_by_ban(outputs.push(output))
                == freed_by_ban(outputs)
        }),
        output.state is Some ==> phantoms_of_ban(outputs.push(output)) == phantoms_of_ban(
            outputs,
        ).push(output.outpoint@),
        output.state is None ==> phantoms_of_ban(outputs.push(output)) == phantoms_of_ban(outputs),
{
    assert(outputs.push(output).drop_last() =~= outputs);
}

/// The outputs of an evicted transaction that the store knows stand under their own
/// numbers.
pub proof fn known_outputs_keep_their_numbers(txid: Seq<u8>, known: Seq<bool>)
    requires
        known.len() <= u32::MAX,
    ensures
        known_outputs(txid, seq![]).len() == 0,
        known_outputs(txid, known.push(true)) == known_outputs(txid, known).push(
            OutPointV { txid, vout: known.len() as u32 },
        ),
        known_outputs(txid, known.push(false)) == known_outputs(txid, known),
{
    assert(known.push(true).drop_last() =~= known);
    assert(known.push(false).drop_last() =~= known);
}

/// A transaction is evicted exactly when one of its inputs neither exists nor was spent
/// for good.
pub proof fn phantoms_never_existed(inputs: Seq<InputView>)
    ensures
        has_phantom(inputs) <==> !(forall|i: int|
            0 <= i < inputs.len() ==> (#[trigger] inputs[i]).utxo is Some || inputs[i].tombstoned),
{
}

/// A stale transaction is rejected, and no other is touched.
pub proof fn stale_transactions_are_rejected(
    held: EngineV,
    txid: Seq<u8>,
    other: Seq<u8>,
    max_age_secs: u64,
    now_ms: i64,
)
    requires
        other != txid,
    ensures
        ({
            let after = held.without_stale(txid, max_age_secs, now_ms).timevote;
            &&& after.tx_status[txid] matches TransactionStatusV::Rejected { rejected_at, .. }
                && rejected_at == now_ms
            &&& after.tx_status.contains_key(other) <==> held.timevote.tx_status.contains_key(
                other,
            )
            &&& held.timevote.tx_status.contains_key(other) ==> after.tx_status[other]
                == held.timevote.tx_status[other]
            &&& after.timeproof_votes.contains_key(other)
                <==> held.timevote.timeproof_votes.contains_key(other)
            &&& after.tx_state.contains_key(other) <==> held.timevote.tx_state.contains_key(other)
        }),
{
}

/// The higher fee is tried first, and of equal fees the one that came in first.
pub proof fn higher_fees_go_first(fee: u64, lower: u64, at: u64, later: u64)
    requires
        lower < fee,
        at < later,
    ensures
        goes_first((fee, later), (lower, at)),
        !goes_first((lower, at), (fee, later)),
        goes_first((fee, at), (fee, later)),
        !goes_first((fee, later), (fee, at)),
{
}

/// What comes of locking and validating a transaction. A failed lock, or a failed
/// validation, is told and frees what was locked: after a failed lock the transaction's
/// own locks, after a failed validation every input. Only a valid transaction is announced
/// as locked, at every input and for itself.
pub proof fn locking_is_all_or_nothing(
    held: EngineV,
    tx: TransactionV,
    txid: Hash256,
    locked: Result<(), String>,
    states: Seq<Option<UTXOState>>,
    view: TransactionView,
    now_secs: i64,
    outcome: LockOutcome,
    i: int,
)
    requires
        held.locks(tx, txid, locked, states, view, now_secs, outcome),
    ensures
        outcome.result is Ok <==> locked is Ok && held.verdict(tx, txid@, view) is Ok,
        outcome.result matches Ok(fee) ==> held.verdict(tx, txid@, view) == Ok::<u64, Seq<char>>(
            fee,
        ),
        outcome.result is Ok ==> outcome.released@.len() == 0 && outcome.announced@.len()
            == tx.inputs.len(),
        outcome.result is Ok && 0 <= i < tx.inputs.len() ==> outcome.announced@[i].outpoint@
            == tx.inputs[i].previous_output && outcome.announced@[i].state == (UTXOState::Locked {
            txid,
            locked_at: now_secs,
        }),
        outcome.result is Err ==> outcome.announced@.len() == 0,
        locked is Ok && outcome.result is Err ==> outcome.released@.len() == tx.inputs.len(),
        locked is Ok && outcome.result is Err && 0 <= i < tx.inputs.len()
            ==> outcome.released@[i].outpoint@ == tx.inputs[i].previous_output
            && outcome.released@[i].state == UTXOState::Unspent,
        locked is Err && 0 <= i < outcome.released@.len() ==> own_locks(
            tx,
            states,
            txid@,
        ).contains(outcome.released@[i].outpoint@) && outcome.released@[i].state
            == UTXOState::Unspent,
        locked is Err ==> outcome.released@.len() == own_locks(tx, states, txid@).len(),
{
    if locked is Err && 0 <= i < outcome.released@.len() {
        assert(outcome.released@[i].outpoint@ == own_locks(tx, states, txid@)[i]);
    }
}

/// A new transaction is sent exactly when there is a way to send, its inputs were locked
/// and it is valid; without a way to send nothing is done.
pub proof fn only_valid_transactions_are_sent(
    held: EngineV,
    tx: TransactionV,
    txid: Hash256,
    can_send: bool,
    locked: Result<(), String>,
    states: Seq<Option<UTXOState>>,
    view: TransactionView,
    now_secs: i64,
    outcome: (LockOutcome, Option<NetworkMessage>),
)
    requires
        held.submits(tx, txid, can_send, locked, states, view, now_secs, outcome),
    ensures
        outcome.1 is Some <==> can_send && locked is Ok && held.verdict(tx, txid@, view) is Ok,
        outcome.0.result is Ok <==> outcome.1 is Some,
        outcome.1 matches Some(message) ==> message@ == MessageV::TransactionBroadcast(tx),
        can_send ==> held.locks(tx, txid, locked, states, view, now_secs, outcome.0),
        !can_send ==> outcome.0.released@.len() == 0 && outcome.0.announced@.len() == 0
            && outcome.0.verified == 0,
{
}

/// What becomes of a stuck transaction. One that is no longer pending is passed over, one
/// whose input somebody else has spent is rejected. Otherwise its free inputs are to be
/// locked again, unless something in the pool competes with it.
pub proof fn stuck_transactions_are_looked_at(
    tx: TransactionV,
    txid: Seq<u8>,
    still_pending: bool,
    inputs: Seq<InputView>,
    contested: bool,
    start: RetryStart,
    i: int,
)
    requires
        starts_retry(tx, txid, still_pending, inputs, contested, start),
    ensures
        start is Skip <==> !still_pending,
        still_pending && 0 <= i < inputs.len() && spent_by_other(inputs[i], txid)
            ==> start is Reject,
        start matches RetryStart::Relock(outpoints) ==> {
            &&& contested ==> outpoints@.len() == 0
            &&& !contested ==> views(outpoints@) == free_inputs(tx, inputs)
        },
        start is Reject ==> exists|k: int|
            0 <= k < inputs.len() && spent_by_other(#[trigger] inputs[k], txid),
{
    match start {
        RetryStart::Relock(outpoints) => {
            assert(views(outpoints@).len() == outpoints@.len());
        },
        _ => {},
    }
}

/// A stuck transaction is rejected exactly when it is not valid. A valid one becomes
/// final exactly when nothing in the pool competes with it and nobody else holds one of
/// its inputs, and is left alone otherwise. A fee on record of zero is put right.
pub proof fn contested_transactions_are_left_alone(
    held: EngineV,
    tx: TransactionV,
    txid: Hash256,
    stored_fee: u64,
    view: TransactionView,
    contested: bool,
    outcome: (RetryDecision, usize),
)
    requires
        held.retries(tx, txid, stored_fee, view, contested, outcome),
    ensures
        ({
            let verdict = held.verdict(tx, txid@, view);
            let rivals = contested || exists|i: int|
                0 <= i < view.inputs@.len() && crate::validation::belongs_to_other(
                    (#[trigger] view.inputs@[i]).state,
                    txid@,
                );
            &&& outcome.0 is Reject <==> verdict is Err
            &&& outcome.0 is Leave <==> verdict is Ok && rivals
            &&& outcome.0 is Finalize <==> verdict is Ok && !rivals
            &&& outcome.0 matches RetryDecision::Finalize { repaired_fee, plan } ==> {
                &&& finalizes(plan, tx, txid@)
                &&& repaired_fee is Some <==> stored_fee == 0 && verdict->Ok_0 > 0
                &&& repaired_fee matches Some(fee) ==> fee == verdict->Ok_0
            }
            &&& outcome.0 matches RetryDecision::Leave { repaired_fee } ==> {
                &&& repaired_fee is Some <==> stored_fee == 0 && verdict->Ok_0 > 0
                &&& repaired_fee matches Some(fee) ==> fee == verdict->Ok_0
            }
        }),
{
}

/// A final transaction is evicted exactly when one of its inputs never existed: what it
/// took is then free again, and what it created is removed.
pub proof fn phantom_spenders_are_evicted(
    tx: TransactionV,
    txid: Seq<u8>,
    inputs: Seq<InputView>,
    known: Seq<bool>,
    plan: Option<EvictionPlan>,
    i: int,
)
    requires
        evicts(tx, txid, inputs, known, plan),
    ensures
        plan is Some <==> exists|k: int|
            0 <= k < inputs.len() && (#[trigger] inputs[k]).utxo is None && !inputs[k].tombstoned,
        plan matches Some(eviction) ==> {
            &&& views(eviction.removed@) == known_outputs(txid, known)
            &&& eviction.restored@.len() == restored(tx, inputs).len()
            &&& 0 <= i < eviction.restored@.len() ==> eviction.restored@[i].state
                == UTXOState::Unspent && eviction.restored@[i].outpoint@ == restored(
                tx,
                inputs,
            )[i]
        },
{
}

} // verus!
