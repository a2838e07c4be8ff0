//! Whether a transaction may be taken in.

use crate::crypto::{
    ed25519_accepts, ed25519_key_error, ordinary, public_key_error, verify_strict,
};
use crate::engine::{ConsensusEngine, EngineV};
use crate::fees::{larger, proportional_fee, rate_for, MIN_TX_FEE, SATOSHIS_PER_TIME};
use crate::identity::{key_bytes, signature_bytes};
use crate::keys::{carries_signature, signature_message, signs_all};
use crate::text::{
    decimal, decimal_text, join2, join3, join4, join5, same_bytes, same_text, text_of_bytes, told,
};
use crate::types::{
    same_hash, Hash256, SpecialKind, Transaction, TransactionV, TxOutputV, UTXOState, UTXO,
};
use vstd::prelude::*;
use vstd::utf8::{decode_utf8, encode_utf8, valid_utf8};

verus! {

/// The largest transaction, in bytes.
pub const MAX_TX_SIZE: usize = 10_000_000;

/// The least value of an output that has one.
pub const DUST_THRESHOLD: u64 = 1000;

/// What the store of outputs says of one input.
#[derive(Debug)]
pub struct InputView {
    /// The spent output as text.
    pub outpoint_text: String,
    /// The spent output as text for debugging.
    pub outpoint_debug: String,
    /// Whether the output is locked as a masternode's collateral.
    pub collateral_locked: bool,
    /// Whether the output is marked as spent for good.
    pub tombstoned: bool,
    pub state: Option<UTXOState>,
    /// The state as text.
    pub state_text: String,
    /// The output itself, where it is found.
    pub utxo: Option<UTXO>,
    /// Why the output was not found.
    pub utxo_error: String,
    /// The address of the key in the input, on the test network.
    pub derived_testnet: String,
    /// The address of the key in the input, on the main network.
    pub derived_mainnet: String,
}

/// What is known of a transaction besides its contents.
#[derive(Debug)]
pub struct TransactionView {
    /// Why a separate inspection turned the transaction down, if it did.
    pub inspection: Option<String>,
    /// The size of the transaction in bytes, or why it has none.
    pub size: Result<usize, String>,
    /// The hash of the transaction without signatures and memo.
    pub signing_hash: Hash256,
    /// One for each input.
    pub inputs: Vec<InputView>,
}

/// The transaction that an output is locked for or spent by.
pub open spec fn holder_of(state: Option<UTXOState>) -> Option<Seq<u8>> {
    match state {
        Some(UTXOState::Locked { txid, .. }) => Some(txid@),
        Some(UTXOState::SpentPending { txid, .. }) => Some(txid@),
        Some(UTXOState::SpentFinalized { txid }) => Some(txid@),
        Some(UTXOState::Archived { txid }) => Some(txid@),
        _ => None,
    }
}

/// Whether an output was spent for good by a transaction.
pub open spec fn finalized_by(input: InputView, txid: Seq<u8>) -> bool {
    match input.state {
        Some(UTXOState::SpentFinalized { txid: by }) => by@ == txid,
        None => input.tombstoned,
        _ => false,
    }
}

/// Why an output cannot be spent by a transaction, if it cannot.
pub open spec fn state_fault(input: InputView, txid: Seq<u8>) -> Option<Seq<char>> {
    if input.collateral_locked {
        Some("UTXO "@ + input.outpoint_text@ + " is locked as masternode collateral"@)
    } else {
        match input.state {
            Some(UTXOState::Unspent) => None,
            Some(UTXOState::Archived { .. }) => Some("UTXO not unspent: "@ + input.state_text@),
            Some(_) => if holder_of(input.state) == Some(txid) {
                None
            } else {
                Some("UTXO not unspent: "@ + input.state_text@)
            },
            None => if input.tombstoned || input.utxo is Some {
                None
            } else {
                Some("UTXO not found"@)
            },
        }
    }
}

/// The first fault among some inputs.
pub open spec fn first_state_fault(inputs: Seq<InputView>, txid: Seq<u8>) -> Option<Seq<char>>
    decreases inputs.len(),
{
    if inputs.len() == 0 {
        None
    } else {
        match first_state_fault(inputs.drop_last(), txid) {
            Some(text) => Some(text),
            None => state_fault(inputs.last(), txid),
        }
    }
}

/// Whether a transaction has spent all of its inputs for good already.
pub open spec fn all_finalized(inputs: Seq<InputView>, txid: Seq<u8>) -> bool {
    inputs.len() > 0 && forall|i: int|
        0 <= i < inputs.len() ==> finalized_by(#[trigger] inputs[i], txid)
}

/// Whether all outputs that some inputs spend are found.
pub open spec fn all_found(inputs: Seq<InputView>) -> bool {
    forall|i: int| 0 <= i < inputs.len() ==> (#[trigger] inputs[i]).utxo is Some
}

/// The value of the outputs that some inputs spend, as far as they are found.
pub open spec fn input_value(inputs: Seq<InputView>) -> nat
    decreases inputs.len(),
{
    if inputs.len() == 0 {
        0
    } else {
        input_value(inputs.drop_last()) + (match inputs.last().utxo {
            Some(utxo) => utxo.value as nat,
            None => 0,
        })
    }
}

/// The value of some outputs.
pub open spec fn output_value(outputs: Seq<TxOutputV>) -> nat
    decreases outputs.len(),
{
    if outputs.len() == 0 {
        0
    } else {
        output_value(outputs.drop_last()) + outputs.last().value as nat
    }
}

/// Whether all inputs come from one address and all outputs go back to it.
pub open spec fn is_consolidation(inputs: Seq<InputView>, outputs: Seq<TxOutputV>) -> bool {
    &&& inputs.len() > 0
    &&& forall|i: int|
        0 <= i < inputs.len() ==> ((#[trigger] inputs[i]).utxo->0)@.address == (
        inputs[0].utxo->0)@.address
    &&& forall|j: int|
        0 <= j < outputs.len() ==> (#[trigger] outputs[j]).script_pubkey == encode_utf8(
            (inputs[0].utxo->0)@.address,
        )
}

/// The first of some outputs that is worth something, but too little.
pub open spec fn first_dust(outputs: Seq<TxOutputV>) -> Option<u64>
    decreases outputs.len(),
{
    if outputs.len() == 0 {
        None
    } else {
        match first_dust(outputs.drop_last()) {
            Some(value) => Some(value),
            None => if 0 < outputs.last().value < DUST_THRESHOLD {
                Some(outputs.last().value)
            } else {
                None
            },
        }
    }
}

/// The amount that the proportional fee is taken of: the first output.
pub open spec fn sent_amount(outputs: Seq<TxOutputV>) -> u64 {
    if outputs.len() > 0 {
        outputs[0].value
    } else {
        output_value(outputs) as u64
    }
}

/// What is wrong with the amounts of a transaction, if anything is.
pub open spec fn amount_fault(
    inputs: Seq<InputView>,
    outputs: Seq<TxOutputV>,
    required_fee: int,
) -> Option<Seq<char>> {
    let fee = paid_fee(inputs, outputs);
    if first_dust(outputs) is Some {
        Some(
            "Dust output detected: "@ + decimal((first_dust(outputs)->0) as nat)
                + " satoshis (minimum "@ + decimal(DUST_THRESHOLD as nat) + ")"@,
        )
    } else if output_value(outputs) < SATOSHIS_PER_TIME {
        Some(
            "Send amount too small: "@ + decimal(output_value(outputs))
                + " satoshis (minimum 1 TIME = "@ + decimal(SATOSHIS_PER_TIME as nat)
                + " satoshis)"@,
        )
    } else if fee < MIN_TX_FEE {
        Some(
            "Transaction fee too low: "@ + decimal(fee) + " satoshis (minimum "@ + decimal(
                MIN_TX_FEE as nat,
            ) + ")"@,
        )
    } else if !is_consolidation(inputs, outputs) && fee < required_fee {
        Some(
            "Insufficient fee: "@ + decimal(fee) + " satoshis < "@ + decimal(required_fee as nat)
                + " satoshis required for send amount "@ + decimal(sent_amount(outputs) as nat),
        )
    } else {
        None
    }
}

/// What the outputs leave of the inputs.
pub open spec fn paid_fee(inputs: Seq<InputView>, outputs: Seq<TxOutputV>) -> nat {
    if input_value(inputs) > output_value(outputs) {
        (input_value(inputs) - output_value(outputs)) as nat
    } else {
        0
    }
}

/// How addresses of the test network begin: TIME0.
pub open spec fn testnet_prefix() -> Seq<u8> {
    seq![0x54u8, 0x49u8, 0x4du8, 0x45u8, 0x30u8]
}

/// How addresses of the main network begin: TIME1.
pub open spec fn mainnet_prefix() -> Seq<u8> {
    seq![0x54u8, 0x49u8, 0x4du8, 0x45u8, 0x31u8]
}

/// Whether bytes begin with others.
pub open spec fn has_prefix(bytes: Seq<u8>, prefix: Seq<u8>) -> bool {
    prefix.len() <= bytes.len() && bytes.take(prefix.len() as int) == prefix
}

/// The address of the key in an input, on the network of the spent output.
pub open spec fn derived_address(input: InputView, script: Seq<u8>) -> Option<Seq<char>> {
    if has_prefix(script, testnet_prefix()) {
        Some(input.derived_testnet@)
    } else if has_prefix(script, mainnet_prefix()) {
        Some(input.derived_mainnet@)
    } else {
        None
    }
}

/// What is wrong with the signature in an input, if anything is.
pub open spec fn signature_fault(
    script_sig: Seq<u8>,
    input: InputView,
    message: Seq<u8>,
    input_idx: nat,
) -> Option<Seq<char>> {
    match input.utxo {
        None => Some(
            "UTXO not found: "@ + input.outpoint_debug@ + " - "@ + input.utxo_error@,
        ),
        Some(utxo) => {
            let script = utxo.script_pubkey@;
            let key = script_sig.subrange(0, 32);
            if script_sig.len() != 96 {
                Some(
                    "Invalid script_sig length: "@ + decimal(script_sig.len())
                        + " (expected 96: 32-byte pubkey + 64-byte signature)"@,
                )
            } else if ed25519_key_error(key) is Some {
                Some("Invalid public key: "@ + ed25519_key_error(key)->0)
            } else if !valid_utf8(script) {
                Some("Invalid UTF-8 in UTXO script_pubkey"@)
            } else {
                match derived_address(input, script) {
                    None => Some("Invalid address prefix in UTXO script_pubkey"@),
                    Some(derived) => if encode_utf8(derived) != script {
                        Some(
                            "Public key doesn't match UTXO address: derived "@ + derived
                                + " vs stored "@ + decode_utf8(script),
                        )
                    } else if !ed25519_accepts(key, message, script_sig.subrange(32, 96)) {
                        Some(
                            "Signature verification FAILED for input "@ + decimal(input_idx)
                                + ": signature doesn't match message"@,
                        )
                    } else {
                        None
                    },
                }
            }
        },
    }
}

/// What is wrong with an input's authorisation, if anything is.
pub open spec fn authorisation_fault(
    tx: TransactionV,
    chain_id: u32,
    view: TransactionView,
    i: int,
) -> Option<Seq<char>> {
    if tx.inputs[i].script_sig.len() == 0 {
        Some(
            "Input "@ + decimal(i as nat)
                + " has empty script_sig — unsigned transactions are not allowed"@,
        )
    } else {
        signature_fault(
            tx.inputs[i].script_sig,
            view.inputs@[i],
            signature_message(
                tx.version,
                chain_id,
                view.signing_hash@,
                i as u32,
                tx.outputs,
            ),
            i as nat,
        )
    }
}

/// How many of the first inputs are authorised, up to a number.
pub open spec fn authorised_upto(
    tx: TransactionV,
    chain_id: u32,
    view: TransactionView,
    n: int,
) -> int
    decreases n,
{
    if n <= 0 {
        0
    } else {
        let earlier = authorised_upto(tx, chain_id, view, n - 1);
        if earlier == n - 1 && authorisation_fault(tx, chain_id, view, n - 1) is None {
            n
        } else {
            earlier
        }
    }
}

/// Whether a transaction registers or deregisters a masternode.
pub open spec fn is_masternode_control(tx: TransactionV) -> bool {
    match tx.special_data {
        Some(data) => data.kind != SpecialKind::Other,
        None => false,
    }
}

/// What is wrong with the size and the special data of a transaction, if anything is.
pub open spec fn form_fault(tx: TransactionV, view: TransactionView) -> Option<Seq<char>> {
    match view.inspection {
        Some(text) => Some(text@),
        None => match view.size {
            Err(text) => Some("Failed to serialize transaction: "@ + text@),
            Ok(size) => if size > MAX_TX_SIZE {
                Some(
                    "Transaction too large: "@ + decimal(size as nat) + " bytes (max "@ + decimal(
                        MAX_TX_SIZE as nat,
                    ) + " bytes)"@,
                )
            } else {
                match tx.special_data {
                    Some(data) => match data.field_error {
                        Some(text) => Some("Invalid special_data fields (AV41): "@ + text),
                        None => None,
                    },
                    None => None,
                }
            },
        },
    }
}

/// Whether validation gets as far as the amounts.
pub open spec fn reaches_amounts(tx: TransactionV, txid: Seq<u8>, view: TransactionView) -> bool {
    &&& form_fault(tx, view) is None
    &&& !is_masternode_control(tx)
    &&& first_state_fault(view.inputs@, txid) is None
    &&& !all_finalized(view.inputs@, txid)
    &&& all_found(view.inputs@)
}

impl EngineV {
    /// The fee that sending an amount requires.
    pub open spec fn fee_for(self, amount: u64) -> int {
        larger(proportional_fee(amount, rate_for(self.fee_tiers, amount)), self.min_fee as int)
    }

    /// What validation gives: the fee, or why the transaction is turned down.
    /// Transactions that register or deregister a masternode, and those that are
    /// final already, pay nothing here.
    pub open spec fn verdict(self, tx: TransactionV, txid: Seq<u8>, view: TransactionView) -> Result<
        u64,
        Seq<char>,
    > {
        let inputs = view.inputs@;
        if form_fault(tx, view) is Some {
            Err(form_fault(tx, view)->0)
        } else if is_masternode_control(tx) {
            Ok(0)
        } else if first_state_fault(inputs, txid) is Some {
            Err(first_state_fault(inputs, txid)->0)
        } else if all_finalized(inputs, txid) {
            Ok(0)
        } else if !all_found(inputs) {
            Err("UTXO not found"@)
        } else if amount_fault(
            inputs,
            tx.outputs,
            self.fee_for(sent_amount(tx.outputs)),
        ) is Some {
            Err(amount_fault(inputs, tx.outputs, self.fee_for(sent_amount(tx.outputs)))->0)
        } else {
            let n = tx.inputs.len() as int;
            let good = authorised_upto(tx, self.chain_id, view, n);
            if good < n {
                Err(authorisation_fault(tx, self.chain_id, view, good)->0)
            } else {
                Ok(paid_fee(inputs, tx.outputs) as u64)
            }
        }
    }

    /// Whether validation gets as far as the signatures.
    pub open spec fn reaches_signatures(
        self,
        tx: TransactionV,
        txid: Seq<u8>,
        view: TransactionView,
    ) -> bool {
        &&& reaches_amounts(tx, txid, view)
        &&& amount_fault(
            view.inputs@,
            tx.outputs,
            self.fee_for(sent_amount(tx.outputs)),
        ) is None
    }

    /// Whether the amounts of a transaction can be worked out, if validation gets as
    /// far as them: that sums fit, and products where the fee is in proportion.
    pub open spec fn amounts_fit(self, tx: TransactionV, txid: Seq<u8>, view: TransactionView) -> bool {
        &&& view.inputs@.len() == tx.inputs.len()
        &&& reaches_amounts(tx, txid, view) ==> {
            &&& input_value(view.inputs@) <= u64::MAX
            &&& output_value(tx.outputs) <= u64::MAX
            &&& amount_fault(view.inputs@, tx.outputs, 0) is None && !is_consolidation(
                view.inputs@,
                tx.outputs,
            ) ==> sent_amount(tx.outputs) * rate_for(self.fee_tiers, sent_amount(tx.outputs))
                <= u64::MAX
        }
    }
}

fn owned(state: &Option<UTXOState>, txid: &Hash256) -> (ours: bool)
    ensures
        ours == (holder_of(*state) == Some(txid@)),
{
    match state {
        Some(UTXOState::Locked { txid: by, .. }) => same_hash(by, txid),
        Some(UTXOState::SpentPending { txid: by, .. }) => same_hash(by, txid),
        Some(UTXOState::SpentFinalized { txid: by }) => same_hash(by, txid),
        Some(UTXOState::Archived { txid: by }) => same_hash(by, txid),
        _ => false,
    }
}

fn find_state_fault(input: &InputView, txid: &Hash256) -> (fault: Option<String>)
    ensures
        crate::types::option_view(fault) == state_fault(*input, txid@),
{
    if input.collateral_locked {
        return Some(
            join3("UTXO ", input.outpoint_text.as_str(), " is locked as masternode collateral"),
        );
    }
    match input.state {
        Some(UTXOState::Unspent) => None,
        Some(UTXOState::Archived { .. }) => Some(
            join2("UTXO not unspent: ", input.state_text.as_str()),
        ),
        Some(_) => if owned(&input.state, txid) {
            None
        } else {
            Some(join2("UTXO not unspent: ", input.state_text.as_str()))
        },
        None => if input.tombstoned || input.utxo.is_some() {
            None
        } else {
            Some(String::from_str("UTXO not found"))
        },
    }
}

fn is_finalized_by(input: &InputView, txid: &Hash256) -> (done: bool)
    ensures
        done == finalized_by(*input, txid@),
{
    match &input.state {
        Some(UTXOState::SpentFinalized { txid: by }) => same_hash(by, txid),
        None => input.tombstoned,
        _ => false,
    }
}

proof fn lemma_fault_found(inputs: Seq<InputView>, txid: Seq<u8>, i: int)
    requires
        0 <= i <= inputs.len(),
        first_state_fault(inputs.take(i), txid) is Some,
    ensures
        first_state_fault(inputs, txid) == first_state_fault(inputs.take(i), txid),
    decreases inputs.len() - i,
{
    if i == inputs.len() {
        assert(inputs.take(i) =~= inputs);
    } else {
        assert(inputs.take(i + 1).drop_last() =~= inputs.take(i));
        lemma_fault_found(inputs, txid, i + 1);
    }
}

proof fn lemma_input_prefix(inputs: Seq<InputView>, i: int)
    requires
        0 <= i <= inputs.len(),
    ensures
        input_value(inputs.take(i)) <= input_value(inputs),
        i < inputs.len() ==> input_value(inputs.take(i + 1)) == input_value(inputs.take(i)) + (
        match inputs[i].utxo {
            Some(utxo) => utxo.value as nat,
            None => 0,
        }),
    decreases inputs.len() - i,
{
    if i == inputs.len() {
        assert(inputs.take(i) =~= inputs);
    } else {
        assert(inputs.take(i + 1).drop_last() =~= inputs.take(i));
        lemma_input_prefix(inputs, i + 1);
    }
}

proof fn lemma_output_prefix(outputs: Seq<TxOutputV>, i: int)
    requires
        0 <= i <= outputs.len(),
    ensures
        output_value(outputs.take(i)) <= output_value(outputs),
        i < outputs.len() ==> output_value(outputs.take(i + 1)) == output_value(outputs.take(i))
            + outputs[i].value,
    decreases outputs.len() - i,
{
    if i == outputs.len() {
        assert(outputs.take(i) =~= outputs);
    } else {
        assert(outputs.take(i + 1).drop_last() =~= outputs.take(i));
        lemma_output_prefix(outputs, i + 1);
    }
}

/// Adds up what some inputs spend, as far as it is found. There is no sum where it
/// does not fit.
pub fn add_inputs(inputs: &Vec<InputView>) -> (sum: Option<u64>)
    ensures
        match sum {
            Some(value) => value == input_value(inputs@),
            None => input_value(inputs@) > u64::MAX,
        },
{
    let mut sum: u64 = 0;
    let mut i: usize = 0;
    while i < inputs.len()
        invariant
            i <= inputs@.len(),
            sum == input_value(inputs@.take(i as int)),
        decreases inputs@.len() - i,
    {
        proof {
            lemma_input_prefix(inputs@, i as int);
            lemma_input_prefix(inputs@, i + 1);
        }
        match &inputs[i].utxo {
            Some(utxo) => match sum.checked_add(utxo.value) {
                Some(value) => {
                    sum = value;
                },
                None => {
                    return None;
                },
            },
            None => {},
        }
        i = i + 1;
    }
    assert(inputs@.take(i as int) =~= inputs@);
    Some(sum)
}

/// Adds up what some inputs spend, as far as it is found.
pub fn sum_inputs(inputs: &Vec<InputView>) -> (sum: u64)
    requires
        input_value(inputs@) <= u64::MAX,
    ensures
        sum == input_value(inputs@),
{
    match add_inputs(inputs) {
        Some(sum) => sum,
        None => 0,
    }
}

/// Adds up the outputs of a transaction. There is no sum where it does not fit.
pub fn add_outputs(tx: &Transaction) -> (sum: Option<u64>)
    ensures
        match sum {
            Some(value) => value == output_value(tx@.outputs),
            None => output_value(tx@.outputs) > u64::MAX,
        },
{
    let ghost outputs = tx@.outputs;
    let mut sum: u64 = 0;
    let mut i: usize = 0;
    while i < tx.outputs.len()
        invariant
            i <= tx.outputs@.len(),
            outputs == tx@.outputs,
            sum == output_value(outputs.take(i as int)),
        decreases tx.outputs@.len() - i,
    {
        proof {
            lemma_output_prefix(outputs, i as int);
            lemma_output_prefix(outputs, i + 1);
            assert(outputs[i as int] == tx.outputs@[i as int]@);
        }
        match sum.checked_add(tx.outputs[i].value) {
            Some(value) => {
                sum = value;
            },
            None => {
                return None;
            },
        }
        i = i + 1;
    }
    assert(outputs.take(i as int) =~= outputs);
    Some(sum)
}

/// Adds up the outputs of a transaction.
pub fn sum_outputs(tx: &Transaction) -> (sum: u64)
    requires
        output_value(tx@.outputs) <= u64::MAX,
    ensures
        sum == output_value(tx@.outputs),
{
    match add_outputs(tx) {
        Some(sum) => sum,
        None => 0,
    }
}

fn consolidates(inputs: &Vec<InputView>, tx: &Transaction) -> (yes: bool)
    requires
        all_found(inputs@),
    ensures
        yes == is_consolidation(inputs@, tx@.outputs),
{
    if inputs.len() == 0 {
        return false;
    }
    let ghost first = (inputs@[0].utxo->0)@.address;
    let address: &String = match &inputs[0].utxo {
        Some(utxo) => &utxo.address,
        None => {
            assert(false);
            return false;
        },
    };
    let mut i: usize = 0;
    while i < inputs.len()
        invariant
            i <= inputs@.len(),
            inputs@.len() > 0,
            all_found(inputs@),
            first == (inputs@[0].utxo->0)@.address,
            address@ == first,
            forall|j: int|
                0 <= j < i ==> ((#[trigger] inputs@[j]).utxo->0)@.address == first,
        decreases inputs@.len() - i,
    {
        match &inputs[i].utxo {
            Some(utxo) => {
                if !same_text(utxo.address.as_str(), address.as_str()) {
                    assert((inputs@[i as int].utxo->0)@.address != first);
                    return false;
                }
            },
            None => {},
        }
        i = i + 1;
    }
    let mut j: usize = 0;
    while j < tx.outputs.len()
        invariant
            j <= tx.outputs@.len(),
            address@ == first,
            first == (inputs@[0].utxo->0)@.address,
            forall|k: int|
                0 <= k < j ==> (#[trigger] tx@.outputs[k]).script_pubkey == encode_utf8(first),
        decreases tx.outputs@.len() - j,
    {
        assert(tx@.outputs[j as int] == tx.outputs@[j as int]@);
        if !same_bytes(&tx.outputs[j].script_pubkey, address.as_str().as_bytes()) {
            assert(tx@.outputs[j as int].script_pubkey != encode_utf8(first));
            return false;
        }
        j = j + 1;
    }
    true
}

proof fn lemma_dust_found(outputs: Seq<TxOutputV>, i: int)
    requires
        0 <= i <= outputs.len(),
        first_dust(outputs.take(i)) is Some,
    ensures
        first_dust(outputs) == first_dust(outputs.take(i)),
    decreases outputs.len() - i,
{
    if i == outputs.len() {
        assert(outputs.take(i) =~= outputs);
    } else {
        assert(outputs.take(i + 1).drop_last() =~= outputs.take(i));
        lemma_dust_found(outputs, i + 1);
    }
}

fn find_dust(tx: &Transaction) -> (dust: Option<u64>)
    ensures
        dust == first_dust(tx@.outputs),
{
    let ghost outputs = tx@.outputs;
    let mut i: usize = 0;
    while i < tx.outputs.len()
        invariant
            i <= tx.outputs@.len(),
            outputs == tx@.outputs,
            first_dust(outputs.take(i as int)) is None,
        decreases tx.outputs@.len() - i,
    {
        proof {
            assert(outputs.take(i + 1).drop_last() =~= outputs.take(i as int));
            assert(outputs.take(i + 1).last() == tx.outputs@[i as int]@);
        }
        let value: u64 = tx.outputs[i].value;
        if value > 0 && value < DUST_THRESHOLD {
            proof {
                lemma_dust_found(outputs, i + 1);
            }
            return Some(value);
        }
        i = i + 1;
    }
    assert(outputs.take(i as int) =~= outputs);
    None
}

fn starts_with(bytes: &Vec<u8>, last: u8) -> (yes: bool)
    ensures
        yes == has_prefix(bytes@, seq![0x54u8, 0x49u8, 0x4du8, 0x45u8, last]),
{
    let ghost prefix = seq![0x54u8, 0x49u8, 0x4du8, 0x45u8, last];
    if bytes.len() < 5 {
        return false;
    }
    let yes = bytes[0] == 0x54 && bytes[1] == 0x49 && bytes[2] == 0x4d && bytes[3] == 0x45
        && bytes[4] == last;
    proof {
        let head = bytes@.take(5);
        if yes {
            assert(head =~= prefix);
        } else if head == prefix {
            assert(head[0] == prefix[0] && head[1] == prefix[1] && head[2] == prefix[2] && head[3]
                == prefix[3] && head[4] == prefix[4]);
        }
    }
    yes
}

impl ConsensusEngine {
    fn find_form_fault(&self, tx: &Transaction, view: &TransactionView) -> (fault: Option<String>)
        ensures
            crate::types::option_view(fault) == form_fault(tx@, *view),
    {
        match &view.inspection {
            Some(text) => {
                return Some(text.clone());
            },
            None => {},
        }
        match &view.size {
            Err(text) => {
                return Some(join2("Failed to serialize transaction: ", text.as_str()));
            },
            Ok(size) => {
                if *size > MAX_TX_SIZE {
                    let size_text = decimal_text(*size as u64);
                    let limit = decimal_text(MAX_TX_SIZE as u64);
                    return Some(
                        join5(
                            "Transaction too large: ",
                            size_text.as_str(),
                            " bytes (max ",
                            limit.as_str(),
                            " bytes)",
                        ),
                    );
                }
            },
        }
        match &tx.special_data {
            Some(data) => match &data.field_error {
                Some(text) => Some(join2("Invalid special_data fields (AV41): ", text.as_str())),
                None => None,
            },
            None => None,
        }
    }

    fn find_amount_fault(&self, tx: &Transaction, txid: &Hash256, view: &TransactionView) -> (fault:
        Option<String>)
        requires
            self@.amounts_fit(tx@, txid@, *view),
            reaches_amounts(tx@, txid@, *view),
        ensures
            crate::types::option_view(fault) == amount_fault(
                view.inputs@,
                tx@.outputs,
                self@.fee_for(sent_amount(tx@.outputs)),
            ),
    {
        let input_sum: u64 = sum_inputs(&view.inputs);
        let output_sum: u64 = sum_outputs(tx);
        match find_dust(tx) {
            Some(value) => {
                let dust = decimal_text(value);
                let limit = decimal_text(DUST_THRESHOLD);
                return Some(
                    join5(
                        "Dust output detected: ",
                        dust.as_str(),
                        " satoshis (minimum ",
                        limit.as_str(),
                        ")",
                    ),
                );
            },
            None => {},
        }
        if output_sum < SATOSHIS_PER_TIME {
            let sent = decimal_text(output_sum);
            let limit = decimal_text(SATOSHIS_PER_TIME);
            return Some(
                join5(
                    "Send amount too small: ",
                    sent.as_str(),
                    " satoshis (minimum 1 TIME = ",
                    limit.as_str(),
                    " satoshis)",
                ),
            );
        }
        let actual_fee: u64 = input_sum.saturating_sub(output_sum);
        let paid = decimal_text(actual_fee);
        if actual_fee < MIN_TX_FEE {
            let limit = decimal_text(MIN_TX_FEE);
            return Some(
                join5(
                    "Transaction fee too low: ",
                    paid.as_str(),
                    " satoshis (minimum ",
                    limit.as_str(),
                    ")",
                ),
            );
        }
        if !consolidates(&view.inputs, tx) {
            let send_amount: u64 = if tx.outputs.len() > 0 {
                tx.outputs[0].value
            } else {
                output_sum
            };
            assert(send_amount == sent_amount(tx@.outputs));
            let required: u64 = self.fee_schedule.required_fee(send_amount);
            if actual_fee < required {
                let needed = decimal_text(required);
                let sent = decimal_text(send_amount);
                let first = join4(
                    "Insufficient fee: ",
                    paid.as_str(),
                    " satoshis < ",
                    needed.as_str(),
                );
                let text = join3(
                    first.as_str(),
                    " satoshis required for send amount ",
                    sent.as_str(),
                );
                return Some(text);
            }
        }
        None
    }

    /// Checks the signature in an input. `tx_hash` is the hash of the transaction
    /// without signatures and memo. Hands back the public key, which belongs to
    /// the address of the spent output.
    pub fn verify_input_signature(
        &self,
        tx: &Transaction,
        input_idx: usize,
        input: &InputView,
        tx_hash: &Hash256,
    ) -> (checked: Result<[u8; 32], String>)
        ensures
            match checked {
                Ok(key) => {
                    &&& input_idx < tx@.inputs.len()
                    &&& signature_fault(
                        tx@.inputs[input_idx as int].script_sig,
                        *input,
                        signature_message(
                            tx@.version,
                            self@.chain_id,
                            tx_hash@,
                            input_idx as u32,
                            tx@.outputs,
                        ),
                        input_idx as nat,
                    ) is None
                    &&& key@ == tx@.inputs[input_idx as int].script_sig.subrange(0, 32)
                },
                Err(text) => if input_idx >= tx@.inputs.len() {
                    text@ == "Input index out of range"@
                } else {
                    signature_fault(
                        tx@.inputs[input_idx as int].script_sig,
                        *input,
                        signature_message(
                            tx@.version,
                            self@.chain_id,
                            tx_hash@,
                            input_idx as u32,
                            tx@.outputs,
                        ),
                        input_idx as nat,
                    ) == Some(text@)
                },
            },
    {
        if input_idx >= tx.inputs.len() {
            return Err(String::from_str("Input index out of range"));
        }
        assert(tx@.inputs[input_idx as int] == tx.inputs@[input_idx as int]@);
        let utxo = match &input.utxo {
            Some(utxo) => utxo,
            None => {
                return Err(
                    join4(
                        "UTXO not found: ",
                        input.outpoint_debug.as_str(),
                        " - ",
                        input.utxo_error.as_str(),
                    ),
                );
            },
        };
        let message = match self.create_signature_message(tx, input_idx, tx_hash) {
            Ok(message) => message,
            Err(text) => {
                assert(false);
                return Err(text);
            },
        };
        let script_sig = &tx.inputs[input_idx].script_sig;
        let script = &utxo.script_pubkey;
        if script_sig.len() != 96 {
            let n = decimal_text(script_sig.len() as u64);
            return Err(
                join3(
                    "Invalid script_sig length: ",
                    n.as_str(),
                    " (expected 96: 32-byte pubkey + 64-byte signature)",
                ),
            );
        }
        let key = key_bytes(script_sig);
        let signature = signature_bytes(script_sig, 32);
        match public_key_error(&key) {
            Some(text) => {
                return Err(join2("Invalid public key: ", text.as_str()));
            },
            None => {},
        }
        let stored = match text_of_bytes(script) {
            Some(text) => text,
            None => {
                return Err(String::from_str("Invalid UTF-8 in UTXO script_pubkey"));
            },
        };
        let derived: &String = if starts_with(script, 0x30) {
            &input.derived_testnet
        } else if starts_with(script, 0x31) {
            &input.derived_mainnet
        } else {
            return Err(String::from_str("Invalid address prefix in UTXO script_pubkey"));
        };
        if !same_bytes(derived.as_str().as_bytes(), script) {
            return Err(
                join4(
                    "Public key doesn't match UTXO address: derived ",
                    derived.as_str(),
                    " vs stored ",
                    stored.as_str(),
                ),
            );
        }
        if !verify_strict(&key, &message, &signature) {
            let n = decimal_text(input_idx as u64);
            return Err(
                join3(
                    "Signature verification FAILED for input ",
                    n.as_str(),
                    ": signature doesn't match message",
                ),
            );
        }
        Ok(key)
    }

    /// Validates a transaction up to its amounts. There is an answer where that
    /// settles the matter.
    fn validate_upto_amounts(&self, tx: &Transaction, our_txid: &Hash256, view: &TransactionView) -> (
    answer: Option<Result<u64, String>>)
        ensures
            match answer {
                Some(result) => !reaches_amounts(tx@, our_txid@, *view) && told(result)
                    == self@.verdict(tx@, our_txid@, *view),
                None => reaches_amounts(tx@, our_txid@, *view),
            },
    {
        match self.find_form_fault(tx, view) {
            Some(text) => {
                return Some(Err(text));
            },
            None => {},
        }
        let control = match &tx.special_data {
            Some(data) => !matches!(data.kind, SpecialKind::Other),
            None => false,
        };
        if control {
            return Some(Ok(0));
        }
        let ghost inputs = view.inputs@;
        let mut finalized = view.inputs.len() > 0;
        let mut i: usize = 0;
        while i < view.inputs.len()
            invariant
                i <= view.inputs@.len(),
                inputs == view.inputs@,
                form_fault(tx@, *view) is None,
                !is_masternode_control(tx@),
                first_state_fault(inputs.take(i as int), our_txid@) is None,
                finalized == (inputs.len() > 0 && forall|j: int|
                    0 <= j < i ==> finalized_by(#[trigger] inputs[j], our_txid@)),
            decreases view.inputs@.len() - i,
        {
            proof {
                assert(inputs.take(i + 1).drop_last() =~= inputs.take(i as int));
                assert(inputs.take(i + 1).last() == inputs[i as int]);
            }
            match find_state_fault(&view.inputs[i], our_txid) {
                Some(text) => {
                    proof {
                        lemma_fault_found(inputs, our_txid@, i + 1);
                    }
                    return Some(Err(text));
                },
                None => {},
            }
            if !is_finalized_by(&view.inputs[i], our_txid) {
                assert(!finalized_by(inputs[i as int], our_txid@));
                finalized = false;
            }
            i = i + 1;
        }
        assert(inputs.take(i as int) =~= inputs);
        if finalized {
            return Some(Ok(0));
        }
        i = 0;
        while i < view.inputs.len()
            invariant
                i <= view.inputs@.len(),
                inputs == view.inputs@,
                form_fault(tx@, *view) is None,
                !is_masternode_control(tx@),
                first_state_fault(inputs, our_txid@) is None,
                !all_finalized(inputs, our_txid@),
                forall|j: int| 0 <= j < i ==> (#[trigger] inputs[j]).utxo is Some,
            decreases view.inputs@.len() - i,
        {
            if view.inputs[i].utxo.is_none() {
                assert(inputs[i as int].utxo is None);
                return Some(Err(String::from_str("UTXO not found")));
            }
            i = i + 1;
        }
        None
    }

    /// Whether the amounts of a transaction can be worked out, if validation gets as
    /// far as them.
    pub fn amounts_in_range(&self, tx: &Transaction, txid: &Hash256, view: &TransactionView) -> (fit:
        bool)
        ensures
            fit == self@.amounts_fit(tx@, txid@, *view),
    {
        if view.inputs.len() != tx.inputs.len() {
            return false;
        }
        match self.validate_upto_amounts(tx, txid, view) {
            Some(_) => {
                return true;
            },
            None => {},
        }
        match (add_inputs(&view.inputs), add_outputs(tx)) {
            (Some(input_sum), Some(output_sum)) => {
                let fee: u64 = input_sum.saturating_sub(output_sum);
                if find_dust(tx).is_some() || output_sum < SATOSHIS_PER_TIME || fee < MIN_TX_FEE
                    || consolidates(&view.inputs, tx) {
                    return true;
                }
                let amount: u64 = if tx.outputs.len() > 0 {
                    tx.outputs[0].value
                } else {
                    output_sum
                };
                let rate: u64 = self.fee_schedule.rate_of(amount);
                amount.checked_mul(rate).is_some()
            },
            _ => false,
        }
    }

    /// Validates a transaction; outputs that are locked for it may be spent by
    /// it. Gives the fee, or why the transaction is turned down; and how many of
    /// the first inputs were found to be signed by the key of their address.
    pub fn validate_transaction_with_locks(
        &self,
        tx: &Transaction,
        our_txid: Hash256,
        view: &TransactionView,
    ) -> (answer: (Result<u64, String>, usize))
        requires
            self@.amounts_fit(tx@, our_txid@, *view),
        ensures
            told(answer.0) == self@.verdict(tx@, our_txid@, *view),
            answer.1 == (if self@.reaches_signatures(tx@, our_txid@, *view) {
                authorised_upto(tx@, self@.chain_id, *view, tx@.inputs.len() as int)
            } else {
                0
            }),
    {
        match self.validate_upto_amounts(tx, &our_txid, view) {
            Some(result) => {
                return (result, 0);
            },
            None => {},
        }
        let ghost inputs = view.inputs@;
        match self.find_amount_fault(tx, &our_txid, view) {
            Some(text) => {
                return (Err(text), 0);
            },
            None => {},
        }
        let ghost n = tx@.inputs.len() as int;
        let ghost chain = self@.chain_id;
        let mut idx: usize = 0;
        while idx < tx.inputs.len()
            invariant
                idx <= tx.inputs@.len(),
                inputs == view.inputs@,
                n == tx@.inputs.len(),
                n == tx.inputs@.len(),
                inputs.len() == n,
                chain == self@.chain_id,
                self@.reaches_signatures(tx@, our_txid@, *view),
                authorised_upto(tx@, chain, *view, idx as int) == idx,
            decreases tx.inputs@.len() - idx,
        {
            assert(tx@.inputs[idx as int] == tx.inputs@[idx as int]@);
            if tx.inputs[idx].script_sig.len() == 0 {
                proof {
                    lemma_authorised_stops(tx@, chain, *view, idx as int, n);
                }
                let place = decimal_text(idx as u64);
                return (
                    Err(
                        join3(
                            "Input ",
                            place.as_str(),
                            " has empty script_sig — unsigned transactions are not allowed",
                        ),
                    ),
                    idx,
                );
            }
            match self.verify_input_signature(tx, idx, &view.inputs[idx], &view.signing_hash) {
                Ok(_) => {},
                Err(text) => {
                    proof {
                        lemma_authorised_stops(tx@, chain, *view, idx as int, n);
                    }
                    return (Err(text), idx);
                },
            }
            idx = idx + 1;
        }
        let input_sum: u64 = sum_inputs(&view.inputs);
        let output_sum: u64 = sum_outputs(tx);
        (Ok(input_sum.saturating_sub(output_sum)), idx)
    }

    /// Validates a transaction; also gives how many of the first inputs are known
    /// to be signed by their key.
    pub fn validate_transaction(&self, tx: &Transaction, txid: Hash256, view: &TransactionView) -> (
    outcome: (Result<(), String>, usize))
        requires
            self@.amounts_fit(tx@, txid@, *view),
        ensures
            told(outcome.0) == (match self@.verdict(tx@, txid@, *view) {
                Ok(_) => Ok(()),
                Err(text) => Err(text),
            }),
            outcome.1 == (if self@.reaches_signatures(tx@, txid@, *view) {
                authorised_upto(tx@, self@.chain_id, *view, tx@.inputs.len() as int)
            } else {
                0
            }),
    {
        let (result, verified) = self.validate_transaction_with_locks(tx, txid, view);
        match result {
            Ok(_) => (Ok(()), verified),
            Err(text) => (Err(text), verified),
        }
    }

    /// Whether another transaction in the pool spends one of some inputs, or an
    /// output that they spend is locked for or spent by another transaction.
    /// `in_pool` says what the pool found.
    pub fn has_double_spend_conflict(
        &self,
        inputs: &Vec<InputView>,
        exclude_txid: &Hash256,
        in_pool: bool,
    ) -> (conflict: bool)
        ensures
            conflict == (in_pool || held_by_other(inputs@, exclude_txid@)),
    {
        if in_pool {
            return true;
        }
        let mut i: usize = 0;
        while i < inputs.len()
            invariant
                i <= inputs@.len(),
                forall|j: int|
                    0 <= j < i ==> !belongs_to_other((#[trigger] inputs@[j]).state, exclude_txid@),
            decreases inputs@.len() - i,
        {
            if is_held(&inputs[i].state) && !owned(&inputs[i].state, exclude_txid) {
                assert(belongs_to_other(inputs@[i as int].state, exclude_txid@));
                return true;
            }
            i = i + 1;
        }
        false
    }

    /// Whether an output that some inputs spend is spent by another transaction.
    pub fn inputs_already_spent_by_other(&self, inputs: &Vec<InputView>, our_txid: &Hash256) -> (spent:
        bool)
        ensures
            spent == (exists|i: int|
                0 <= i < inputs@.len() && spent_by_other(#[trigger] inputs@[i], our_txid@)),
    {
        let mut i: usize = 0;
        while i < inputs.len()
            invariant
                i <= inputs@.len(),
                forall|j: int| 0 <= j < i ==> !spent_by_other(#[trigger] inputs@[j], our_txid@),
            decreases inputs@.len() - i,
        {
            let input = &inputs[i];
            let by_other = is_held(&input.state) && !matches!(
                input.state,
                Some(UTXOState::Locked { .. })
            ) && !owned(&input.state, our_txid);
            let gone = input.tombstoned && !(matches!(
                input.state,
                Some(UTXOState::SpentFinalized { .. })
            ) && owned(&input.state, our_txid));
            if by_other || gone {
                assert(spent_by_other(inputs@[i as int], our_txid@));
                return true;
            }
            assert(!spent_by_other(inputs@[i as int], our_txid@));
            i = i + 1;
        }
        false
    }
}

fn is_held(state: &Option<UTXOState>) -> (held: bool)
    ensures
        held == (holder_of(*state) is Some),
{
    match state {
        Some(UTXOState::Unspent) => false,
        None => false,
        _ => true,
    }
}

/// Whether an output is locked for or spent by another transaction.
pub open spec fn belongs_to_other(state: Option<UTXOState>, txid: Seq<u8>) -> bool {
    holder_of(state) is Some && holder_of(state) != Some(txid)
}

/// Whether one of the outputs that some inputs spend belongs to another transaction.
pub open spec fn held_by_other(inputs: Seq<InputView>, txid: Seq<u8>) -> bool {
    exists|i: int| 0 <= i < inputs.len() && belongs_to_other((#[trigger] inputs[i]).state, txid)
}

/// Whether an output is spent by another transaction: its state says so, or it is
/// marked as spent for good and not by this one.
pub open spec fn spent_by_other(input: InputView, txid: Seq<u8>) -> bool {
    ||| belongs_to_other(input.state, txid) && !(input.state matches Some(UTXOState::Locked { .. }))
    ||| input.tombstoned && !(input.state matches Some(UTXOState::SpentFinalized { txid: by })
        && by@ == txid)
}

proof fn lemma_authorised_stops(
    tx: TransactionV,
    chain_id: u32,
    view: TransactionView,
    i: int,
    n: int,
)
    requires
        0 <= i < n,
        authorised_upto(tx, chain_id, view, i) == i,
        authorisation_fault(tx, chain_id, view, i) is Some,
    ensures
        authorised_upto(tx, chain_id, view, n) == i,
    decreases n,
{
    if n > i + 1 {
        lemma_authorised_stops(tx, chain_id, view, i, n - 1);
    }
}

proof fn lemma_authorised_range(tx: TransactionV, chain_id: u32, view: TransactionView, n: int)
    requires
        0 <= n,
    ensures
        0 <= authorised_upto(tx, chain_id, view, n) <= n,
        forall|i: int|
            0 <= i < authorised_upto(tx, chain_id, view, n) ==> #[trigger] authorisation_fault(
                tx,
                chain_id,
                view,
                i,
            ) is None,
    decreases n,
{
    if n > 0 {
        lemma_authorised_range(tx, chain_id, view, n - 1);
    }
}

/// A transaction that is taken in with its signatures checked creates no value:
/// its inputs are worth its outputs and a fee of at least the minimum, and every
/// input is signed by the key of the address that it spends from.
pub proof fn accepted_creates_no_value(
    held: EngineV,
    tx: TransactionV,
    txid: Seq<u8>,
    view: TransactionView,
)
    requires
        held.reaches_signatures(tx, txid, view),
        held.verdict(tx, txid, view) is Ok,
        input_value(view.inputs@) <= u64::MAX,
    ensures
        input_value(view.inputs@) == output_value(tx.outputs) + held.verdict(tx, txid, view)->Ok_0,
        held.verdict(tx, txid, view)->Ok_0 >= MIN_TX_FEE,
        forall|i: int|
            0 <= i < tx.inputs.len() ==> #[trigger] authorisation_fault(
                tx,
                held.chain_id,
                view,
                i,
            ) is None,
{
    lemma_authorised_range(tx, held.chain_id, view, tx.inputs.len() as int);
}

/// A transaction of which an input belongs to another transaction is turned
/// down, unless it only registers or deregisters a masternode.
pub proof fn foreign_inputs_are_refused(
    held: EngineV,
    tx: TransactionV,
    txid: Seq<u8>,
    view: TransactionView,
)
    requires
        held_by_other(view.inputs@, txid),
        !is_masternode_control(tx),
    ensures
        held.verdict(tx, txid, view) is Err,
{
    let inputs = view.inputs@;
    let i = choose|i: int|
        0 <= i < inputs.len() && belongs_to_other((#[trigger] inputs[i]).state, txid);
    lemma_fault_at(inputs, txid, i);
}

/// What the wallet signs is authorised: where the key in an input takes the
/// signature beside it, and the spent output belongs to the address of that key,
/// nothing is wrong with the input's authorisation.
pub proof fn signed_inputs_are_authorised(
    tx: TransactionV,
    chain_id: u32,
    view: TransactionView,
    i: int,
)
    requires
        0 <= i < tx.inputs.len(),
        signs_all(tx, chain_id, view.signing_hash@),
        ordinary(tx.inputs[i].script_sig.subrange(32, 96)),
        view.inputs@[i].utxo matches Some(utxo) && valid_utf8(utxo.script_pubkey@) && (
        derived_address(view.inputs@[i], utxo.script_pubkey@) matches Some(derived)
            && encode_utf8(derived) == utxo.script_pubkey@),
    ensures
        authorisation_fault(tx, chain_id, view, i) is None,
{
    assert(carries_signature(
        tx.inputs[i].script_sig,
        signature_message(tx.version, chain_id, view.signing_hash@, i as u32, tx.outputs),
    ));
}

proof fn lemma_fault_at(inputs: Seq<InputView>, txid: Seq<u8>, i: int)
    requires
        0 <= i < inputs.len(),
        state_fault(inputs[i], txid) is Some,
    ensures
        first_state_fault(inputs, txid) is Some,
    decreases inputs.len(),
{
    if i < inputs.len() - 1 {
        lemma_fault_at(inputs.drop_last(), txid, i);
    }
}

/// Values add up: each input brings the value of the output that it spends, none
/// where that is not found, and each output takes its own.
pub proof fn values_add_up(
    inputs: Seq<InputView>,
    input: InputView,
    outputs: Seq<TxOutputV>,
    output: TxOutputV,
)
    ensures
        input_value(seq![]) == 0,
        input_value(inputs.push(input)) == input_value(inputs) + (match input.utxo {
            Some(utxo) => utxo.value as int,
            None => 0,
        }),
        output_value(seq![]) == 0,
        output_value(outputs.push(output)) == output_value(outputs) + output.value,
{
    assert(inputs.push(input).drop_last() =~= inputs);
    assert(outputs.push(output).drop_last() =~= outputs);
}

/// A transaction that is taken in with its signatures checked, and of which some
/// output does not go back to the address that its first input comes from, pays in
/// proportion: what its inputs are worth above its outputs is at least the fee for
/// its first output.
pub proof fn payments_pay_in_proportion(
    held: EngineV,
    tx: TransactionV,
    txid: Seq<u8>,
    view: TransactionView,
    j: int,
)
    requires
        held.reaches_signatures(tx, txid, view),
        held.verdict(tx, txid, view) is Ok,
        input_value(view.inputs@) <= u64::MAX,
        0 <= j < tx.outputs.len(),
        view.inputs@.len() > 0,
        tx.outputs[j].script_pubkey != encode_utf8((view.inputs@[0].utxo->0)@.address),
    ensures
        ({
            let amount = tx.outputs[0].value;
            let rate = rate_for(held.fee_tiers, amount);
            let fee = held.verdict(tx, txid, view)->Ok_0;
            &&& fee == input_value(view.inputs@) - output_value(tx.outputs)
            &&& fee >= held.min_fee
            &&& 10_000 * (fee + 1) > amount * rate
        }),
{
    accepted_creates_no_value(held, tx, txid, view);
    let amount = tx.outputs[0].value;
    let rate = rate_for(held.fee_tiers, amount);
    assert(amount * rate >= 0) by (nonlinear_arith)
        requires
            amount >= 0,
            rate >= 0,
    ;
}

/// The same where the inputs come from different addresses.
pub proof fn mixed_inputs_pay_in_proportion(
    held: EngineV,
    tx: TransactionV,
    txid: Seq<u8>,
    view: TransactionView,
    i: int,
)
    requires
        held.reaches_signatures(tx, txid, view),
        held.verdict(tx, txid, view) is Ok,
        input_value(view.inputs@) <= u64::MAX,
        0 <= i < view.inputs@.len(),
        (view.inputs@[i].utxo->0)@.address != (view.inputs@[0].utxo->0)@.address,
        tx.outputs.len() > 0,
    ensures
        ({
            let amount = tx.outputs[0].value;
            let rate = rate_for(held.fee_tiers, amount);
            let fee = held.verdict(tx, txid, view)->Ok_0;
            &&& fee >= held.min_fee
            &&& 10_000 * (fee + 1) > amount * rate
        }),
{
    accepted_creates_no_value(held, tx, txid, view);
    let amount = tx.outputs[0].value;
    let rate = rate_for(held.fee_tiers, amount);
    assert(amount * rate >= 0) by (nonlinear_arith)
        requires
            amount >= 0,
            rate >= 0,
    ;
}

/// What comes from one address and goes back to it pays the least fee only.
pub proof fn consolidations_pay_the_least_fee(
    held: EngineV,
    tx: TransactionV,
    txid: Seq<u8>,
    view: TransactionView,
    address: Seq<char>,
)
    requires
        reaches_amounts(tx, txid, view),
        view.inputs@.len() > 0,
        forall|i: int|
            0 <= i < view.inputs@.len() ==> ((#[trigger] view.inputs@[i]).utxo->0)@.address
                == address,
        forall|j: int|
            0 <= j < tx.outputs.len() ==> (#[trigger] tx.outputs[j]).script_pubkey == encode_utf8(
                address,
            ) && tx.outputs[j].value >= 1_000,
        output_value(tx.outputs) >= 100_000_000,
        input_value(view.inputs@) >= output_value(tx.outputs) + 1_000_000,
    ensures
        held.reaches_signatures(tx, txid, view),
{
    lemma_no_dust(tx.outputs);
}

proof fn lemma_no_dust(outputs: Seq<TxOutputV>)
    requires
        forall|j: int|
            0 <= j < outputs.len() ==> (#[trigger] outputs[j]).value == 0 || outputs[j].value
                >= DUST_THRESHOLD,
    ensures
        first_dust(outputs) is None,
    decreases outputs.len(),
{
    if outputs.len() > 0 {
        assert forall|j: int| 0 <= j < outputs.drop_last().len() implies (
        #[trigger] outputs.drop_last()[j]).value == 0 || outputs.drop_last()[j].value
            >= DUST_THRESHOLD by {
            assert(outputs.drop_last()[j] == outputs[j]);
        }
        assert(outputs[outputs.len() - 1] == outputs.last());
        lemma_no_dust(outputs.drop_last());
    }
}

proof fn lemma_dust(outputs: Seq<TxOutputV>, j: int)
    requires
        0 <= j < outputs.len(),
        0 < outputs[j].value < DUST_THRESHOLD,
    ensures
        first_dust(outputs) is Some,
    decreases outputs.len(),
{
    if j < outputs.len() - 1 {
        lemma_dust(outputs.drop_last(), j);
    }
}

proof fn lemma_states_sound(inputs: Seq<InputView>, txid: Seq<u8>)
    requires
        forall|i: int|
            0 <= i < inputs.len() ==> state_fault(#[trigger] inputs[i], txid) is None,
    ensures
        first_state_fault(inputs, txid) is None,
    decreases inputs.len(),
{
    if inputs.len() > 0 {
        assert forall|i: int| 0 <= i < inputs.drop_last().len() implies state_fault(
            #[trigger] inputs.drop_last()[i],
            txid,
        ) is None by {
            assert(inputs.drop_last()[i] == inputs[i]);
        }
        assert(state_fault(inputs[inputs.len() - 1], txid) is None);
        lemma_states_sound(inputs.drop_last(), txid);
    }
}

proof fn lemma_all_authorised(tx: TransactionV, chain_id: u32, view: TransactionView, n: int)
    requires
        0 <= n,
        forall|i: int|
            0 <= i < n ==> #[trigger] authorisation_fault(tx, chain_id, view, i) is None,
    ensures
        authorised_upto(tx, chain_id, view, n) == n,
    decreases n,
{
    if n > 0 {
        lemma_all_authorised(tx, chain_id, view, n - 1);
        assert(authorisation_fault(tx, chain_id, view, n - 1) is None);
    }
}

/// A sound payment is taken in, for the fee that its outputs leave of its inputs: one
/// of ordinary size whose inputs are free or its own, found and signed, with no dust,
/// at least one TIME in all, and a fee of at least the least one and of the one that
/// its first output asks for.
pub proof fn sound_payments_are_accepted(
    held: EngineV,
    tx: TransactionV,
    txid: Seq<u8>,
    view: TransactionView,
)
    requires
        view.inspection is None,
        view.size matches Ok(size) && size <= 10_000_000,
        tx.special_data is None,
        view.inputs@.len() == tx.inputs.len(),
        tx.outputs.len() > 0,
        forall|i: int|
            0 <= i < view.inputs@.len() ==> {
                let input = #[trigger] view.inputs@[i];
                &&& !input.collateral_locked
                &&& input.utxo is Some
                &&& match input.state {
                    Some(UTXOState::Unspent) => true,
                    Some(UTXOState::Locked { txid: by, .. }) => by@ == txid,
                    Some(UTXOState::SpentPending { txid: by, .. }) => by@ == txid,
                    _ => false,
                }
            },
        forall|j: int|
            0 <= j < tx.outputs.len() ==> (#[trigger] tx.outputs[j]).value >= 1_000,
        output_value(tx.outputs) >= 100_000_000,
        input_value(view.inputs@) <= u64::MAX,
        input_value(view.inputs@) >= output_value(tx.outputs) + 1_000_000,
        input_value(view.inputs@) >= output_value(tx.outputs) + held.min_fee,
        10_000 * (input_value(view.inputs@) - output_value(tx.outputs)) >= tx.outputs[0].value
            * rate_for(held.fee_tiers, tx.outputs[0].value),
        forall|i: int|
            0 <= i < tx.inputs.len() ==> #[trigger] authorisation_fault(
                tx,
                held.chain_id,
                view,
                i,
            ) is None,
    ensures
        held.verdict(tx, txid, view) == Ok::<u64, Seq<char>>(
            (input_value(view.inputs@) - output_value(tx.outputs)) as u64,
        ),
{
    let inputs = view.inputs@;
    assert forall|i: int| 0 <= i < inputs.len() implies state_fault(
        #[trigger] inputs[i],
        txid,
    ) is None by {}
    lemma_states_sound(inputs, txid);
    lemma_no_dust(tx.outputs);
    lemma_all_authorised(tx, held.chain_id, view, tx.inputs.len() as int);
    let amount = tx.outputs[0].value;
    let rate = rate_for(held.fee_tiers, amount);
    assert(amount * rate >= 0) by (nonlinear_arith)
        requires
            amount >= 0,
            rate >= 0,
    ;
    if inputs.len() > 0 {
        assert(!finalized_by(inputs[0], txid));
    }
}

/// Unsound transactions are turned down: those that are too large, that spend what is
/// collateral, archived or not to be found, that hold dust, send less than one TIME or
/// pay less than the least fee, and those of which an input is not authorised.
pub proof fn unsound_payments_are_refused(
    held: EngineV,
    tx: TransactionV,
    txid: Seq<u8>,
    view: TransactionView,
    i: int,
)
    requires
        !is_masternode_control(tx),
        view.inputs@.len() == tx.inputs.len(),
        ({
            let inputs = view.inputs@;
            let fresh = !all_finalized(inputs, txid);
            ||| view.inspection is Some
            ||| view.size matches Ok(size) && size > 10_000_000
            ||| 0 <= i < inputs.len() && inputs[i].collateral_locked
            ||| 0 <= i < inputs.len() && (inputs[i].state matches Some(UTXOState::Archived { .. }))
            ||| 0 <= i < inputs.len() && inputs[i].utxo is None && fresh
            ||| 0 <= i < tx.outputs.len() && 0 < tx.outputs[i].value < 1_000 && fresh
            ||| output_value(tx.outputs) < 100_000_000 && fresh
            ||| input_value(inputs) < output_value(tx.outputs) + 1_000_000 && fresh
            ||| 0 <= i < tx.inputs.len() && fresh && authorisation_fault(
                tx,
                held.chain_id,
                view,
                i,
            ) is Some
        }),
    ensures
        held.verdict(tx, txid, view) is Err,
{
    let inputs = view.inputs@;
    if 0 <= i < inputs.len() && (inputs[i].collateral_locked || (inputs[i].state matches Some(
        UTXOState::Archived { .. },
    ))) {
        lemma_fault_at(inputs, txid, i);
    }
    if 0 <= i < tx.outputs.len() && 0 < tx.outputs[i].value < 1_000 {
        lemma_dust(tx.outputs, i);
    }
    lemma_authorised_range(tx, held.chain_id, view, tx.inputs.len() as int);
}

/// An input is authorised only by the key of the address that it spends from: what
/// stands in it is that key and a signature of it that the key takes for this input of
/// this transaction.
pub proof fn authorised_inputs_are_signed(
    tx: TransactionV,
    chain_id: u32,
    view: TransactionView,
    i: int,
)
    requires
        0 <= i < tx.inputs.len(),
        authorisation_fault(tx, chain_id, view, i) is None,
    ensures
        ({
            let script_sig = tx.inputs[i].script_sig;
            let message = signature_message(
                tx.version,
                chain_id,
                view.signing_hash@,
                i as u32,
                tx.outputs,
            );
            &&& script_sig.len() == 96
            &&& ed25519_key_error(script_sig.take(32)) is None
            &&& ed25519_accepts(script_sig.take(32), message, script_sig.skip(32))
            &&& view.inputs@[i].utxo matches Some(utxo) && {
                let input = view.inputs@[i];
                let script = utxo.script_pubkey@;
                &&& has_prefix(script, testnet_prefix()) ==> encode_utf8(input.derived_testnet@)
                    == script
                &&& !has_prefix(script, testnet_prefix()) ==> has_prefix(
                    script,
                    mainnet_prefix(),
                ) && encode_utf8(input.derived_mainnet@) == script
            }
        }),
{
    let script_sig = tx.inputs[i].script_sig;
    assert(script_sig.take(32) =~= script_sig.subrange(0, 32));
    assert(script_sig.skip(32) =~= script_sig.subrange(32, 96));
}

/// A transaction that registers or deregisters a masternode pays nothing here, and so
/// does one that has spent all of its inputs for good already.
pub proof fn control_transactions_are_free(
    held: EngineV,
    tx: TransactionV,
    txid: Seq<u8>,
    view: TransactionView,
)
    requires
        view.inspection is None,
        view.size matches Ok(size) && size <= 10_000_000,
        tx.special_data matches Some(data) ==> data.field_error is None,
        tx.special_data matches Some(data) && data.kind != SpecialKind::Other || (view.inputs@.len()
            > 0 && forall|i: int|
            0 <= i < view.inputs@.len() ==> !(#[trigger] view.inputs@[i]).collateral_locked && (
            view.inputs@[i].state matches Some(UTXOState::SpentFinalized { txid: by })
                && by@ == txid)),
    ensures
        held.verdict(tx, txid, view) == Ok::<u64, Seq<char>>(0),
{
    if !(tx.special_data matches Some(data) && data.kind != SpecialKind::Other) {
        let inputs = view.inputs@;
        assert forall|i: int| 0 <= i < inputs.len() implies state_fault(
            #[trigger] inputs[i],
            txid,
        ) is None && finalized_by(inputs[i], txid) by {}
        lemma_states_sound(inputs, txid);
    }
}

/// An output belongs to somebody else exactly when it is locked for or spent by
/// another transaction; it is spent by somebody else when that is more than a lock, or
/// when it is marked as spent and not by this one.
pub proof fn others_hold_what_they_locked(input: InputView, txid: Seq<u8>, by: Hash256, since: i64)
    requires
        by@ != txid,
    ensures
        input.state == Some(UTXOState::Locked { txid: by, locked_at: since }) ==> belongs_to_other(
            input.state,
            txid,
        ) && (spent_by_other(input, txid) <==> input.tombstoned),
        input.state == Some(UTXOState::SpentFinalized { txid: by }) ==> belongs_to_other(
            input.state,
            txid,
        ) && spent_by_other(input, txid),
        input.state == Some(UTXOState::Archived { txid: by }) ==> belongs_to_other(
            input.state,
            txid,
        ) && spent_by_other(input, txid),
        (input.state matches Some(UTXOState::SpentPending { txid: holder, .. }) && holder == by)
            ==> belongs_to_other(input.state, txid) && spent_by_other(input, txid),
        input.state == Some(UTXOState::Unspent) ==> !belongs_to_other(input.state, txid) && (
        spent_by_other(input, txid) <==> input.tombstoned),
        input.state is None ==> !belongs_to_other(input.state, txid) && (spent_by_other(
            input,
            txid,
        ) <==> input.tombstoned),
{
}

/// The inputs that are known to be signed are the first ones up to the first that is not
/// authorised.
pub proof fn verified_inputs_come_first(
    tx: TransactionV,
    chain_id: u32,
    view: TransactionView,
    n: int,
)
    requires
        0 <= n,
    ensures
        ({
            let good = authorised_upto(tx, chain_id, view, n);
            &&& 0 <= good <= n
            &&& forall|i: int|
                0 <= i < good ==> #[trigger] authorisation_fault(tx, chain_id, view, i) is None
            &&& good < n ==> authorisation_fault(tx, chain_id, view, good) is Some
        }),
    decreases n,
{
    lemma_authorised_range(tx, chain_id, view, n);
    if n > 0 {
        verified_inputs_come_first(tx, chain_id, view, n - 1);
    }
}

/// An output that a transaction has spent for good counts as spent by it, and so does one
/// without a state that is marked as spent; no other does.
pub proof fn final_inputs_are_recognised(input: InputView, txid: Seq<u8>)
    ensures
        finalized_by(input, txid) <==> (input.state matches Some(
            UTXOState::SpentFinalized { txid: by },
        ) && by@ == txid) || (input.state is None && input.tombstoned),
{
}

/// What is locked for a transaction or spent by it belongs to it, and nobody else has
/// spent it.
pub proof fn own_inputs_are_nobody_elses(input: InputView, own: Hash256)
    requires
        holder_of(input.state) == Some(own@),
        !input.tombstoned,
    ensures
        !belongs_to_other(input.state, own@),
        !spent_by_other(input, own@),
{
}

/// Addresses begin with TIME0 on the test network and with TIME1 on the main network.
pub proof fn networks_have_their_prefixes()
    ensures
        testnet_prefix() == seq![84u8, 73, 77, 69, 48],
        mainnet_prefix() == seq![84u8, 73, 77, 69, 49],
{
}

} // verus!
