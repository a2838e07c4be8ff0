//! The keys of a node, and signing with them.

use crate::crypto::{
    ed25519_accepts, ed25519_key_error, ed25519_public_key, ed25519_signature, ordinary,
    public_key_of, sha256, sha256_digest, sha512, sha512_digest, sign_message,
};
use crate::engine::{ConsensusEngine, EngineV, IdentityV};
use crate::identity::NodeIdentity;
use crate::sums::views;
use crate::text::{copy_bytes, join2, told};
use crate::timevote::{at, find_node, node_at, weight_at};
use crate::types::{
    AVSSnapshot, FinalityVote, Hash256, TimeVote, TimeVoteV, Transaction, TransactionV, TxInput,
    TxInputV, TxOutput, TxOutputV, VoteDecision,
};
use vstd::bytes::{spec_u32_to_le_bytes, spec_u64_to_le_bytes};
use vstd::prelude::*;
use vstd::utf8::encode_utf8;

verus! {

/// What outputs look like as bytes: the number of outputs, and for each its
/// value, the length of its script, and the script; numbers in eight bytes, the
/// low one first.
pub open spec fn outputs_encoding(outputs: Seq<TxOutputV>) -> Seq<u8> {
    spec_u64_to_le_bytes(outputs.len() as u64) + outputs_body(outputs)
}

/// The outputs behind their number.
pub open spec fn outputs_body(outputs: Seq<TxOutputV>) -> Seq<u8>
    decreases outputs.len(),
{
    if outputs.len() == 0 {
        seq![]
    } else {
        outputs_body(outputs.drop_last()) + spec_u64_to_le_bytes(outputs.last().value)
            + spec_u64_to_le_bytes(outputs.last().script_pubkey.len() as u64)
            + outputs.last().script_pubkey
    }
}

/// Outputs as pairs of a value and a script.
pub open spec fn as_outputs(pairs: Seq<(u64, Vec<u8>)>) -> Seq<TxOutputV> {
    pairs.map_values(|p: (u64, Vec<u8>)| TxOutputV { value: p.0, script_pubkey: p.1@ })
}

/// Calls `bincode::serialize`. Trusted: its fixed-width little-endian form, with
/// the length before a list and a byte string, and pairs in order; a list of
/// pairs in memory always serialises.
#[verifier::external_body]
fn serialize_outputs(outputs: &Vec<(u64, Vec<u8>)>) -> (bytes: Vec<u8>)
    ensures
        bytes@ == outputs_encoding(as_outputs(outputs@)),
{
    bincode::serialize(outputs).unwrap()
}

/// What an input of a transaction is signed for: from version 2 on the chain, the
/// hash of the transaction without signatures and memo, the place of the input,
/// and the hash of the outputs.
pub open spec fn signed_content(
    version: u32,
    chain_id: u32,
    tx_hash: Seq<u8>,
    input_idx: u32,
    outputs: Seq<TxOutputV>,
) -> Seq<u8> {
    (if version >= 2 {
        spec_u32_to_le_bytes(chain_id)
    } else {
        seq![]
    }) + tx_hash + spec_u32_to_le_bytes(input_idx) + sha256(outputs_encoding(outputs))
}

/// The bytes that an input of a transaction is signed over: the hash of what it
/// is signed for.
pub open spec fn signature_message(
    version: u32,
    chain_id: u32,
    tx_hash: Seq<u8>,
    input_idx: u32,
    outputs: Seq<TxOutputV>,
) -> Seq<u8> {
    sha256(signed_content(version, chain_id, tx_hash, input_idx, outputs))
}

/// What goes into an input to authorise it: the public key and the signature.
pub open spec fn script_sig_of(key: Seq<u8>, message: Seq<u8>) -> Seq<u8> {
    ed25519_public_key(key) + ed25519_signature(key, message)
}

/// A transaction with all inputs signed by a key.
pub open spec fn signed(tx: TransactionV, chain_id: u32, tx_hash: Seq<u8>, key: Seq<u8>) -> TransactionV {
    TransactionV {
        inputs: Seq::new(
            tx.inputs.len(),
            |i: int|
                TxInputV {
                    script_sig: script_sig_of(
                        key,
                        signature_message(tx.version, chain_id, tx_hash, i as u32, tx.outputs),
                    ),
                    ..tx.inputs[i]
                },
        ),
        ..tx
    }
}

/// Whether what stands in an input is a public key and a signature of a message
/// that the key takes.
pub open spec fn carries_signature(script_sig: Seq<u8>, message: Seq<u8>) -> bool {
    &&& script_sig.len() == 96
    &&& ed25519_key_error(script_sig.subrange(0, 32)) is None
    &&& ed25519_accepts(script_sig.subrange(0, 32), message, script_sig.subrange(32, 96))
}

/// Whether the key in each input takes the signature beside it, where that is an
/// ordinary one.
pub open spec fn signs_all(tx: TransactionV, chain_id: u32, tx_hash: Seq<u8>) -> bool {
    forall|i: int|
        0 <= i < tx.inputs.len() && ordinary(
            (#[trigger] tx.inputs[i]).script_sig.subrange(32, 96),
        ) ==> carries_signature(
            tx.inputs[i].script_sig,
            signature_message(tx.version, chain_id, tx_hash, i as u32, tx.outputs),
        )
}

/// A transaction without its signatures and its memo: what its signing hash is
/// taken of.
pub open spec fn unsigned(tx: TransactionV) -> TransactionV {
    TransactionV {
        inputs: Seq::new(
            tx.inputs.len(),
            |i: int| TxInputV { script_sig: seq![], ..tx.inputs[i] },
        ),
        encrypted_memo: None,
        ..tx
    }
}

/// The secret of a derived key: half of a hash of the master secret and the index.
pub open spec fn child_secret(master: Seq<u8>, index: u32) -> Seq<u8> {
    sha512(encode_utf8("TIMECOIN-KEY-DERIVATION"@) + master + spec_u32_to_le_bytes(index)).subrange(
        0,
        32,
    )
}

impl EngineV {
    /// The key that signs transactions: the wallet's, or else the node's.
    pub open spec fn spending_key(self) -> Option<Seq<u8>> {
        match self.wallet_signing_key {
            Some(key) => Some(key),
            None => match self.identity {
                Some(identity) => Some(identity.signing_key),
                None => None,
            },
        }
    }

    /// The key that controls an address: a derived key for a derived address.
    pub open spec fn key_for(self, address: Seq<char>) -> Option<Seq<u8>> {
        match at(self.derived_addresses, address) {
            Some(index) => self.child_key(index),
            None => self.spending_key(),
        }
    }

    /// Whether a vote, if there is one and its signature is an ordinary one,
    /// passes the check under the node's public key.
    pub open spec fn vouches_for(self, vote: Option<TimeVoteV>) -> bool {
        match (vote, self.identity) {
            (Some(cast), Some(identity)) => ordinary(cast.signature) ==> cast.signed_by(
                ed25519_public_key(identity.signing_key),
            ),
            (Some(_), None) => false,
            (None, _) => true,
        }
    }

    /// The vote of the node to accept a transaction, if it knows the transaction and
    /// is a validator of the snapshot.
    pub open spec fn finality_vote_for(
        self,
        txid: Seq<u8>,
        tx_bytes: Option<Seq<u8>>,
        slot_index: u64,
        snapshot: crate::types::AVSSnapshotV,
    ) -> Option<TimeVoteV> {
        match (self.identity, tx_bytes) {
            (Some(identity), Some(bytes)) => match weight_at(
                snapshot.validators,
                identity.address,
            ) {
                Some(weight) => Some(
                    signed_vote(
                        identity,
                        txid,
                        sha256(bytes),
                        slot_index,
                        VoteDecision::Accept,
                        weight,
                    ),
                ),
                None => None,
            },
            _ => None,
        }
    }

    /// The vote of the node on a transaction, if it is an active masternode.
    pub open spec fn timevote_for(
        self,
        txid: Seq<u8>,
        tx_hash_commitment: Seq<u8>,
        slot_index: u64,
        decision: VoteDecision,
    ) -> Option<TimeVoteV> {
        match self.identity {
            Some(identity) => match node_at(self.timevote.registry.active(), identity.address) {
                Some(info) => Some(
                    signed_vote(
                        identity,
                        txid,
                        tx_hash_commitment,
                        slot_index,
                        decision,
                        self.timevote.registry.weights.weight(info.masternode.tier),
                    ),
                ),
                None => None,
            },
            None => None,
        }
    }

    /// A derived key of the wallet.
    pub open spec fn child_key(self, index: u32) -> Option<Seq<u8>> {
        match self.wallet_signing_key {
            Some(master) => Some(child_secret(master, index)),
            None => None,
        }
    }
}

/// What an optional key says.
pub open spec fn key_view(key: Option<[u8; 32]>) -> Option<Seq<u8>> {
    match key {
        Some(k) => Some(k@),
        None => None,
    }
}

fn output_pairs(outputs: &Vec<TxOutput>) -> (pairs: Vec<(u64, Vec<u8>)>)
    ensures
        as_outputs(pairs@) == views(outputs@),
{
    let mut pairs: Vec<(u64, Vec<u8>)> = Vec::new();
    let mut i: usize = 0;
    while i < outputs.len()
        invariant
            i <= outputs@.len(),
            pairs@.len() == i,
            forall|j: int|
                0 <= j < i ==> (#[trigger] pairs@[j]).0 == outputs@[j].value && pairs@[j].1@
                    == outputs@[j].script_pubkey@,
        decreases outputs@.len() - i,
    {
        pairs.push((outputs[i].value, copy_bytes(&outputs[i].script_pubkey)));
        i = i + 1;
    }
    assert(as_outputs(pairs@) =~= views(outputs@));
    pairs
}

/// A copy of a transaction without signatures and memo.
pub fn unsigned_copy(tx: &Transaction) -> (copy: Transaction)
    ensures
        copy@ == unsigned(tx@),
{
    let mut inputs: Vec<TxInput> = Vec::new();
    let mut i: usize = 0;
    while i < tx.inputs.len()
        invariant
            i <= tx.inputs@.len(),
            inputs@.len() == i,
            forall|j: int|
                0 <= j < i ==> (#[trigger] inputs@[j])@ == (TxInputV {
                    script_sig: seq![],
                    ..tx@.inputs[j]
                }),
        decreases tx.inputs@.len() - i,
    {
        let input = &tx.inputs[i];
        let script_sig: Vec<u8> = Vec::new();
        assert(script_sig@ =~= seq![]);
        inputs.push(
            TxInput {
                previous_output: input.previous_output.clone(),
                script_sig,
                sequence: input.sequence,
            },
        );
        i = i + 1;
    }
    let full = tx.clone();
    let copy = Transaction { inputs, encrypted_memo: None, ..full };
    assert(copy@.inputs =~= unsigned(tx@).inputs);
    copy
}

impl ConsensusEngine {
    /// Gives the node its identity. It can be set once.
    pub fn set_identity(&mut self, address: String, signing_key: [u8; 32]) -> (done: Result<
        (),
        String,
    >)
        requires
            old(self).wf(),
        ensures
            final(self).wf(),
            told(done) == (if old(self)@.identity is Some {
                Err("Identity already set"@)
            } else {
                Ok(())
            }),
            final(self)@ == (if old(self)@.identity is Some {
                old(self)@
            } else {
                EngineV {
                    identity: Some(IdentityV { address: address@, signing_key: signing_key@ }),
                    ..old(self)@
                }
            }),
    {
        if self.identity.is_some() {
            return Err(String::from_str("Identity already set"));
        }
        self.identity = Some(NodeIdentity { address, signing_key });
        Ok(())
    }

    /// Gives the node its wallet key. It can be set once.
    pub fn set_wallet_signing_key(&mut self, key: [u8; 32]) -> (done: Result<(), String>)
        requires
            old(self).wf(),
        ensures
            final(self).wf(),
            told(done) == (if old(self)@.wallet_signing_key is Some {
                Err("Wallet signing key already set"@)
            } else {
                Ok(())
            }),
            final(self)@ == (if old(self)@.wallet_signing_key is Some {
                old(self)@
            } else {
                EngineV { wallet_signing_key: Some(key@), ..old(self)@ }
            }),
    {
        if self.wallet_signing_key.is_some() {
            return Err(String::from_str("Wallet signing key already set"));
        }
        self.wallet_signing_key = Some(key);
        Ok(())
    }

    /// The node's consensus key.
    pub fn get_signing_key(&self) -> (key: Option<[u8; 32]>)
        ensures
            key_view(key) == (match self@.identity {
                Some(identity) => Some(identity.signing_key),
                None => None,
            }),
    {
        match &self.identity {
            Some(identity) => Some(identity.signing_key),
            None => None,
        }
    }

    /// The key that signs transactions: the wallet's, or else the node's.
    pub fn get_wallet_signing_key(&self) -> (key: Option<[u8; 32]>)
        ensures
            key_view(key) == self@.spending_key(),
    {
        match self.wallet_signing_key {
            Some(key) => Some(key),
            None => self.get_signing_key(),
        }
    }

    /// Creates the bytes that an input is signed over: a hash of the chain, the
    /// transaction, the input and the outputs. `tx_hash` is the hash of the
    /// transaction without signatures and memo.
    pub fn create_signature_message(&self, tx: &Transaction, input_idx: usize, tx_hash: &Hash256) -> (
    message: Result<Vec<u8>, String>)
        ensures
            message matches Ok(bytes) && bytes@ == signature_message(
                tx@.version,
                self@.chain_id,
                tx_hash@,
                input_idx as u32,
                tx@.outputs,
            ),
    {
        let mut content: Vec<u8> = Vec::new();
        if tx.version >= 2 {
            content = vstd::bytes::u32_to_le_bytes(self.chain_id);
        }
        let mut part = copy_bytes(tx_hash);
        content.append(&mut part);
        part = vstd::bytes::u32_to_le_bytes(
            #[verifier::truncate]
            (input_idx as u32),
        );
        content.append(&mut part);
        let pairs = output_pairs(&tx.outputs);
        let outputs_bytes = serialize_outputs(&pairs);
        let outputs_hash = sha256_digest(&outputs_bytes);
        part = copy_bytes(&outputs_hash);
        content.append(&mut part);
        assert(content@ =~= signed_content(
            tx@.version,
            self@.chain_id,
            tx_hash@,
            input_idx as u32,
            tx@.outputs,
        ));
        let message = sha256_digest(&content);
        Ok(copy_bytes(&message))
    }

    fn sign_inputs(&self, tx: &mut Transaction, tx_hash: &Hash256, key: &[u8; 32])
        ensures
            final(tx)@ == signed(old(tx)@, self@.chain_id, tx_hash@, key@),
            signs_all(final(tx)@, self@.chain_id, tx_hash@),
    {
        let ghost before = tx@;
        let public = public_key_of(key);
        let mut inputs: Vec<TxInput> = Vec::new();
        let mut idx: usize = 0;
        while idx < tx.inputs.len()
            invariant
                tx@ == before,
                idx <= tx.inputs@.len(),
                inputs@.len() == idx,
                public@ == ed25519_public_key(key@),
                forall|j: int|
                    0 <= j < idx ==> (#[trigger] inputs@[j])@ == signed(
                        before,
                        self@.chain_id,
                        tx_hash@,
                        key@,
                    ).inputs[j],
                forall|j: int|
                    0 <= j < idx ==> ordinary((#[trigger] inputs@[j]).script_sig@.subrange(32, 96))
                        ==> carries_signature(
                        inputs@[j].script_sig@,
                        signature_message(
                            before.version,
                            self@.chain_id,
                            tx_hash@,
                            j as u32,
                            before.outputs,
                        ),
                    ),
            decreases tx.inputs@.len() - idx,
        {
            let message = match self.create_signature_message(tx, idx, tx_hash) {
                Ok(message) => message,
                Err(_) => {
                    assert(false);
                    vstd::pervasive::unreached()
                },
            };
            let signature = sign_message(key, &message);
            let mut script_sig = copy_bytes(&public);
            let mut part = copy_bytes(&signature);
            script_sig.append(&mut part);
            proof {
                assert(script_sig@.subrange(0, 32) =~= public@);
                assert(script_sig@.subrange(32, 96) =~= signature@);
            }
            let input = &tx.inputs[idx];
            assert(input@ == before.inputs[idx as int]);
            inputs.push(
                TxInput {
                    previous_output: input.previous_output.clone(),
                    script_sig,
                    sequence: input.sequence,
                },
            );
            idx = idx + 1;
        }
        tx.inputs = inputs;
        assert(tx@.inputs =~= signed(before, self@.chain_id, tx_hash@, key@).inputs);
        assert(tx@ =~= signed(before, self@.chain_id, tx_hash@, key@));
    }

    /// Signs all inputs of a transaction. `tx_hash` is the hash of the
    /// transaction without signatures and memo.
    pub fn sign_transaction(&self, tx: &mut Transaction, tx_hash: &Hash256) -> (done: Result<
        (),
        String,
    >)
        ensures
            told(done) == (match self@.spending_key() {
                Some(_) => Ok(()),
                None => Err("No signing key available — node identity not set"@),
            }),
            final(tx)@ == (match self@.spending_key() {
                Some(key) => signed(old(tx)@, self@.chain_id, tx_hash@, key),
                None => old(tx)@,
            }),
            done is Ok ==> signs_all(final(tx)@, self@.chain_id, tx_hash@),
    {
        match self.get_wallet_signing_key() {
            Some(key) => {
                self.sign_inputs(tx, tx_hash, &key);
                Ok(())
            },
            None => Err(String::from_str("No signing key available — node identity not set")),
        }
    }

    /// Derives a key from the wallet key.
    pub fn derive_child_key_at(&self, index: u32) -> (key: Option<[u8; 32]>)
        ensures
            key_view(key) == self@.child_key(index),
    {
        match self.wallet_signing_key {
            None => None,
            Some(master) => {
                let mut data = copy_bytes("TIMECOIN-KEY-DERIVATION".as_bytes());
                let mut part = copy_bytes(&master);
                data.append(&mut part);
                part = vstd::bytes::u32_to_le_bytes(index);
                data.append(&mut part);
                assert(data@ =~= encode_utf8("TIMECOIN-KEY-DERIVATION"@) + master@
                    + spec_u32_to_le_bytes(index));
                let output = sha512_digest(&data);
                let bytes = copy_bytes(&output);
                Some(crate::identity::key_bytes(&bytes))
            },
        }
    }

    /// The public key of a derived key.
    pub fn child_public_key_at(&self, index: u32) -> (key: Option<[u8; 32]>)
        ensures
            key_view(key) == (match self@.child_key(index) {
                Some(secret) => Some(ed25519_public_key(secret)),
                None => None,
            }),
    {
        match self.derive_child_key_at(index) {
            Some(secret) => Some(public_key_of(&secret)),
            None => None,
        }
    }

    /// Registers a derived address under its index.
    pub fn register_derived_address(&mut self, address: String, index: u32)
        requires
            old(self).wf(),
        ensures
            final(self).wf(),
            final(self)@ == (EngineV {
                derived_addresses: old(self)@.derived_addresses.insert(address@, index),
                ..old(self)@
            }),
    {
        self.derived_address_map.insert(address, index);
    }

    /// Registers the addresses of the first derived keys, in order. Without a
    /// wallet key there are none.
    pub fn preload_derived_addresses(&mut self, addresses: Vec<String>)
        requires
            old(self).wf(),
            addresses@.len() <= u32::MAX,
        ensures
            final(self).wf(),
            final(self)@ == (EngineV {
                derived_addresses: if old(self)@.wallet_signing_key is Some {
                    registered(old(self)@.derived_addresses, views(addresses@))
                } else {
                    old(self)@.derived_addresses
                },
                ..old(self)@
            }),
    {
        let ghost before = self@;
        let ghost all = views(addresses@);
        if self.wallet_signing_key.is_some() {
            let mut i: usize = 0;
            assert(registered(before.derived_addresses, all.take(0)) == before.derived_addresses);
            while i < addresses.len()
                invariant
                    self.wf(),
                    i <= addresses@.len() <= u32::MAX,
                    all == views(addresses@),
                    self@ == (EngineV {
                        derived_addresses: registered(
                            before.derived_addresses,
                            all.take(i as int),
                        ),
                        ..before
                    }),
                decreases addresses@.len() - i,
            {
                proof {
                    assert(all.take(i + 1).drop_last() =~= all.take(i as int));
                    assert(all.take(i + 1).last() == addresses@[i as int]@);
                }
                self.derived_address_map.insert(addresses[i].clone(), i as u32);
                i = i + 1;
            }
            assert(all.take(i as int) =~= all);
        }
    }

    /// The derived addresses in the order of their indexes.
    pub fn list_derived_addresses(&self) -> (entries: Vec<(u32, String)>)
        requires
            self.wf(),
        ensures
            forall|i: int, j: int|
                0 <= i < j < entries@.len() ==> (#[trigger] entries@[i]).0 <= (
                #[trigger] entries@[j]).0,
            entries@.map_values(|e: (u32, String)| e.1@).no_duplicates(),
            entries@.map_values(|e: (u32, String)| e.1@).to_set() == self@.derived_addresses.dom(),
            forall|i: int|
                0 <= i < entries@.len() ==> (#[trigger] entries@[i]).0
                    == self@.derived_addresses[entries@[i].1@],
    {
        let ghost keys = self.derived_address_map.keys();
        let ghost held = self@.derived_addresses;
        let n: usize = self.derived_address_map.len();
        let mut entries: Vec<(u32, String)> = Vec::new();
        let mut i: usize = 0;
        proof {
            self.derived_address_map.lemma_keys();
            assert(keys.take(0).to_multiset() =~= entries@.map_values(
                |e: (u32, String)| e.1@,
            ).to_multiset()) by {
                assert(keys.take(0) =~= entries@.map_values(|e: (u32, String)| e.1@));
            }
        }
        while i < n
            invariant
                self.wf(),
                keys == self.derived_address_map.keys(),
                held == self@.derived_addresses,
                n == keys.len(),
                i <= n,
                forall|x: int, y: int|
                    0 <= x < y < entries@.len() ==> (#[trigger] entries@[x]).0 <= (
                    #[trigger] entries@[y]).0,
                forall|x: int|
                    0 <= x < entries@.len() ==> (#[trigger] entries@[x]).0 == held[entries@[x].1@],
                entries@.map_values(|e: (u32, String)| e.1@).to_multiset() == keys.take(
                    i as int,
                ).to_multiset(),
            decreases n - i,
        {
            let key = self.derived_address_map.key_at(i).clone();
            let index: u32 = *self.derived_address_map.value_at(i);
            let mut place: usize = 0;
            while place < entries.len() && entries[place].0 <= index
                invariant
                    place <= entries@.len(),
                    forall|x: int| 0 <= x < place ==> (#[trigger] entries@[x]).0 <= index,
                decreases entries@.len() - place,
            {
                place = place + 1;
            }
            let ghost before = entries@;
            let ghost names = before.map_values(|e: (u32, String)| e.1@);
            entries.insert(place, (index, key));
            proof {
                let after = entries@.map_values(|e: (u32, String)| e.1@);
                assert(entries@ == before.insert(place as int, (index, key)));
                assert(after =~= names.insert(place as int, key@));
                after.to_multiset_ensures();
                assert(after[place as int] == key@);
                assert(after.contains(key@));
                assert(after.remove(place as int) =~= names);
                assert(after.to_multiset() =~= names.to_multiset().insert(key@));
                keys.take(i as int).to_multiset_ensures();
                assert(keys.take(i + 1) =~= keys.take(i as int).push(keys[i as int]));
            }
            i = i + 1;
        }
        proof {
            self.derived_address_map.lemma_keys();
            assert(keys.take(i as int) =~= keys);
            let names = entries@.map_values(|e: (u32, String)| e.1@);
            lemma_same_members(names, keys);
            assert(names.to_set() =~= held.dom());
        }
        entries
    }

    /// The key that controls an address: a derived key for a derived address,
    /// the wallet's own for any other.
    pub fn get_signing_key_for_address(&self, address: &str) -> (key: Option<[u8; 32]>)
        requires
            self.wf(),
        ensures
            key_view(key) == self@.key_for(address@),
    {
        let name = String::from_str(address);
        match self.derived_address_map.get(&name) {
            Some(index) => self.derive_child_key_at(*index),
            None => self.get_wallet_signing_key(),
        }
    }

    /// Whether an address is a derived one.
    pub fn is_derived_address(&self, address: &str) -> (found: bool)
        requires
            self.wf(),
        ensures
            found == self@.derived_addresses.contains_key(address@),
    {
        let name = String::from_str(address);
        self.derived_address_map.contains_key(&name)
    }

    /// Signs all inputs of a transaction with the key that controls an address.
    pub fn sign_transaction_for_address(
        &self,
        tx: &mut Transaction,
        from_address: &str,
        tx_hash: &Hash256,
    ) -> (done: Result<(), String>)
        requires
            self.wf(),
        ensures
            told(done) == (match self@.key_for(from_address@) {
                Some(_) => Ok(()),
                None => Err("No signing key for address "@ + from_address@),
            }),
            final(tx)@ == (match self@.key_for(from_address@) {
                Some(key) => signed(old(tx)@, self@.chain_id, tx_hash@, key),
                None => old(tx)@,
            }),
            done is Ok ==> signs_all(final(tx)@, self@.chain_id, tx_hash@),
    {
        match self.get_signing_key_for_address(from_address) {
            Some(key) => {
                self.sign_inputs(tx, tx_hash, &key);
                Ok(())
            },
            None => Err(join2("No signing key for address ", from_address)),
        }
    }

    /// The secret and public key for a memo to oneself.
    pub fn memo_keys_for_self(&self) -> (keys: Result<([u8; 32], [u8; 32]), String>)
        ensures
            match keys {
                Ok((secret, public)) => self@.spending_key() == Some(secret@) && public@
                    == ed25519_public_key(secret@),
                Err(text) => self@.spending_key() is None && text@ == "No signing key available"@,
            },
    {
        match self.get_wallet_signing_key() {
            Some(secret) => {
                let public = public_key_of(&secret);
                Ok((secret, public))
            },
            None => Err(String::from_str("No signing key available")),
        }
    }

    /// The secret and public key for a memo to somebody else. `known` is their
    /// public key, where the chain shows it.
    pub fn memo_keys_for_address(&self, recipient_address: &str, known: Option<[u8; 32]>) -> (keys:
        Result<([u8; 32], [u8; 32]), String>)
        ensures
            match keys {
                Ok((secret, public)) => self@.spending_key() == Some(secret@) && known == Some(
                    public,
                ),
                Err(text) => text@ == (if self@.spending_key() is None {
                    "No signing key available"@
                } else {
                    "Cannot encrypt memo: no known public key for address "@ + recipient_address@
                        + ". The recipient must have at least one on-chain transaction."@
                }) && (self@.spending_key() is None || known is None),
            },
    {
        match self.get_wallet_signing_key() {
            Some(secret) => match known {
                Some(public) => Ok((secret, public)),
                None => Err(
                    crate::text::join3(
                        "Cannot encrypt memo: no known public key for address ",
                        recipient_address,
                        ". The recipient must have at least one on-chain transaction.",
                    ),
                ),
            },
            None => Err(String::from_str("No signing key available")),
        }
    }

    /// Votes for a transaction, as a validator of a slot. `tx_bytes` is the
    /// transaction in its serialised form, where it has one.
    pub fn generate_finality_vote(
        &self,
        txid: Hash256,
        tx_bytes: Option<&[u8]>,
        slot_index: u64,
        snapshot: &AVSSnapshot,
    ) -> (vote: Option<FinalityVote>)
        ensures
            crate::types::option_view(vote) == self@.finality_vote_for(
                txid@,
                match tx_bytes {
                    Some(bytes) => Some(bytes@),
                    None => None,
                },
                slot_index,
                snapshot@,
            ),
            self@.vouches_for(crate::types::option_view(vote)),
    {
        match &self.identity {
            None => None,
            Some(identity) => {
                let voter_mn_id = identity.address.clone();
                match snapshot.get_validator_weight(voter_mn_id.as_str()) {
                    None => None,
                    Some(voter_weight) => match tx_bytes {
                        None => None,
                        Some(bytes) => {
                            let commitment = sha256_digest(bytes);
                            Some(
                                identity.sign_finality_vote(
                                    1,
                                    txid,
                                    commitment,
                                    slot_index,
                                    VoteDecision::Accept,
                                    voter_mn_id,
                                    voter_weight,
                                ),
                            )
                        },
                    },
                }
            },
        }
    }

    /// Votes on a transaction, as an active masternode.
    pub fn sign_timevote(
        &self,
        txid: Hash256,
        tx_hash_commitment: Hash256,
        slot_index: u64,
        decision: VoteDecision,
    ) -> (vote: Option<TimeVote>)
        ensures
            crate::types::option_view(vote) == self@.timevote_for(
                txid@,
                tx_hash_commitment@,
                slot_index,
                decision,
            ),
            self@.vouches_for(crate::types::option_view(vote)),
    {
        match &self.identity {
            None => None,
            Some(identity) => {
                let voter_mn_id = identity.address.clone();
                let active = self.timevote.masternode_registry.list_active();
                match find_node(&active, voter_mn_id.as_str()) {
                    None => None,
                    Some(info) => {
                        let voter_weight: u64 = self.timevote.masternode_registry.weights.of(
                            info.masternode.tier,
                        );
                        Some(
                            identity.sign_finality_vote(
                                1,
                                txid,
                                tx_hash_commitment,
                                slot_index,
                                decision,
                                voter_mn_id,
                                voter_weight,
                            ),
                        )
                    },
                }
            },
        }
    }
}

/// A vote of a node on chain 1.
pub open spec fn signed_vote(
    identity: IdentityV,
    txid: Seq<u8>,
    tx_hash_commitment: Seq<u8>,
    slot_index: u64,
    decision: VoteDecision,
    weight: u64,
) -> TimeVoteV {
    TimeVoteV {
        chain_id: 1,
        txid,
        tx_hash_commitment,
        slot_index,
        decision,
        voter_mn_id: identity.address,
        voter_weight: weight,
        signature: ed25519_signature(
            identity.signing_key,
            crate::identity::vote_message(
                1,
                txid,
                tx_hash_commitment,
                slot_index,
                decision,
                identity.address,
                weight,
            ),
        ),
    }
}

/// Addresses registered under their places in a list.
pub open spec fn registered(held: Map<Seq<char>, u32>, addresses: Seq<Seq<char>>) -> Map<
    Seq<char>,
    u32,
>
    decreases addresses.len(),
{
    if addresses.len() == 0 {
        held
    } else {
        registered(held, addresses.drop_last()).insert(
            addresses.last(),
            (addresses.len() - 1) as u32,
        )
    }
}

proof fn lemma_same_members(a: Seq<Seq<char>>, b: Seq<Seq<char>>)
    requires
        a.to_multiset() == b.to_multiset(),
        b.no_duplicates(),
    ensures
        a.no_duplicates(),
        a.to_set() == b.to_set(),
{
    a.to_multiset_ensures();
    b.to_multiset_ensures();
    assert forall|x: Seq<char>| a.to_set().contains(x) <==> b.to_set().contains(x) by {
        assert(a.contains(x) <==> a.to_multiset().count(x) > 0);
        assert(b.contains(x) <==> b.to_multiset().count(x) > 0);
    }
    assert(a.to_set() =~= b.to_set());
    b.lemma_multiset_has_no_duplicates();
    a.lemma_multiset_has_no_duplicates_conv();
}

/// Attaching a memo or changing signatures does not change what is signed: a
/// transaction and its unsigned form have the same messages.
pub proof fn memo_is_not_signed(
    tx: TransactionV,
    memo: Option<Seq<u8>>,
    chain_id: u32,
    tx_hash: Seq<u8>,
    key: Seq<u8>,
)
    ensures
        unsigned(TransactionV { encrypted_memo: memo, ..tx }) == unsigned(tx),
        unsigned(signed(tx, chain_id, tx_hash, key)) == unsigned(tx),
{
    let with_memo = TransactionV { encrypted_memo: memo, ..tx };
    assert(unsigned(with_memo).inputs =~= unsigned(tx).inputs);
    assert(unsigned(with_memo) =~= unsigned(tx));
    assert(unsigned(signed(tx, chain_id, tx_hash, key)).inputs =~= unsigned(tx).inputs);
    assert(unsigned(signed(tx, chain_id, tx_hash, key)) =~= unsigned(tx));
}

/// What goes into the message of an input is read in one way only: the same
/// content means the same transaction hash, the same input, the same hash of the
/// outputs and, from version 2 on, the same chain. So a signature serves neither
/// another input nor other outputs, as long as no two contents share a hash.
pub proof fn signed_content_is_unambiguous(
    version: u32,
    chain_a: u32,
    chain_b: u32,
    hash_a: Seq<u8>,
    hash_b: Seq<u8>,
    i: u32,
    j: u32,
    outputs_a: Seq<TxOutputV>,
    outputs_b: Seq<TxOutputV>,
)
    requires
        hash_a.len() == hash_b.len(),
        signed_content(version, chain_a, hash_a, i, outputs_a) == signed_content(
            version,
            chain_b,
            hash_b,
            j,
            outputs_b,
        ),
    ensures
        version >= 2 ==> chain_a == chain_b,
        hash_a == hash_b,
        i == j,
        sha256(outputs_encoding(outputs_a)) == sha256(outputs_encoding(outputs_b)),
{
    let a = signed_content(version, chain_a, hash_a, i, outputs_a);
    let b = signed_content(version, chain_b, hash_b, j, outputs_b);
    vstd::bytes::lemma_auto_spec_u32_to_from_le_bytes();
    let start: int = if version >= 2 {
        4
    } else {
        0
    };
    let n = start + hash_a.len();
    if version >= 2 {
        assert(a.subrange(0, 4) =~= spec_u32_to_le_bytes(chain_a));
        assert(b.subrange(0, 4) =~= spec_u32_to_le_bytes(chain_b));
    }
    assert(a.subrange(start, n) =~= hash_a);
    assert(b.subrange(start, n) =~= hash_b);
    assert(a.subrange(n, n + 4) =~= spec_u32_to_le_bytes(i));
    assert(b.subrange(n, n + 4) =~= spec_u32_to_le_bytes(j));
    assert(a.skip(n + 4) =~= sha256(outputs_encoding(outputs_a)));
    assert(b.skip(n + 4) =~= sha256(outputs_encoding(outputs_b)));
}

/// Which key signs. The wallet's, or the node's where there is none; for an address that
/// was derived from the wallet, the derived key of its number, and none where there is no
/// wallet.
pub proof fn keys_go_with_addresses(held: EngineV, address: Seq<char>)
    ensures
        held.wallet_signing_key is Some ==> held.spending_key() == held.wallet_signing_key,
        held.wallet_signing_key is None ==> (held.identity matches Some(own)
            ==> held.spending_key() == Some(own.signing_key)),
        held.wallet_signing_key is None && held.identity is None ==> held.spending_key() is None,
        !held.derived_addresses.contains_key(address) ==> held.key_for(address)
            == held.spending_key(),
        held.derived_addresses.contains_key(address) ==> held.key_for(address) == held.child_key(
            held.derived_addresses[address],
        ),
        held.wallet_signing_key is None ==> forall|index: u32| #[trigger]
            held.child_key(index) is None,
{
}

/// Signing puts the public key and a signature into every input, the signature being for
/// that input, and changes nothing else.
pub proof fn signing_fills_the_inputs(
    tx: TransactionV,
    chain_id: u32,
    tx_hash: Seq<u8>,
    key: Seq<u8>,
    i: int,
)
    requires
        0 <= i < tx.inputs.len() <= u32::MAX,
    ensures
        ({
            let after = signed(tx, chain_id, tx_hash, key);
            &&& after.inputs.len() == tx.inputs.len()
            &&& after.inputs[i].previous_output == tx.inputs[i].previous_output
            &&& after.inputs[i].script_sig == ed25519_public_key(key) + ed25519_signature(
                key,
                sha256(signed_content(tx.version, chain_id, tx_hash, i as u32, tx.outputs)),
            )
            &&& after.outputs == tx.outputs
            &&& after.version == tx.version
            &&& after.lock_time == tx.lock_time
            &&& after.encrypted_memo == tx.encrypted_memo
        }),
{
}

/// What is signed leaves out every signature and the memo, and nothing else.
pub proof fn unsigned_keeps_the_rest(tx: TransactionV, i: int)
    ensures
        unsigned(tx).encrypted_memo is None,
        unsigned(tx).outputs == tx.outputs,
        unsigned(tx).version == tx.version,
        unsigned(tx).inputs.len() == tx.inputs.len(),
        0 <= i < tx.inputs.len() ==> unsigned(tx).inputs[i].script_sig.len() == 0
            && unsigned(tx).inputs[i].previous_output == tx.inputs[i].previous_output
            && unsigned(tx).inputs[i].sequence == tx.inputs[i].sequence,
{
}

/// A vote names what it is on, the decision, the voter and the weight, and bears the
/// voter's signature of just that.
pub proof fn votes_say_what_is_signed(
    identity: IdentityV,
    txid: Seq<u8>,
    commitment: Seq<u8>,
    slot_index: u64,
    decision: VoteDecision,
    weight: u64,
)
    ensures
        ({
            let vote = signed_vote(identity, txid, commitment, slot_index, decision, weight);
            &&& vote.chain_id == 1
            &&& vote.txid == txid
            &&& vote.tx_hash_commitment == commitment
            &&& vote.slot_index == slot_index
            &&& vote.decision == decision
            &&& vote.voter_mn_id == identity.address
            &&& vote.voter_weight == weight
            &&& vote.signature == ed25519_signature(identity.signing_key, vote.message())
        }),
{
}

/// Addresses are registered under their places in the list.
pub proof fn addresses_are_numbered_in_order(
    held: Map<Seq<char>, u32>,
    addresses: Seq<Seq<char>>,
    address: Seq<char>,
)
    requires
        addresses.len() <= u32::MAX,
    ensures
        registered(held, seq![]) == held,
        registered(held, addresses.push(address)) == registered(held, addresses).insert(
            address,
            addresses.len() as u32,
        ),
{
    assert(addresses.push(address).drop_last() =~= addresses);
}

/// A node votes on a transaction exactly when it is an active masternode, with the
/// decision it was asked for and the weight of its class. What it signs counts where its
/// key is on record: another node takes the vote in, if it is the first, and a vote to
/// accept adds its weight.
pub proof fn own_votes_count_elsewhere(
    held: EngineV,
    other: crate::timevote::ConsensusV,
    info: crate::types::MasternodeInfoV,
    txid: Seq<u8>,
    commitment: Seq<u8>,
    slot_index: u64,
    decision: VoteDecision,
)
    requires
        held.identity matches Some(own) && node_at(
            held.timevote.registry.active(),
            own.address,
        ) == Some(info) && node_at(other.registry.active(), own.address) == Some(info)
            && info.masternode.public_key == ed25519_public_key(own.signing_key),
        ({
            let vote = held.timevote_for(txid, commitment, slot_index, decision);
            &&& held.vouches_for(vote)
            &&& vote matches Some(cast) ==> ordinary(cast.signature)
        }),
    ensures
        held.timevote_for(txid, commitment, slot_index, decision) matches Some(vote) && {
            &&& vote.decision == decision
            &&& vote.txid == txid
            &&& vote.voter_weight == held.timevote.registry.weights.weight(info.masternode.tier)
            &&& !crate::timevote::has_vote_of(
                crate::timevote::list_at(other.timeproof_votes, txid),
                vote.voter_mn_id,
            ) && crate::timevote::count_at(other.accumulated_weight, txid) + vote.voter_weight
                <= u64::MAX ==> other.vote_answer(vote) == Ok::<u64, Seq<char>>(
                if decision == VoteDecision::Accept {
                    (crate::timevote::count_at(other.accumulated_weight, txid)
                        + vote.voter_weight) as u64
                } else {
                    crate::timevote::count_at(other.accumulated_weight, txid)
                },
            )
        },
{
}

/// Nobody votes who is no masternode, or no validator of the slot. A validator that knows
/// a transaction votes to accept it, for its contents and with the weight of the slot.
pub proof fn only_validators_vote(
    held: EngineV,
    txid: Seq<u8>,
    bytes: Seq<u8>,
    slot_index: u64,
    decision: VoteDecision,
    snapshot: crate::types::AVSSnapshotV,
)
    ensures
        held.identity is None ==> held.finality_vote_for(
            txid,
            Some(bytes),
            slot_index,
            snapshot,
        ) is None && held.timevote_for(txid, bytes, slot_index, decision) is None,
        held.finality_vote_for(txid, None, slot_index, snapshot) is None,
        held.identity matches Some(own) ==> {
            &&& weight_at(snapshot.validators, own.address) is None ==> held.finality_vote_for(
                txid,
                Some(bytes),
                slot_index,
                snapshot,
            ) is None
            &&& node_at(held.timevote.registry.active(), own.address) is None ==> held.timevote_for(
                txid,
                bytes,
                slot_index,
                decision,
            ) is None
            &&& weight_at(snapshot.validators, own.address) matches Some(weight) ==> (
            held.finality_vote_for(txid, Some(bytes), slot_index, snapshot) matches Some(vote)
                && vote.decision == VoteDecision::Accept && vote.txid == txid
                && vote.tx_hash_commitment == sha256(bytes) && vote.slot_index == slot_index
                && vote.voter_weight == weight && vote.voter_mn_id == own.address)
        },
{
}

} // verus!
