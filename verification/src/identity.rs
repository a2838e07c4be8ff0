//! What a node signs, and how its signatures are checked.

use crate::crypto::{
    ed25519_accepts, ed25519_public_key, ed25519_signature, ordinary, sign_message, verify_strict,
};
use crate::sums::views;
use crate::text::{copy_bytes, told};
use crate::types::{
    FallbackDecision, FallbackVote, FallbackVoteDecision, FinalityProposal, FinalityVote, Hash256,
    LivenessAlert, PollResult, TimeVote, VoteDecision,
};
use vstd::bytes::{spec_u32_to_le_bytes, spec_u64_to_le_bytes};
use vstd::prelude::*;
use vstd::utf8::encode_utf8;

verus! {

/// The byte that stands for a decision.
pub open spec fn decision_byte(decision: VoteDecision) -> u8 {
    match decision {
        VoteDecision::Accept => 0x01,
        VoteDecision::Reject => 0x00,
    }
}

/// The bytes that a vote is signed over. The decision is among them, so that one
/// signature cannot serve both ways.
pub open spec fn vote_message(
    chain_id: u32,
    txid: Seq<u8>,
    tx_hash_commitment: Seq<u8>,
    slot_index: u64,
    decision: VoteDecision,
    voter_mn_id: Seq<char>,
    voter_weight: u64,
) -> Seq<u8> {
    spec_u32_to_le_bytes(chain_id) + txid + tx_hash_commitment + spec_u64_to_le_bytes(slot_index)
        + seq![decision_byte(decision)] + encode_utf8(voter_mn_id) + spec_u64_to_le_bytes(
        voter_weight,
    )
}

fn vote_bytes(
    chain_id: u32,
    txid: &Hash256,
    tx_hash_commitment: &Hash256,
    slot_index: u64,
    decision: VoteDecision,
    voter_mn_id: &str,
    voter_weight: u64,
) -> (message: Vec<u8>)
    ensures
        message@ == vote_message(
            chain_id,
            txid@,
            tx_hash_commitment@,
            slot_index,
            decision,
            voter_mn_id@,
            voter_weight,
        ),
{
    let mut message = vstd::bytes::u32_to_le_bytes(chain_id);
    let mut part = copy_bytes(txid);
    message.append(&mut part);
    part = copy_bytes(tx_hash_commitment);
    message.append(&mut part);
    part = vstd::bytes::u64_to_le_bytes(slot_index);
    message.append(&mut part);
    message.push(
        match decision {
            VoteDecision::Accept => 0x01,
            VoteDecision::Reject => 0x00,
        },
    );
    part = copy_bytes(voter_mn_id.as_bytes());
    message.append(&mut part);
    part = vstd::bytes::u64_to_le_bytes(voter_weight);
    message.append(&mut part);
    assert(message@ =~= vote_message(
        chain_id,
        txid@,
        tx_hash_commitment@,
        slot_index,
        decision,
        voter_mn_id@,
        voter_weight,
    ));
    message
}

/// The first 64 bytes of a string of at least 64.
pub fn signature_bytes(bytes: &Vec<u8>, start: usize) -> (signature: [u8; 64])
    requires
        start + 64 <= bytes@.len(),
    ensures
        signature@ == bytes@.subrange(start as int, start + 64),
{
    let n: usize = bytes.len();
    let mut signature: [u8; 64] = [0u8;64];
    let mut i: usize = 0;
    while i < 64
        invariant
            i <= 64,
            n == bytes@.len(),
            start + 64 <= n,
            signature@.len() == 64,
            forall|j: int| 0 <= j < i ==> signature@[j] == bytes@[start + j],
        decreases 64 - i,
    {
        signature[i] = bytes[start + i];
        i = i + 1;
    }
    assert(signature@ =~= bytes@.subrange(start as int, start + 64));
    signature
}

/// The first 32 bytes of a string of at least 32.
pub fn key_bytes(bytes: &Vec<u8>) -> (key: [u8; 32])
    requires
        32 <= bytes@.len(),
    ensures
        key@ == bytes@.subrange(0, 32),
{
    let mut key: [u8; 32] = [0u8;32];
    let mut i: usize = 0;
    while i < 32
        invariant
            i <= 32,
            32 <= bytes@.len(),
            key@.len() == 32,
            forall|j: int| 0 <= j < i ==> key@[j] == bytes@[j],
        decreases 32 - i,
    {
        key[i] = bytes[i];
        i = i + 1;
    }
    assert(key@ =~= bytes@.subrange(0, 32));
    key
}

impl crate::types::TimeVoteV {
    /// The bytes that this vote is signed over.
    pub open spec fn message(self) -> Seq<u8> {
        vote_message(
            self.chain_id,
            self.txid,
            self.tx_hash_commitment,
            self.slot_index,
            self.decision,
            self.voter_mn_id,
            self.voter_weight,
        )
    }

    /// Whether this vote carries a signature of a key.
    pub open spec fn signed_by(self, key: Seq<u8>) -> bool {
        self.signature.len() == 64 && ed25519_accepts(key, self.message(), self.signature)
    }
}

impl TimeVote {
    /// Checks the signature of this vote.
    pub fn verify(&self, public_key: &[u8; 32]) -> (checked: Result<(), String>)
        ensures
            told(checked) == (if self@.signed_by(public_key@) {
                Ok(())
            } else {
                Err("Invalid vote signature"@)
            }),
    {
        if self.signature.len() == 64 {
            let message = vote_bytes(
                self.chain_id,
                &self.txid,
                &self.tx_hash_commitment,
                self.slot_index,
                self.decision,
                self.voter_mn_id.as_str(),
                self.voter_weight,
            );
            let signature = signature_bytes(&self.signature, 0);
            assert(signature@ =~= self.signature@);
            if verify_strict(public_key, &message, &signature) {
                return Ok(());
            }
        }
        Err(String::from_str("Invalid vote signature"))
    }
}

/// A node's address and its secret key.
pub struct NodeIdentity {
    pub address: String,
    pub signing_key: [u8; 32],
}

impl NodeIdentity {
    fn sign(&self, message: &[u8]) -> (signature: Vec<u8>)
        ensures
            signature@ == ed25519_signature(self.signing_key@, message@),
            ordinary(signature@) ==> ed25519_accepts(
                ed25519_public_key(self.signing_key@),
                message@,
                signature@,
            ),
    {
        let signature = sign_message(&self.signing_key, message);
        copy_bytes(&signature)
    }

    /// Signs a vote on a transaction. The vote passes the check under the node's
    /// public key.
    pub fn sign_finality_vote(
        &self,
        chain_id: u32,
        txid: Hash256,
        tx_hash_commitment: Hash256,
        slot_index: u64,
        decision: VoteDecision,
        voter_mn_id: String,
        voter_weight: u64,
    ) -> (vote: FinalityVote)
        ensures
            vote@ == (crate::types::TimeVoteV {
                chain_id,
                txid: txid@,
                tx_hash_commitment: tx_hash_commitment@,
                slot_index,
                decision,
                voter_mn_id: voter_mn_id@,
                voter_weight,
                signature: ed25519_signature(
                    self.signing_key@,
                    vote_message(
                        chain_id,
                        txid@,
                        tx_hash_commitment@,
                        slot_index,
                        decision,
                        voter_mn_id@,
                        voter_weight,
                    ),
                ),
            }),
            ordinary(vote@.signature) ==> vote@.signed_by(ed25519_public_key(self.signing_key@)),
    {
        let message = vote_bytes(
            chain_id,
            &txid,
            &tx_hash_commitment,
            slot_index,
            decision,
            voter_mn_id.as_str(),
            voter_weight,
        );
        let signature = self.sign(&message);
        TimeVote {
            chain_id,
            txid,
            tx_hash_commitment,
            slot_index,
            decision,
            voter_mn_id,
            voter_weight,
            signature,
        }
    }

    /// Signs a report that a transaction is stuck. `message` holds the bytes that
    /// such a report is signed over.
    pub fn sign_liveness_alert(
        &self,
        chain_id: u32,
        txid: Hash256,
        tx_hash_commitment: Hash256,
        slot_index: u64,
        poll_history: Vec<PollResult>,
        stall_duration_ms: u64,
        current_confidence: u32,
        message: &[u8],
    ) -> (alert: LivenessAlert)
        ensures
            alert@ == (crate::types::LivenessAlertV {
                chain_id,
                txid: txid@,
                tx_hash_commitment: tx_hash_commitment@,
                slot_index,
                poll_history: views(poll_history@),
                current_confidence,
                stall_duration_ms,
                reporter_mn_id: self.address@,
                reporter_signature: ed25519_signature(self.signing_key@, message@),
            }),
    {
        LivenessAlert {
            chain_id,
            txid,
            tx_hash_commitment,
            slot_index,
            poll_history,
            current_confidence,
            stall_duration_ms,
            reporter_mn_id: self.address.clone(),
            reporter_signature: self.sign(message),
        }
    }

    /// Signs a fallback proposal. `message` holds the bytes that such a proposal
    /// is signed over.
    pub fn sign_finality_proposal(
        &self,
        chain_id: u32,
        txid: Hash256,
        tx_hash_commitment: Hash256,
        slot_index: u64,
        decision: FallbackDecision,
        justification: String,
        message: &[u8],
    ) -> (proposal: FinalityProposal)
        ensures
            proposal@ == (crate::types::FinalityProposalV {
                chain_id,
                txid: txid@,
                tx_hash_commitment: tx_hash_commitment@,
                slot_index,
                decision,
                justification: justification@,
                leader_mn_id: self.address@,
                leader_signature: ed25519_signature(self.signing_key@, message@),
            }),
    {
        FinalityProposal {
            chain_id,
            txid,
            tx_hash_commitment,
            slot_index,
            decision,
            justification,
            leader_mn_id: self.address.clone(),
            leader_signature: self.sign(message),
        }
    }

    /// Signs a vote on a fallback proposal. `message` holds the bytes that such a
    /// vote is signed over.
    pub fn sign_fallback_vote(
        &self,
        chain_id: u32,
        proposal_hash: Hash256,
        vote: FallbackVoteDecision,
        voter_weight: u64,
        message: &[u8],
    ) -> (signed: FallbackVote)
        ensures
            signed@ == (crate::types::FallbackVoteV {
                chain_id,
                proposal_hash: proposal_hash@,
                vote,
                voter_mn_id: self.address@,
                voter_weight,
                voter_signature: ed25519_signature(self.signing_key@, message@),
            }),
    {
        FallbackVote {
            chain_id,
            proposal_hash,
            vote,
            voter_mn_id: self.address.clone(),
            voter_weight,
            voter_signature: self.sign(message),
        }
    }
}

/// Votes that differ only in the decision are signed over different bytes: a
/// signature to accept is none to reject.
pub proof fn decisions_are_signed_apart(accept: crate::types::TimeVoteV, reject: crate::types::TimeVoteV)
    requires
        accept.decision == VoteDecision::Accept,
        reject == (crate::types::TimeVoteV { decision: VoteDecision::Reject, ..accept }),
    ensures
        accept.message() != reject.message(),
{
    let a = accept.message();
    let head = spec_u32_to_le_bytes(accept.chain_id) + accept.txid + accept.tx_hash_commitment
        + spec_u64_to_le_bytes(accept.slot_index);
    let at = head.len() as int;
    assert(a[at] == 0x01u8);
    assert(reject.message()[at] == 0x00u8);
}

/// What a vote is signed over is read in one way only: the same bytes mean the same
/// chain, transaction, contents, slot, decision, voter and weight.
pub proof fn vote_messages_are_unambiguous(a: crate::types::TimeVoteV, b: crate::types::TimeVoteV)
    requires
        a.txid.len() == b.txid.len(),
        a.tx_hash_commitment.len() == b.tx_hash_commitment.len(),
        a.message() == b.message(),
    ensures
        a.chain_id == b.chain_id,
        a.txid == b.txid,
        a.tx_hash_commitment == b.tx_hash_commitment,
        a.slot_index == b.slot_index,
        a.decision == b.decision,
        a.voter_mn_id == b.voter_mn_id,
        a.voter_weight == b.voter_weight,
{
    vstd::bytes::lemma_auto_spec_u32_to_from_le_bytes();
    vstd::bytes::lemma_auto_spec_u64_to_from_le_bytes();
    let (x, y) = (a.message(), b.message());
    let n = a.txid.len() as int;
    let m = n + a.tx_hash_commitment.len();
    let end = x.len() as int;
    assert(x.subrange(0, 4) =~= spec_u32_to_le_bytes(a.chain_id));
    assert(y.subrange(0, 4) =~= spec_u32_to_le_bytes(b.chain_id));
    assert(x.subrange(4, 4 + n) =~= a.txid);
    assert(y.subrange(4, 4 + n) =~= b.txid);
    assert(x.subrange(4 + n, 4 + m) =~= a.tx_hash_commitment);
    assert(y.subrange(4 + n, 4 + m) =~= b.tx_hash_commitment);
    assert(x.subrange(4 + m, 12 + m) =~= spec_u64_to_le_bytes(a.slot_index));
    assert(y.subrange(4 + m, 12 + m) =~= spec_u64_to_le_bytes(b.slot_index));
    assert(x[12 + m] == decision_byte(a.decision));
    assert(y[12 + m] == decision_byte(b.decision));
    assert(x.subrange(end - 8, end) =~= spec_u64_to_le_bytes(a.voter_weight));
    assert(y.subrange(end - 8, end) =~= spec_u64_to_le_bytes(b.voter_weight));
    assert(x.subrange(13 + m, end - 8) =~= encode_utf8(a.voter_mn_id));
    assert(y.subrange(13 + m, end - 8) =~= encode_utf8(b.voter_mn_id));
    vstd::utf8::encode_utf8_decode_utf8(a.voter_mn_id);
    vstd::utf8::encode_utf8_decode_utf8(b.voter_mn_id);
}

} // verus!
