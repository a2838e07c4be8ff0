//! Votes on blocks: a voter votes once, and a block wins with more than half of
//! the weight that took part.

use crate::sums::{lists, views};
use crate::table::Table;
use crate::text::{copy_bytes, same_text};
use crate::types::Hash256;
use vstd::prelude::*;

verus! {

/// One vote for a block.
#[derive(Debug)]
pub struct Ballot {
    pub voter: String,
    pub signature: Vec<u8>,
    pub weight: u64,
}

/// What a ballot says.
#[verifier::ext_equal]
pub struct BallotV {
    pub voter: Seq<char>,
    pub signature: Seq<u8>,
    pub weight: u64,
}

impl View for Ballot {
    type V = BallotV;

    open spec fn view(&self) -> BallotV {
        BallotV { voter: self.voter@, signature: self.signature@, weight: self.weight }
    }
}

impl Clone for Ballot {
    fn clone(&self) -> (copy: Self)
        ensures
            copy@ == self@,
    {
        Ballot {
            voter: self.voter.clone(),
            signature: copy_bytes(&self.signature),
            weight: self.weight,
        }
    }
}

/// The weight of a list of ballots.
pub open spec fn weight_of(list: Seq<BallotV>) -> nat
    decreases list.len(),
{
    if list.len() == 0 {
        0
    } else {
        weight_of(list.drop_last()) + list.last().weight as nat
    }
}

/// Whether a voter stands in a list of ballots.
pub open spec fn voted_in(list: Seq<BallotV>, voter: Seq<char>) -> bool {
    exists|i: int| 0 <= i < list.len() && (#[trigger] list[i]).voter == voter
}

/// The voters of a list of ballots, in order.
pub open spec fn voters_of(list: Seq<BallotV>) -> Seq<Seq<char>> {
    list.map_values(|b: BallotV| b.voter)
}

/// A list of ballots less those of one voter.
pub open spec fn without(list: Seq<BallotV>, voter: Seq<char>) -> Seq<BallotV>
    decreases list.len(),
{
    if list.len() == 0 {
        seq![]
    } else if list.last().voter == voter {
        without(list.drop_last(), voter)
    } else {
        without(list.drop_last(), voter).push(list.last())
    }
}

/// What a ballot box holds: the ballots for each block, and the blocks whose
/// majority was announced.
#[verifier::ext_equal]
pub struct BoxV {
    pub votes: Map<Seq<u8>, Seq<BallotV>>,
    pub signaled: Set<Seq<u8>>,
}

impl BoxV {
    /// The ballots for a block.
    pub open spec fn list(self, block: Seq<u8>) -> Seq<BallotV> {
        if self.votes.contains_key(block) {
            self.votes[block]
        } else {
            seq![]
        }
    }

    /// The weight of the ballots for each block.
    pub open spec fn weights(self) -> Map<Seq<u8>, nat> {
        Map::new(
            |block: Seq<u8>| self.votes.contains_key(block),
            |block: Seq<u8>| weight_of(self.votes[block]),
        )
    }

    /// The weight that took part, for whichever block.
    pub open spec fn total(self) -> nat {
        crate::sums::total(self.weights())
    }

    /// Whether a voter has a ballot for some block.
    pub open spec fn has_voted(self, voter: Seq<char>) -> bool {
        exists|block: Seq<u8>|
            self.votes.contains_key(block) && #[trigger] voted_in(self.votes[block], voter)
    }

    /// No voter has two ballots.
    pub open spec fn one_vote_each(self) -> bool {
        &&& forall|block: Seq<u8>| #[trigger]
            self.votes.contains_key(block) ==> voters_of(self.votes[block]).no_duplicates()
        &&& forall|a: Seq<u8>, b: Seq<u8>, voter: Seq<char>|
            self.votes.contains_key(a) && self.votes.contains_key(b) && #[trigger] voted_in(
                self.votes[a],
                voter,
            ) && #[trigger] voted_in(self.votes[b], voter) ==> a == b
    }

    /// Whether a block has at least two voters and more than half of the weight.
    pub open spec fn majority(self, block: Seq<u8>) -> bool {
        &&& self.votes.contains_key(block)
        &&& self.votes[block].len() >= 2
        &&& self.total() > 0
        &&& weight_of(self.votes[block]) > self.total() / 2
    }

    /// Whether the weights can be added up that asking after a block takes: none
    /// where its majority was announced, and all where it has two voters.
    pub open spec fn countable(self, block: Seq<u8>) -> bool {
        self.signaled.contains(block) || {
            &&& weight_of(self.list(block)) <= u64::MAX
            &&& self.list(block).len() >= 2 ==> self.total() <= u64::MAX
        }
    }

    /// Whether asking after a block announces its majority.
    pub open spec fn announces(self, block: Seq<u8>) -> bool {
        !self.signaled.contains(block) && self.majority(block)
    }

    /// After a vote: the first vote of a voter counts, and no later one.
    pub open spec fn with_vote(self, block: Seq<u8>, ballot: BallotV) -> BoxV {
        if self.has_voted(ballot.voter) {
            self
        } else {
            BoxV { votes: self.votes.insert(block, self.list(block).push(ballot)), ..self }
        }
    }

    /// After a check for a majority.
    pub open spec fn checked(self, block: Seq<u8>) -> BoxV {
        if self.announces(block) {
            BoxV { signaled: self.signaled.insert(block), ..self }
        } else {
            self
        }
    }

    /// After a voter's ballots were taken out everywhere.
    pub open spec fn without_voter(self, voter: Seq<char>) -> BoxV {
        BoxV {
            votes: Map::new(
                |block: Seq<u8>| self.votes.contains_key(block),
                |block: Seq<u8>| without(self.votes[block], voter),
            ),
            ..self
        }
    }

    /// After a block was forgotten.
    pub open spec fn without_block(self, block: Seq<u8>) -> BoxV {
        BoxV { votes: self.votes.remove(block), signaled: self.signaled.remove(block) }
    }

    /// Nothing at all.
    pub open spec fn nothing() -> BoxV {
        BoxV { votes: Map::empty(), signaled: Set::empty() }
    }
}

fn stands_in(list: &Vec<Ballot>, voter: &str) -> (found: bool)
    ensures
        found == voted_in(views(list@), voter@),
{
    let mut i: usize = 0;
    while i < list.len()
        invariant
            i <= list@.len(),
            forall|j: int| 0 <= j < i ==> (#[trigger] views(list@)[j]).voter != voter@,
        decreases list@.len() - i,
    {
        assert(views(list@)[i as int] == list@[i as int]@);
        if same_text(list[i].voter.as_str(), voter) {
            return true;
        }
        i = i + 1;
    }
    false
}

proof fn lemma_weight_prefix(list: Seq<BallotV>, i: int)
    requires
        0 <= i <= list.len(),
    ensures
        weight_of(list.take(i)) <= weight_of(list),
        i < list.len() ==> weight_of(list.take(i + 1)) == weight_of(list.take(i)) + list[i].weight,
    decreases list.len() - i,
{
    if i == list.len() {
        assert(list.take(i) =~= list);
    } else {
        assert(list.take(i + 1).drop_last() =~= list.take(i));
        lemma_weight_prefix(list, i + 1);
    }
}

fn weigh(list: &Vec<Ballot>) -> (weight: u64)
    requires
        weight_of(views(list@)) <= u64::MAX,
    ensures
        weight == weight_of(views(list@)),
{
    let ghost seen = views(list@);
    let mut weight: u64 = 0;
    let mut i: usize = 0;
    while i < list.len()
        invariant
            i <= list@.len(),
            seen == views(list@),
            weight == weight_of(seen.take(i as int)),
            weight_of(seen) <= u64::MAX,
        decreases list@.len() - i,
    {
        proof {
            lemma_weight_prefix(seen, i as int);
            lemma_weight_prefix(seen, i + 1);
            assert(seen[i as int] == list@[i as int]@);
        }
        weight = weight + list[i].weight;
        i = i + 1;
    }
    assert(seen.take(i as int) =~= seen);
    weight
}

fn names(list: &Vec<Ballot>) -> (voters: Vec<String>)
    ensures
        views(voters@) == voters_of(views(list@)),
{
    let mut voters: Vec<String> = Vec::new();
    let mut i: usize = 0;
    while i < list.len()
        invariant
            i <= list@.len(),
            voters@.len() == i,
            forall|j: int| 0 <= j < i ==> (#[trigger] voters@[j])@ == list@[j].voter@,
        decreases list@.len() - i,
    {
        voters.push(list[i].voter.clone());
        i = i + 1;
    }
    assert(views(voters@) =~= voters_of(views(list@)));
    voters
}

/// The ballots of a voting round, and the blocks whose majority was announced.
pub struct BallotBox {
    votes: Table<Hash256, Vec<Ballot>>,
    signaled: Table<Hash256, ()>,
}

impl View for BallotBox {
    type V = BoxV;

    closed spec fn view(&self) -> BoxV {
        BoxV { votes: lists(self.votes@), signaled: self.signaled@.dom() }
    }
}

impl BallotBox {
    /// No voter has two ballots.
    pub closed spec fn wf(&self) -> bool {
        &&& self.votes.wf()
        &&& self.signaled.wf()
        &&& self@.one_vote_each()
        &&& self@.votes.dom().finite()
    }

    /// No voter of a well-formed box has two ballots.
    pub proof fn lemma_wf(&self)
        requires
            self.wf(),
        ensures
            self@.one_vote_each(),
            self@.votes.dom().finite(),
    {
    }

    /// An empty box.
    pub fn new() -> (made: Self)
        ensures
            made.wf(),
            made@ == BoxV::nothing(),
    {
        let made = BallotBox { votes: Table::new(), signaled: Table::new() };
        assert(made@ =~= BoxV::nothing());
        made
    }

    fn has_voted(&self, voter: &str) -> (found: bool)
        requires
            self.wf(),
        ensures
            found == self@.has_voted(voter@),
    {
        let n: usize = self.votes.len();
        let mut i: usize = 0;
        proof {
            self.votes.lemma_keys();
        }
        while i < n
            invariant
                self.wf(),
                n == self.votes.keys().len(),
                i <= n,
                forall|j: int|
                    0 <= j < i ==> !voted_in(
                        #[trigger] self@.votes[self.votes.keys()[j]],
                        voter@,
                    ),
            decreases n - i,
        {
            let list = self.votes.value_at(i);
            assert(self@.votes[self.votes.keys()[i as int]] == views(list@));
            if stands_in(list, voter) {
                assert(self@.votes.contains_key(self.votes.keys()[i as int]));
                return true;
            }
            i = i + 1;
        }
        proof {
            self.votes.lemma_keys();
            assert forall|block: Seq<u8>| self@.votes.contains_key(block) implies !#[trigger] voted_in(
                self@.votes[block],
                voter@,
            ) by {
                assert(self.votes.keys().contains(block));
                let j = choose|j: int|
                    0 <= j < self.votes.keys().len() && self.votes.keys()[j] == block;
                assert(!voted_in(self@.votes[self.votes.keys()[j]], voter@));
            }
        }
        false
    }

    /// Casts a vote. A voter votes for one block only, and the first vote wins.
    pub fn add_vote(&mut self, block_hash: Hash256, voter_id: String, signature: Vec<u8>, weight: u64)
        requires
            old(self).wf(),
        ensures
            final(self).wf(),
            final(self)@ == old(self)@.with_vote(
                block_hash@,
                (BallotV { voter: voter_id@, signature: signature@, weight }),
            ),
    {
        let ghost before = *self;
        if self.has_voted(voter_id.as_str()) {
            return;
        }
        let mut list = match self.votes.remove(&block_hash) {
            Some(list) => list,
            None => Vec::new(),
        };
        let ghost earlier = views(list@);
        assert(earlier =~= before@.list(block_hash@));
        let ballot = Ballot { voter: voter_id, signature, weight };
        list.push(ballot);
        assert(views(list@) =~= earlier.push(ballot@));
        self.votes.insert(block_hash, list);
        proof {
            let after = before@.with_vote(block_hash@, ballot@);
            assert(self@.votes =~= after.votes);
            lemma_vote_keeps(before@, block_hash@, ballot@);
            assert(self@ =~= after);
        }
    }

    /// Whether a block has the majority of the weight that took part, of at
    /// least two voters. Says so once for a block.
    pub fn check_consensus(&mut self, block_hash: Hash256, _sample_size: usize) -> (reached: bool)
        requires
            old(self).wf(),
            old(self)@.countable(block_hash@),
        ensures
            final(self).wf(),
            reached == old(self)@.announces(block_hash@),
            final(self)@ == old(self)@.checked(block_hash@),
    {
        if self.signaled.contains_key(&block_hash) {
            return false;
        }
        let (vote_count, block_weight): (usize, u64) = match self.votes.get(&block_hash) {
            Some(list) => {
                assert(self@.votes[block_hash@] == views(list@));
                (list.len(), weigh(list))
            },
            None => {
                return false;
            },
        };
        if vote_count < 2 {
            return false;
        }
        let total_weight: u64 = self.total_weight();
        if total_weight > 0 && block_weight > total_weight / 2 {
            let ghost before = self@;
            self.signaled.insert(block_hash, ());
            assert(self@ =~= before.checked(block_hash@));
            true
        } else {
            false
        }
    }

    fn total_weight(&self) -> (weight: u64)
        requires
            self.wf(),
            self@.total() <= u64::MAX,
        ensures
            weight == self@.total(),
    {
        let ghost keys = self.votes.keys();
        let ghost weights = self@.weights();
        proof {
            self.votes.lemma_keys();
            assert(weights.dom() =~= self.votes@.dom());
            crate::sums::lemma_sum_at_total(keys, weights);
        }
        let n: usize = self.votes.len();
        let mut weight: u64 = 0;
        let mut i: usize = 0;
        while i < n
            invariant
                self.wf(),
                keys == self.votes.keys(),
                weights == self@.weights(),
                n == keys.len(),
                i <= n,
                weight == crate::sums::sum_at(keys.take(i as int), weights),
                crate::sums::sum_at(keys, weights) <= u64::MAX,
            decreases n - i,
        {
            let list = self.votes.value_at(i);
            proof {
                assert(weights[keys[i as int]] == weight_of(views(list@)));
                crate::sums::lemma_sum_at_prefix(keys, weights, i as int);
                crate::sums::lemma_sum_at_prefix(keys, weights, i + 1);
            }
            weight = weight + weigh(list);
            i = i + 1;
        }
        assert(keys.take(i as int) =~= keys);
        weight
    }

    /// The weight of the ballots for a block.
    pub fn get_weight(&self, block_hash: Hash256) -> (weight: u64)
        requires
            self.wf(),
            weight_of(self@.list(block_hash@)) <= u64::MAX,
        ensures
            weight == weight_of(self@.list(block_hash@)),
    {
        match self.votes.get(&block_hash) {
            Some(list) => {
                assert(self@.votes[block_hash@] == views(list@));
                weigh(list)
            },
            None => 0,
        }
    }

    /// Who voted for a block, in the order of the votes.
    pub fn get_voters(&self, block_hash: Hash256) -> (voters: Vec<String>)
        requires
            self.wf(),
        ensures
            views(voters@) == voters_of(self@.list(block_hash@)),
    {
        match self.votes.get(&block_hash) {
            Some(list) => {
                assert(self@.votes[block_hash@] == views(list@));
                names(list)
            },
            None => {
                let voters: Vec<String> = Vec::new();
                assert(views(voters@) =~= voters_of(self@.list(block_hash@)));
                voters
            },
        }
    }

    /// Who voted for a block, each with the signature, in the order of the votes.
    pub fn get_signatures(&self, block_hash: Hash256) -> (signatures: Vec<(String, Vec<u8>)>)
        requires
            self.wf(),
        ensures
            signatures@.len() == self@.list(block_hash@).len(),
            forall|i: int|
                0 <= i < signatures@.len() ==> (#[trigger] signatures@[i]).0@ == self@.list(
                    block_hash@,
                )[i].voter && signatures@[i].1@ == self@.list(block_hash@)[i].signature,
    {
        let mut signatures: Vec<(String, Vec<u8>)> = Vec::new();
        match self.votes.get(&block_hash) {
            Some(list) => {
                assert(self@.votes[block_hash@] == views(list@));
                let mut i: usize = 0;
                while i < list.len()
                    invariant
                        i <= list@.len(),
                        signatures@.len() == i,
                        forall|j: int|
                            0 <= j < i ==> (#[trigger] signatures@[j]).0@ == list@[j].voter@
                                && signatures@[j].1@ == list@[j].signature@,
                    decreases list@.len() - i,
                {
                    let signature = copy_bytes(&list[i].signature);
                    signatures.push((list[i].voter.clone(), signature));
                    i = i + 1;
                }
            },
            None => {},
        }
        signatures
    }

    /// Takes a voter's ballots out everywhere.
    pub fn remove_voter(&mut self, voter_id: &str)
        requires
            old(self).wf(),
        ensures
            final(self).wf(),
            final(self)@ == old(self)@.without_voter(voter_id@),
    {
        let ghost before = *self;
        let ghost keys = self.votes.keys();
        let n: usize = self.votes.len();
        let mut i: usize = 0;
        proof {
            self.votes.lemma_keys();
        }
        while i < n
            invariant
                self.votes.wf(),
                self.signaled == before.signaled,
                before.votes.wf(),
                keys == before.votes.keys(),
                keys.no_duplicates(),
                self.votes.keys() == keys,
                n == keys.len(),
                i <= n,
                self.votes@.dom() == before.votes@.dom(),
                forall|j: int|
                    0 <= j < i ==> views(self.votes@[#[trigger] keys[j]]@) == without(
                        views(before.votes@[keys[j]]@),
                        voter_id@,
                    ),
                forall|j: int|
                    i <= j < n ==> self.votes@[#[trigger] keys[j]] == before.votes@[keys[j]],
            decreases n - i,
        {
            let kept = keep_others(self.votes.value_at(i), voter_id);
            self.votes.set_value_at(i, kept);
            assert(self.votes@.dom() =~= before.votes@.dom());
            i = i + 1;
        }
        proof {
            before.votes.lemma_keys();
            assert forall|block: Seq<u8>| before.votes@.contains_key(block) implies views(
                self.votes@[block]@,
            ) == without(views(before.votes@[block]@), voter_id@) by {
                assert(keys.contains(block));
                let j = choose|j: int| 0 <= j < keys.len() && keys[j] == block;
                assert(keys[j] == block);
            }
            assert(self@.votes =~= before@.without_voter(voter_id@).votes);
            lemma_removal_keeps(before@, voter_id@);
            assert(self@.votes.dom() =~= before@.votes.dom());
            assert(self@ =~= before@.without_voter(voter_id@));
        }
    }

    /// Forgets a block.
    pub fn clear(&mut self, block_hash: Hash256)
        requires
            old(self).wf(),
        ensures
            final(self).wf(),
            final(self)@ == old(self)@.without_block(block_hash@),
    {
        let ghost before = *self;
        let _ = self.votes.remove(&block_hash);
        let _ = self.signaled.remove(&block_hash);
        proof {
            assert(self@.votes =~= before@.votes.remove(block_hash@));
            assert(self@.signaled =~= before@.signaled.remove(block_hash@));
        }
    }

    /// Forgets everything.
    pub fn clear_all(&mut self)
        ensures
            final(self).wf(),
            final(self)@ == BoxV::nothing(),
    {
        self.votes.clear();
        self.signaled.clear();
        assert(self@ =~= BoxV::nothing());
    }

    /// The blocks that have a list of ballots, each once, with their voters.
    pub fn get_all_voters(&self) -> (all: Vec<(Hash256, Vec<String>)>)
        requires
            self.wf(),
        ensures
            all@.map_values(|e: (Hash256, Vec<String>)| e.0@).no_duplicates(),
            all@.map_values(|e: (Hash256, Vec<String>)| e.0@).to_set() == self@.votes.dom(),
            forall|i: int|
                0 <= i < all@.len() ==> views((#[trigger] all@[i]).1@) == voters_of(
                    self@.list(all@[i].0@),
                ),
    {
        let ghost keys = self.votes.keys();
        let n: usize = self.votes.len();
        let mut all: Vec<(Hash256, Vec<String>)> = Vec::new();
        let mut i: usize = 0;
        while i < n
            invariant
                self.wf(),
                keys == self.votes.keys(),
                n == keys.len(),
                i <= n,
                all@.len() == i,
                forall|j: int|
                    0 <= j < i ==> (#[trigger] all@[j]).0@ == keys[j] && views(all@[j].1@)
                        == voters_of(self@.list(keys[j])),
            decreases n - i,
        {
            let hash = *self.votes.key_at(i);
            let list = self.votes.value_at(i);
            assert(self@.list(keys[i as int]) == views(list@));
            all.push((hash, names(list)));
            i = i + 1;
        }
        proof {
            self.votes.lemma_keys();
            assert(all@.map_values(|e: (Hash256, Vec<String>)| e.0@) =~= keys);
            assert(self.votes@.dom() =~= self@.votes.dom());
        }
        all
    }
}

fn keep_others(list: &Vec<Ballot>, voter: &str) -> (kept: Vec<Ballot>)
    ensures
        views(kept@) == without(views(list@), voter@),
{
    let ghost seen = views(list@);
    let mut kept: Vec<Ballot> = Vec::new();
    let mut i: usize = 0;
    assert(views(kept@) =~= without(seen.take(0), voter@));
    while i < list.len()
        invariant
            i <= list@.len(),
            seen == views(list@),
            views(kept@) == without(seen.take(i as int), voter@),
        decreases list@.len() - i,
    {
        proof {
            assert(seen.take(i + 1).drop_last() =~= seen.take(i as int));
            assert(seen.take(i + 1).last() == list@[i as int]@);
        }
        if !same_text(list[i].voter.as_str(), voter) {
            let ghost held = views(kept@);
            let ballot = list[i].clone();
            kept.push(ballot);
            assert(views(kept@) =~= held.push(ballot@));
        }
        i = i + 1;
    }
    assert(seen.take(i as int) =~= seen);
    kept
}

proof fn lemma_vote_keeps(held: BoxV, block: Seq<u8>, ballot: BallotV)
    requires
        held.one_vote_each(),
        held.votes.dom().finite(),
        !held.has_voted(ballot.voter),
    ensures
        held.with_vote(block, ballot).one_vote_each(),
        held.with_vote(block, ballot).votes.dom().finite(),
{
    let after = held.with_vote(block, ballot);
    let list = held.list(block);
    assert(after.votes.dom() =~= held.votes.dom().insert(block));
    assert forall|b: Seq<u8>, voter: Seq<char>|
        after.votes.contains_key(b) && #[trigger] voted_in(after.votes[b], voter) implies (voter
        == ballot.voter && b == block) || (held.votes.contains_key(b) && voted_in(
        held.votes[b],
        voter,
    ) && voter != ballot.voter) by {
        let i = choose|i: int|
            0 <= i < after.votes[b].len() && (#[trigger] after.votes[b][i]).voter == voter;
        if b == block {
            if i < list.len() {
                assert(list[i].voter == voter);
                assert(voted_in(held.votes[b], voter));
            }
        } else {
            assert(voted_in(held.votes[b], voter));
        }
    }
    assert forall|b: Seq<u8>| #[trigger] after.votes.contains_key(b) implies voters_of(
        after.votes[b],
    ).no_duplicates() by {
        if b == block {
            let old_names = voters_of(list);
            assert(old_names.no_duplicates());
            assert(voters_of(after.votes[b]) =~= old_names.push(ballot.voter));
            assert(!old_names.contains(ballot.voter)) by {
                if old_names.contains(ballot.voter) {
                    let i = choose|i: int| 0 <= i < old_names.len() && old_names[i] == ballot.voter;
                    assert(list[i].voter == ballot.voter);
                    assert(voted_in(held.votes[b], ballot.voter));
                }
            }
        } else {
            assert(held.votes.contains_key(b));
        }
    }
}

proof fn lemma_without(list: Seq<BallotV>, voter: Seq<char>)
    ensures
        forall|other: Seq<char>| #[trigger]
            voted_in(without(list, voter), other) <==> voted_in(list, other) && other != voter,
        voters_of(list).no_duplicates() ==> voters_of(without(list, voter)).no_duplicates(),
    decreases list.len(),
{
    let kept = without(list, voter);
    if list.len() == 0 {
        assert forall|other: Seq<char>| #[trigger] voted_in(kept, other) <==> voted_in(list, other)
            && other != voter by {}
    } else {
        let front = list.drop_last();
        lemma_without(front, voter);
        let kept_front = without(front, voter);
        assert forall|other: Seq<char>| #[trigger] voted_in(kept, other) <==> voted_in(list, other)
            && other != voter by {
            lemma_voted_push(front, list.last(), other);
            assert(front.push(list.last()) =~= list);
            if list.last().voter != voter {
                lemma_voted_push(kept_front, list.last(), other);
            }
        }
        if voters_of(list).no_duplicates() {
            assert(voters_of(front) =~= voters_of(list).drop_last());
            assert(voters_of(front).no_duplicates());
            if list.last().voter != voter {
                let names = voters_of(kept_front);
                assert(voters_of(kept) =~= names.push(list.last().voter));
                assert(!names.contains(list.last().voter)) by {
                    if names.contains(list.last().voter) {
                        let i = choose|i: int|
                            0 <= i < names.len() && names[i] == list.last().voter;
                        assert(kept_front[i].voter == list.last().voter);
                        assert(voted_in(kept_front, list.last().voter));
                        assert(voted_in(front, list.last().voter));
                        let j = choose|j: int|
                            0 <= j < front.len() && (#[trigger] front[j]).voter
                                == list.last().voter;
                        assert(voters_of(list)[j] == voters_of(list)[list.len() - 1]);
                    }
                }
            }
        }
    }
}

proof fn lemma_voted_push(list: Seq<BallotV>, ballot: BallotV, voter: Seq<char>)
    ensures
        voted_in(list.push(ballot), voter) <==> voted_in(list, voter) || ballot.voter == voter,
{
    let longer = list.push(ballot);
    if voted_in(longer, voter) {
        let i = choose|i: int| 0 <= i < longer.len() && (#[trigger] longer[i]).voter == voter;
        if i < list.len() {
            assert(list[i].voter == voter);
        }
    }
    if voted_in(list, voter) {
        let i = choose|i: int| 0 <= i < list.len() && (#[trigger] list[i]).voter == voter;
        assert(longer[i].voter == voter);
    }
    if ballot.voter == voter {
        assert(longer[list.len() as int].voter == voter);
    }
}

proof fn lemma_removal_keeps(held: BoxV, voter: Seq<char>)
    requires
        held.one_vote_each(),
    ensures
        held.without_voter(voter).one_vote_each(),
{
    let after = held.without_voter(voter);
    assert forall|b: Seq<u8>| #[trigger] after.votes.contains_key(b) implies voters_of(
        after.votes[b],
    ).no_duplicates() by {
        lemma_without(held.votes[b], voter);
    }
    assert forall|a: Seq<u8>, b: Seq<u8>, v: Seq<char>|
        after.votes.contains_key(a) && after.votes.contains_key(b) && #[trigger] voted_in(
            after.votes[a],
            v,
        ) && #[trigger] voted_in(after.votes[b], v) implies a == b by {
        lemma_without(held.votes[a], voter);
        lemma_without(held.votes[b], voter);
        assert(voted_in(held.votes[a], v));
        assert(voted_in(held.votes[b], v));
    }
}

/// Two blocks never have the majority at the same time.
pub proof fn one_majority_at_a_time(held: BoxV, a: Seq<u8>, b: Seq<u8>)
    requires
        held.votes.dom().finite(),
        held.majority(a),
        held.majority(b),
    ensures
        a == b,
{
    if a != b {
        let weights = held.weights();
        assert(weights.dom() =~= held.votes.dom());
        crate::sums::lemma_total_remove(weights, a);
        crate::sums::lemma_total_remove(weights.remove(a), b);
    }
}

/// A majority is announced once: a second check of the same block says no,
/// whatever votes came in between, until the block is forgotten.
pub proof fn majority_is_announced_once(held: BoxV, block: Seq<u8>, later: Seq<u8>, ballot: BallotV)
    ensures
        held.announces(block) ==> {
            &&& !held.checked(block).announces(block)
            &&& !held.checked(block).with_vote(later, ballot).announces(block)
        },
{
}

/// One voter alone never gives a block the majority.
pub proof fn one_voter_is_no_majority(held: BoxV, block: Seq<u8>)
    requires
        held.list(block).len() < 2,
    ensures
        !held.majority(block),
{
}

/// The first vote of a voter wins: later ones change nothing.
pub proof fn first_vote_wins(
    held: BoxV,
    block: Seq<u8>,
    ballot: BallotV,
    other: Seq<u8>,
    again: BallotV,
)
    requires
        again.voter == ballot.voter,
    ensures
        held.with_vote(block, ballot).with_vote(other, again) == held.with_vote(block, ballot),
{
    let after = held.with_vote(block, ballot);
    if !held.has_voted(ballot.voter) {
        lemma_voted_push(held.list(block), ballot, ballot.voter);
        assert(after.votes.contains_key(block));
        assert(voted_in(after.votes[block], ballot.voter));
    }
    assert(after.has_voted(again.voter));
}

/// A voter who was taken out can vote again.
pub proof fn removed_voter_may_vote(held: BoxV, voter: Seq<char>)
    ensures
        !held.without_voter(voter).has_voted(voter),
{
    let after = held.without_voter(voter);
    assert forall|block: Seq<u8>| after.votes.contains_key(block) implies !#[trigger] voted_in(
        after.votes[block],
        voter,
    ) by {
        lemma_without(held.votes[block], voter);
    }
}

/// Votes on whether to prepare a block.
pub struct PrepareVoteAccumulator {
    ballots: BallotBox,
}

impl View for PrepareVoteAccumulator {
    type V = BoxV;

    closed spec fn view(&self) -> BoxV {
        self.ballots@
    }
}

impl Default for PrepareVoteAccumulator {
    fn default() -> (made: Self)
        ensures
            made.wf(),
            made@ == BoxV::nothing(),
    {
        Self::new()
    }
}

impl PrepareVoteAccumulator {
    /// No voter has two ballots.
    pub closed spec fn wf(&self) -> bool {
        self.ballots.wf()
    }

    /// No voter of a well-formed accumulator has two ballots.
    pub proof fn lemma_wf(&self)
        requires
            self.wf(),
        ensures
            self@.one_vote_each(),
            self@.votes.dom().finite(),
    {
        self.ballots.lemma_wf();
    }

    /// No votes.
    pub fn new() -> (made: Self)
        ensures
            made.wf(),
            made@ == BoxV::nothing(),
    {
        PrepareVoteAccumulator { ballots: BallotBox::new() }
    }

    /// Casts a vote. A voter votes for one block only, and the first vote wins.
    pub fn add_vote(&mut self, block_hash: Hash256, voter_id: String, weight: u64)
        requires
            old(self).wf(),
        ensures
            final(self).wf(),
            final(self)@ == old(self)@.with_vote(
                block_hash@,
                (BallotV { voter: voter_id@, signature: seq![], weight }),
            ),
    {
        let signature: Vec<u8> = Vec::new();
        assert(signature@ =~= seq![]);
        self.ballots.add_vote(block_hash, voter_id, signature, weight);
    }

    /// Whether a block has the majority of the weight that took part, of at
    /// least two voters. Says so once for a block.
    pub fn check_consensus(&mut self, block_hash: Hash256, sample_size: usize) -> (reached: bool)
        requires
            old(self).wf(),
            old(self)@.countable(block_hash@),
        ensures
            final(self).wf(),
            reached == old(self)@.announces(block_hash@),
            final(self)@ == old(self)@.checked(block_hash@),
    {
        self.ballots.check_consensus(block_hash, sample_size)
    }

    /// The weight of the votes for a block.
    pub fn get_weight(&self, block_hash: Hash256) -> (weight: u64)
        requires
            self.wf(),
            weight_of(self@.list(block_hash@)) <= u64::MAX,
        ensures
            weight == weight_of(self@.list(block_hash@)),
    {
        self.ballots.get_weight(block_hash)
    }

    /// Who voted for a block, in the order of the votes.
    pub fn get_voters(&self, block_hash: Hash256) -> (voters: Vec<String>)
        requires
            self.wf(),
        ensures
            views(voters@) == voters_of(self@.list(block_hash@)),
    {
        self.ballots.get_voters(block_hash)
    }

    /// Takes a voter's vote out of every block, so that they can vote again.
    pub fn remove_voter(&mut self, voter_id: &str)
        requires
            old(self).wf(),
        ensures
            final(self).wf(),
            final(self)@ == old(self)@.without_voter(voter_id@),
    {
        self.ballots.remove_voter(voter_id);
    }

    /// Forgets a block after it became final.
    pub fn clear(&mut self, block_hash: Hash256)
        requires
            old(self).wf(),
        ensures
            final(self).wf(),
            final(self)@ == old(self)@.without_block(block_hash@),
    {
        self.ballots.clear(block_hash);
    }

    /// Forgets all votes, for a new block height.
    pub fn clear_all(&mut self)
        ensures
            final(self).wf(),
            final(self)@ == BoxV::nothing(),
    {
        self.ballots.clear_all();
    }

    /// The blocks that have a list of votes, each once, with their voters.
    pub fn get_all_voters(&self) -> (all: Vec<(Hash256, Vec<String>)>)
        requires
            self.wf(),
        ensures
            all@.map_values(|e: (Hash256, Vec<String>)| e.0@).no_duplicates(),
            all@.map_values(|e: (Hash256, Vec<String>)| e.0@).to_set() == self@.votes.dom(),
            forall|i: int|
                0 <= i < all@.len() ==> views((#[trigger] all@[i]).1@) == voters_of(
                    self@.list(all@[i].0@),
                ),
    {
        self.ballots.get_all_voters()
    }
}

/// Votes on whether to commit a block, with signatures.
pub struct PrecommitVoteAccumulator {
    ballots: BallotBox,
}

impl View for PrecommitVoteAccumulator {
    type V = BoxV;

    closed spec fn view(&self) -> BoxV {
        self.ballots@
    }
}

impl Default for PrecommitVoteAccumulator {
    fn default() -> (made: Self)
        ensures
            made.wf(),
            made@ == BoxV::nothing(),
    {
        Self::new()
    }
}

impl PrecommitVoteAccumulator {
    /// No voter has two ballots.
    pub closed spec fn wf(&self) -> bool {
        self.ballots.wf()
    }

    /// No voter of a well-formed accumulator has two ballots.
    pub proof fn lemma_wf(&self)
        requires
            self.wf(),
        ensures
            self@.one_vote_each(),
            self@.votes.dom().finite(),
    {
        self.ballots.lemma_wf();
    }

    /// No votes.
    pub fn new() -> (made: Self)
        ensures
            made.wf(),
            made@ == BoxV::nothing(),
    {
        PrecommitVoteAccumulator { ballots: BallotBox::new() }
    }

    /// Casts a vote. A voter votes for one block only, and the first vote wins.
    pub fn add_vote(&mut self, block_hash: Hash256, voter_id: String, signature: Vec<u8>, weight: u64)
        requires
            old(self).wf(),
        ensures
            final(self).wf(),
            final(self)@ == old(self)@.with_vote(
                block_hash@,
                (BallotV { voter: voter_id@, signature: signature@, weight }),
            ),
    {
        self.ballots.add_vote(block_hash, voter_id, signature, weight);
    }

    /// Whether a block has the majority of the weight that took part, of at
    /// least two voters. Says so once for a block.
    pub fn check_consensus(&mut self, block_hash: Hash256, sample_size: usize) -> (reached: bool)
        requires
            old(self).wf(),
            old(self)@.countable(block_hash@),
        ensures
            final(self).wf(),
            reached == old(self)@.announces(block_hash@),
            final(self)@ == old(self)@.checked(block_hash@),
    {
        self.ballots.check_consensus(block_hash, sample_size)
    }

    /// The weight of the votes for a block.
    pub fn get_weight(&self, block_hash: Hash256) -> (weight: u64)
        requires
            self.wf(),
            weight_of(self@.list(block_hash@)) <= u64::MAX,
        ensures
            weight == weight_of(self@.list(block_hash@)),
    {
        self.ballots.get_weight(block_hash)
    }

    /// Who voted for a block, in the order of the votes.
    pub fn get_voters(&self, block_hash: Hash256) -> (voters: Vec<String>)
        requires
            self.wf(),
        ensures
            views(voters@) == voters_of(self@.list(block_hash@)),
    {
        self.ballots.get_voters(block_hash)
    }

    /// Who voted for a block, each with the signature, in the order of the votes.
    pub fn get_signatures(&self, block_hash: Hash256) -> (signatures: Vec<(String, Vec<u8>)>)
        requires
            self.wf(),
        ensures
            signatures@.len() == self@.list(block_hash@).len(),
            forall|i: int|
                0 <= i < signatures@.len() ==> (#[trigger] signatures@[i]).0@ == self@.list(
                    block_hash@,
                )[i].voter && signatures@[i].1@ == self@.list(block_hash@)[i].signature,
    {
        self.ballots.get_signatures(block_hash)
    }

    /// Forgets a block after it became final.
    pub fn clear(&mut self, block_hash: Hash256)
        requires
            old(self).wf(),
        ensures
            final(self).wf(),
            final(self)@ == old(self)@.without_block(block_hash@),
    {
        self.ballots.clear(block_hash);
    }

    /// Forgets all votes, for a new block height.
    pub fn clear_all(&mut self)
        ensures
            final(self).wf(),
            final(self)@ == BoxV::nothing(),
    {
        self.ballots.clear_all();
    }

    /// The blocks that have a list of votes, each once, with their voters.
    pub fn get_all_voters(&self) -> (all: Vec<(Hash256, Vec<String>)>)
        requires
            self.wf(),
        ensures
            all@.map_values(|e: (Hash256, Vec<String>)| e.0@).no_duplicates(),
            all@.map_values(|e: (Hash256, Vec<String>)| e.0@).to_set() == self@.votes.dom(),
            forall|i: int|
                0 <= i < all@.len() ==> views((#[trigger] all@[i]).1@) == voters_of(
                    self@.list(all@[i].0@),
                ),
    {
        self.ballots.get_all_voters()
    }
}

/// A block has the majority exactly with two voters and more than half of the weight
/// that took part.
pub proof fn majority_is_more_than_half(held: BoxV, block: Seq<u8>)
    requires
        held.votes.dom().finite(),
    ensures
        held.majority(block) <==> held.votes.contains_key(block) && held.votes[block].len() >= 2
            && 2 * weight_of(held.votes[block]) > held.total(),
        held.announces(block) <==> held.majority(block) && !held.signaled.contains(block),
        held.checked(block).votes == held.votes,
        held.announces(block) ==> held.checked(block).signaled == held.signaled.insert(block),
        !held.announces(block) ==> held.checked(block) == held,
{
    if held.votes.contains_key(block) {
        let weights = held.weights();
        assert(weights.dom() =~= held.votes.dom());
        crate::sums::lemma_total_remove(weights, block);
    }
}

/// The first vote of a voter goes to the block that it names, behind the earlier ones,
/// and adds its weight to that block and to what took part; no other block is touched.
pub proof fn first_votes_are_counted(held: BoxV, block: Seq<u8>, ballot: BallotV, other: Seq<u8>)
    requires
        held.votes.dom().finite(),
        !held.has_voted(ballot.voter),
        other != block,
    ensures
        ({
            let after = held.with_vote(block, ballot);
            &&& after.list(block) == held.list(block).push(ballot)
            &&& after.list(other) == held.list(other)
            &&& weight_of(after.list(block)) == weight_of(held.list(block)) + ballot.weight
            &&& after.total() == held.total() + ballot.weight
            &&& after.signaled == held.signaled
        }),
{
    let after = held.with_vote(block, ballot);
    assert(held.list(block).push(ballot).drop_last() =~= held.list(block));
    let (before_w, after_w) = (held.weights(), after.weights());
    assert(before_w.dom() =~= held.votes.dom());
    assert(after_w.dom() =~= held.votes.dom().insert(block));
    crate::sums::lemma_total_remove(after_w, block);
    assert(after_w.remove(block) =~= before_w.remove(block));
    if held.votes.contains_key(block) {
        crate::sums::lemma_total_remove(before_w, block);
    } else {
        assert(before_w.remove(block) =~= before_w);
        assert(weight_of(held.list(block)) == 0);
    }
}

/// Taking out a voter takes out that voter's ballots and no others.
pub proof fn only_the_removed_voter_goes(list: Seq<BallotV>, ballot: BallotV, voter: Seq<char>)
    ensures
        without(seq![], voter).len() == 0,
        ballot.voter == voter ==> without(list.push(ballot), voter) == without(list, voter),
        ballot.voter != voter ==> without(list.push(ballot), voter) == without(list, voter).push(
            ballot,
        ),
{
    assert(list.push(ballot).drop_last() =~= list);
}

/// Forgetting a block forgets its ballots and that its majority was announced, and
/// nothing of another.
pub proof fn forgotten_blocks_start_over(held: BoxV, block: Seq<u8>, other: Seq<u8>)
    requires
        other != block,
    ensures
        ({
            let after = held.without_block(block);
            &&& after.list(block).len() == 0
            &&& !after.signaled.contains(block)
            &&& after.list(other) == held.list(other)
            &&& after.signaled.contains(other) <==> held.signaled.contains(other)
        }),
{
}

} // verus!
