//! The two voting rounds on blocks, as part of the voting state.

use crate::ballots::{voters_of, weight_of, BallotV};
use crate::names::{lemma_merged_contains, merge, merged};
use crate::sums::views;
use crate::table::Table;
use crate::timevote::{
    absorbed, at, list_at, ConsensusV, TimeVoteConsensus, TimeVoteMetrics,
};
use crate::types::{duplicate_texts, Hash256};
use vstd::prelude::*;

verus! {

/// Adds voters of blocks to those that are kept.
fn absorb(kept: &mut Table<Hash256, Vec<String>>, all: &Vec<(Hash256, Vec<String>)>)
    requires
        old(kept).wf(),
        all@.map_values(|e: (Hash256, Vec<String>)| e.0@).no_duplicates(),
    ensures
        final(kept).wf(),
        forall|i: int|
            0 <= i < all@.len() ==> at(
                crate::sums::lists(final(kept)@),
                (#[trigger] all@[i]).0@,
            ) == absorbed(at(crate::sums::lists(old(kept)@), all@[i].0@), views(all@[i].1@)),
        forall|block: Seq<u8>|
            !(all@.map_values(|e: (Hash256, Vec<String>)| e.0@).contains(block)) ==> #[trigger] at(
                crate::sums::lists(final(kept)@),
                block,
            ) == at(crate::sums::lists(old(kept)@), block),
{
    let ghost blocks = all@.map_values(|e: (Hash256, Vec<String>)| e.0@);
    let ghost before = crate::sums::lists(kept@);
    let mut i: usize = 0;
    while i < all.len()
        invariant
            kept.wf(),
            i <= all@.len(),
            blocks == all@.map_values(|e: (Hash256, Vec<String>)| e.0@),
            blocks.no_duplicates(),
            forall|j: int|
                0 <= j < i ==> at(crate::sums::lists(kept@), (#[trigger] all@[j]).0@) == absorbed(
                    at(before, all@[j].0@),
                    views(all@[j].1@),
                ),
            forall|block: Seq<u8>|
                (forall|j: int| 0 <= j < i ==> #[trigger] blocks[j] != block) ==> #[trigger] at(
                    crate::sums::lists(kept@),
                    block,
                ) == at(before, block),
        decreases all@.len() - i,
    {
        let block = all[i].0;
        let ghost current = crate::sums::lists(kept@);
        assert(blocks[i as int] == block@);
        assert(at(current, block@) == at(before, block@)) by {
            assert forall|j: int| 0 <= j < i implies #[trigger] blocks[j] != block@ by {
                assert(blocks[j] != blocks[i as int]);
            }
        }
        if all[i].1.len() > 0 {
            let names = match kept.remove(&block) {
                Some(names) => merge(names, &all[i].1),
                None => duplicate_texts(&all[i].1),
            };
            kept.insert(block, names);
            assert(crate::sums::lists(kept@) =~= current.insert(block@, views(names@)));
        }
        assert(at(crate::sums::lists(kept@), block@) == absorbed(
            at(before, block@),
            views(all@[i as int].1@),
        ));
        proof {
            let after = crate::sums::lists(kept@);
            assert forall|j: int| 0 <= j < i + 1 implies at(after, (#[trigger] all@[j]).0@)
                == absorbed(at(before, all@[j].0@), views(all@[j].1@)) by {
                if j < i {
                    assert(blocks[j] != blocks[i as int]);
                    assert(blocks[j] == all@[j].0@);
                    assert(at(after, all@[j].0@) == at(current, all@[j].0@));
                }
            }
            assert forall|other: Seq<u8>|
                (forall|j: int| 0 <= j < i + 1 ==> #[trigger] blocks[j]
                    != other) implies #[trigger] at(after, other) == at(before, other) by {
                assert(blocks[i as int] != other);
                assert(at(after, other) == at(current, other));
            }
        }
        i = i + 1;
    }
    proof {
        assert forall|block: Seq<u8>| !blocks.contains(block) implies #[trigger] at(
            crate::sums::lists(kept@),
            block,
        ) == at(before, block) by {
            assert forall|j: int| 0 <= j < all@.len() implies #[trigger] blocks[j] != block by {}
        }
    }
}

impl TimeVoteConsensus {
    /// Casts the node's own vote to prepare a block.
    pub fn generate_prepare_vote(&mut self, block_hash: Hash256, voter_id: &str, voter_weight: u64)
        requires
            old(self).wf(),
        ensures
            final(self).wf(),
            final(self)@ == (ConsensusV {
                prepare_votes: old(self)@.prepare_votes.with_vote(
                    block_hash@,
                    BallotV { voter: voter_id@, signature: seq![], weight: voter_weight },
                ),
                ..old(self)@
            }),
    {
        let ghost before = self@;
        self.prepare_votes.add_vote(block_hash, String::from_str(voter_id), voter_weight);
        assert(self@ =~= ConsensusV { prepare_votes: self@.prepare_votes, ..before });
    }

    /// Counts a peer's vote to prepare a block.
    pub fn accumulate_prepare_vote(&mut self, block_hash: Hash256, voter_id: String, voter_weight: u64)
        requires
            old(self).wf(),
        ensures
            final(self).wf(),
            final(self)@ == (ConsensusV {
                prepare_votes: old(self)@.prepare_votes.with_vote(
                    block_hash@,
                    BallotV { voter: voter_id@, signature: seq![], weight: voter_weight },
                ),
                ..old(self)@
            }),
    {
        let ghost before = self@;
        self.prepare_votes.add_vote(block_hash, voter_id, voter_weight);
        assert(self@ =~= ConsensusV { prepare_votes: self@.prepare_votes, ..before });
    }

    /// How many validators a round could ask: the active masternodes, or all
    /// that are registered while none is active.
    pub fn round_size(&self) -> (size: usize)
        ensures
            size == (if self@.registry.active().len() == 0 {
                self@.registry.nodes.len()
            } else {
                self@.registry.active().len()
            }),
    {
        let active = self.masternode_registry.list_active();
        assert(views(active@).len() == active@.len());
        if active.len() == 0 {
            self.masternode_registry.nodes.len()
        } else {
            active.len()
        }
    }

    /// Whether a block has the majority in the first round. Says so once.
    pub fn check_prepare_consensus(&mut self, block_hash: Hash256) -> (reached: bool)
        requires
            old(self).wf(),
            old(self)@.prepare_votes.countable(block_hash@),
        ensures
            final(self).wf(),
            reached == old(self)@.prepare_votes.announces(block_hash@),
            final(self)@ == (ConsensusV {
                prepare_votes: old(self)@.prepare_votes.checked(block_hash@),
                ..old(self)@
            }),
    {
        let ghost before = self@;
        let sample_size: usize = self.round_size();
        let reached = self.prepare_votes.check_consensus(block_hash, sample_size);
        assert(self@ =~= ConsensusV { prepare_votes: self@.prepare_votes, ..before });
        reached
    }

    /// The weight of the votes to prepare a block.
    pub fn get_prepare_weight(&self, block_hash: Hash256) -> (weight: u64)
        requires
            self.wf(),
            weight_of(self@.prepare_votes.list(block_hash@)) <= u64::MAX,
        ensures
            weight == weight_of(self@.prepare_votes.list(block_hash@)),
    {
        self.prepare_votes.get_weight(block_hash)
    }

    /// Casts the node's own vote to commit a block.
    pub fn generate_precommit_vote(
        &mut self,
        block_hash: Hash256,
        voter_id: &str,
        voter_weight: u64,
        signature: Vec<u8>,
    )
        requires
            old(self).wf(),
        ensures
            final(self).wf(),
            final(self)@ == (ConsensusV {
                precommit_votes: old(self)@.precommit_votes.with_vote(
                    block_hash@,
                    BallotV { voter: voter_id@, signature: signature@, weight: voter_weight },
                ),
                ..old(self)@
            }),
    {
        let ghost before = self@;
        self.precommit_votes.add_vote(
            block_hash,
            String::from_str(voter_id),
            signature,
            voter_weight,
        );
        assert(self@ =~= ConsensusV { precommit_votes: self@.precommit_votes, ..before });
    }

    /// Counts a peer's vote to commit a block.
    pub fn accumulate_precommit_vote(
        &mut self,
        block_hash: Hash256,
        voter_id: String,
        voter_weight: u64,
        signature: Vec<u8>,
    )
        requires
            old(self).wf(),
        ensures
            final(self).wf(),
            final(self)@ == (ConsensusV {
                precommit_votes: old(self)@.precommit_votes.with_vote(
                    block_hash@,
                    BallotV { voter: voter_id@, signature: signature@, weight: voter_weight },
                ),
                ..old(self)@
            }),
    {
        let ghost before = self@;
        self.precommit_votes.add_vote(block_hash, voter_id, signature, voter_weight);
        assert(self@ =~= ConsensusV { precommit_votes: self@.precommit_votes, ..before });
    }

    /// Whether a block has the majority in the second round. Says so once.
    pub fn check_precommit_consensus(&mut self, block_hash: Hash256) -> (reached: bool)
        requires
            old(self).wf(),
            old(self)@.precommit_votes.countable(block_hash@),
        ensures
            final(self).wf(),
            reached == old(self)@.precommit_votes.announces(block_hash@),
            final(self)@ == (ConsensusV {
                precommit_votes: old(self)@.precommit_votes.checked(block_hash@),
                ..old(self)@
            }),
    {
        let ghost before = self@;
        let sample_size: usize = self.round_size();
        let reached = self.precommit_votes.check_consensus(block_hash, sample_size);
        assert(self@ =~= ConsensusV { precommit_votes: self@.precommit_votes, ..before });
        reached
    }

    /// The weight of the votes to commit a block.
    pub fn get_precommit_weight(&self, block_hash: Hash256) -> (weight: u64)
        requires
            self.wf(),
            weight_of(self@.precommit_votes.list(block_hash@)) <= u64::MAX,
        ensures
            weight == weight_of(self@.precommit_votes.list(block_hash@)),
    {
        self.precommit_votes.get_weight(block_hash)
    }

    /// Who voted to commit a block, each with the signature.
    pub fn get_precommit_signatures(&self, block_hash: Hash256) -> (signatures: Vec<
        (String, Vec<u8>),
    >)
        requires
            self.wf(),
        ensures
            signatures@.len() == self@.precommit_votes.list(block_hash@).len(),
            forall|i: int|
                0 <= i < signatures@.len() ==> (#[trigger] signatures@[i]).0@
                    == self@.precommit_votes.list(block_hash@)[i].voter && signatures@[i].1@
                    == self@.precommit_votes.list(block_hash@)[i].signature,
    {
        self.precommit_votes.get_signatures(block_hash)
    }

    /// Forgets the votes on a block that became final. Its voters of both rounds
    /// are kept.
    pub fn cleanup_block_votes(&mut self, block_hash: Hash256)
        requires
            old(self).wf(),
        ensures
            final(self).wf(),
            final(self)@ == old(self)@.without_block(block_hash@),
    {
        let ghost before = self@;
        let first = self.precommit_votes.get_voters(block_hash);
        let second = self.prepare_votes.get_voters(block_hash);
        let voters = merge(first, &second);
        assert(views(voters@).len() == voters@.len());
        if voters.len() > 0 {
            self.last_block_voters.insert(block_hash, voters);
        }
        self.prepare_votes.clear(block_hash);
        self.precommit_votes.clear(block_hash);
        assert(self@.last_block_voters =~= before.without_block(block_hash@).last_block_voters);
        assert(self@ =~= before.without_block(block_hash@));
    }

    /// Goes on to a block height. If it is a higher one, the votes so far go, so
    /// that voters can vote again; who voted is kept.
    pub fn advance_vote_height(&mut self, new_height: u64)
        requires
            old(self).wf(),
        ensures
            final(self).wf(),
            final(self)@ == old(self)@.at_height(new_height),
    {
        let ghost before = self@;
        let prev: u64 = self.last_voted_height;
        self.last_voted_height = new_height;
        if new_height > prev {
            let commits = self.precommit_votes.get_all_voters();
            absorb(&mut self.last_block_voters, &commits);
            let ghost between = self@.last_block_voters;
            let prepares = self.prepare_votes.get_all_voters();
            absorb(&mut self.last_block_voters, &prepares);
            proof {
                let first = commits@.map_values(|e: (Hash256, Vec<String>)| e.0@);
                let second = prepares@.map_values(|e: (Hash256, Vec<String>)| e.0@);
                assert forall|block: Seq<u8>| #[trigger] at(self@.last_block_voters, block)
                    == before.voters_after(block) by {
                    assert(at(between, block) == absorbed(
                        at(before.last_block_voters, block),
                        voters_of(before.precommit_votes.list(block)),
                    )) by {
                        if first.contains(block) {
                            let i = choose|i: int| 0 <= i < first.len() && first[i] == block;
                            assert(commits@[i].0@ == block);
                        } else {
                            assert(!first.to_set().contains(block));
                            assert(!before.precommit_votes.votes.contains_key(block));
                        }
                    }
                    if second.contains(block) {
                        let i = choose|i: int| 0 <= i < second.len() && second[i] == block;
                        assert(prepares@[i].0@ == block);
                    } else {
                        assert(!second.to_set().contains(block));
                        assert(!before.prepare_votes.votes.contains_key(block));
                    }
                }
            }
            self.prepare_votes.clear_all();
            self.precommit_votes.clear_all();
            proof {
                let expected = before.at_height(new_height);
                assert forall|block: Seq<u8>|
                    self@.last_block_voters.contains_key(block)
                        <==> expected.last_block_voters.contains_key(block) by {
                    assert(at(self@.last_block_voters, block) == before.voters_after(block));
                }
                assert forall|block: Seq<u8>| #[trigger]
                    self@.last_block_voters.contains_key(block) implies self@.last_block_voters[block]
                    == expected.last_block_voters[block] by {
                    assert(at(self@.last_block_voters, block) == before.voters_after(block));
                }
                assert(self@.last_block_voters =~= expected.last_block_voters);
            }
        }
        assert(self@ =~= before.at_height(new_height));
    }

    /// The kept voters of a block.
    pub fn get_finalized_block_voters(&self, block_hash: Hash256) -> (voters: Vec<String>)
        requires
            self.wf(),
        ensures
            views(voters@) == list_at(self@.last_block_voters, block_hash@),
    {
        match self.last_block_voters.get(&block_hash) {
            Some(held) => duplicate_texts(held),
            None => {
                let none: Vec<String> = Vec::new();
                assert(views(none@) =~= seq![]);
                none
            },
        }
    }

    /// Counts of the voting.
    pub fn get_metrics(&self) -> (metrics: TimeVoteMetrics)
        requires
            self.wf(),
        ensures
            metrics.rounds_executed == self@.rounds_executed,
            metrics.txs_finalized == self@.txs_finalized,
            metrics.tracked_txs == self@.tx_state.dom().len(),
    {
        TimeVoteMetrics {
            rounds_executed: self.rounds_executed,
            txs_finalized: self.txs_finalized,
            tracked_txs: self.tx_state.len(),
        }
    }
}

/// Every voter that was kept for a block is still kept once a higher block comes
/// up.
pub proof fn kept_voters_stay(held: ConsensusV, new_height: u64, block: Seq<u8>, voter: Seq<char>)
    requires
        list_at(held.last_block_voters, block).contains(voter),
    ensures
        list_at(held.at_height(new_height).last_block_voters, block).contains(voter),
{
    let first = voters_of(held.precommit_votes.list(block));
    let second = voters_of(held.prepare_votes.list(block));
    let names = held.last_block_voters[block];
    lemma_merged_contains(names, first);
    lemma_merged_contains(merged(names, first), second);
    lemma_merged_contains(names, second);
}

/// Every voter of either round is kept for the block once a higher block comes up.
pub proof fn all_voters_are_kept(held: ConsensusV, new_height: u64, block: Seq<u8>, voter: Seq<char>)
    requires
        new_height > held.last_voted_height,
        voters_of(held.precommit_votes.list(block)).contains(voter) || voters_of(
            held.prepare_votes.list(block),
        ).contains(voter),
    ensures
        list_at(held.at_height(new_height).last_block_voters, block).contains(voter),
{
    let first = voters_of(held.precommit_votes.list(block));
    let second = voters_of(held.prepare_votes.list(block));
    let names = list_at(held.last_block_voters, block);
    lemma_merged_contains(names, first);
    lemma_merged_contains(names, second);
    lemma_merged_contains(first, second);
    lemma_merged_contains(merged(names, first), second);
}

/// A voter of an earlier height can vote again at a higher one.
pub proof fn higher_block_frees_voters(held: ConsensusV, new_height: u64, voter: Seq<char>)
    requires
        new_height > held.last_voted_height,
    ensures
        !held.at_height(new_height).prepare_votes.has_voted(voter),
        !held.at_height(new_height).precommit_votes.has_voted(voter),
{
}

/// Once a block is final its votes are gone, and its voters of both rounds are kept;
/// other blocks are not touched.
pub proof fn final_blocks_keep_their_voters(
    held: ConsensusV,
    block: Seq<u8>,
    other: Seq<u8>,
    voter: Seq<char>,
)
    requires
        other != block,
    ensures
        ({
            let after = held.without_block(block);
            let voted = voters_of(held.precommit_votes.list(block)).contains(voter) || voters_of(
                held.prepare_votes.list(block),
            ).contains(voter);
            &&& voted ==> list_at(after.last_block_voters, block).contains(voter)
            &&& after.last_block_voters != held.last_block_voters && list_at(
                after.last_block_voters,
                block,
            ).contains(voter) ==> voted
            &&& after.prepare_votes.list(block).len() == 0
            &&& after.precommit_votes.list(block).len() == 0
            &&& after.prepare_votes.list(other) == held.prepare_votes.list(other)
            &&& after.precommit_votes.list(other) == held.precommit_votes.list(other)
            &&& at(after.last_block_voters, other) == at(held.last_block_voters, other)
        }),
{
    let first = voters_of(held.precommit_votes.list(block));
    let second = voters_of(held.prepare_votes.list(block));
    lemma_merged_contains(first, second);
}

/// Votes go when a higher block comes up, and stay while the height does not rise.
pub proof fn votes_last_for_a_height(held: ConsensusV, new_height: u64, block: Seq<u8>)
    ensures
        held.at_height(new_height).last_voted_height == new_height,
        new_height > held.last_voted_height ==> held.at_height(new_height).prepare_votes.list(
            block,
        ).len() == 0 && held.at_height(new_height).precommit_votes.list(block).len() == 0,
        new_height <= held.last_voted_height ==> held.at_height(new_height).prepare_votes
            == held.prepare_votes && held.at_height(new_height).precommit_votes
            == held.precommit_votes && held.at_height(new_height).last_block_voters
            == held.last_block_voters,
{
}

} // verus!
