//! Groups of transactions that do not compete for outputs.

use crate::sums::views;
use crate::types::{same_hash, OutPoint, OutPointV, Transaction, TransactionV};
use vstd::prelude::*;

verus! {

/// Whether a transaction spends an output.
pub open spec fn spends(tx: TransactionV, outpoint: OutPointV) -> bool {
    exists|i: int|
        0 <= i < tx.inputs.len() && (#[trigger] tx.inputs[i]).previous_output == outpoint
}

/// Whether two transactions spend a common output.
pub open spec fn compete(a: TransactionV, b: TransactionV) -> bool {
    exists|outpoint: OutPointV| #[trigger] spends(a, outpoint) && spends(b, outpoint)
}

/// Whether a transaction competes with one of a group.
pub open spec fn competes_with_group(tx: TransactionV, group: Seq<TransactionV>) -> bool {
    exists|i: int| 0 <= i < group.len() && #[trigger] compete(group[i], tx)
}

/// The place of the first group that a transaction does not compete with, or
/// behind the last group.
pub open spec fn place_for(tx: TransactionV, groups: Seq<Seq<TransactionV>>) -> int
    decreases groups.len(),
{
    if groups.len() == 0 || !competes_with_group(tx, groups[0]) {
        0
    } else {
        1 + place_for(tx, groups.drop_first())
    }
}

/// Groups with one more transaction.
pub open spec fn placed(groups: Seq<Seq<TransactionV>>, tx: TransactionV) -> Seq<Seq<TransactionV>> {
    let place = place_for(tx, groups);
    if place < groups.len() {
        groups.update(place, groups[place].push(tx))
    } else {
        groups.push(seq![tx])
    }
}

/// The groups that transactions fall into, taken one after the other.
pub open spec fn partition(txs: Seq<TransactionV>) -> Seq<Seq<TransactionV>>
    decreases txs.len(),
{
    if txs.len() == 0 {
        seq![]
    } else {
        placed(partition(txs.drop_last()), txs.last())
    }
}

/// The views of groups of transactions.
pub open spec fn group_views(groups: Seq<Vec<Transaction>>) -> Seq<Seq<TransactionV>> {
    groups.map_values(|g: Vec<Transaction>| views(g@))
}

/// Whether two outputs are the same.
pub fn same_outpoint(a: &OutPoint, b: &OutPoint) -> (same: bool)
    ensures
        same == (a@ == b@),
{
    let same = same_hash(&a.txid, &b.txid) && a.vout == b.vout;
    proof {
        if same {
            assert(a@ =~= b@);
        }
    }
    same
}

fn spends_output(tx: &Transaction, outpoint: &OutPoint) -> (yes: bool)
    ensures
        yes == spends(tx@, outpoint@),
{
    let mut i: usize = 0;
    while i < tx.inputs.len()
        invariant
            i <= tx.inputs@.len(),
            forall|j: int|
                0 <= j < i ==> (#[trigger] tx@.inputs[j]).previous_output != outpoint@,
        decreases tx.inputs@.len() - i,
    {
        assert(tx@.inputs[i as int] == tx.inputs@[i as int]@);
        if same_outpoint(&tx.inputs[i].previous_output, outpoint) {
            return true;
        }
        i = i + 1;
    }
    false
}

fn do_compete(a: &Transaction, b: &Transaction) -> (yes: bool)
    ensures
        yes == compete(a@, b@),
{
    let mut i: usize = 0;
    while i < a.inputs.len()
        invariant
            i <= a.inputs@.len(),
            forall|j: int|
                0 <= j < i ==> !spends(b@, (#[trigger] a@.inputs[j]).previous_output),
        decreases a.inputs@.len() - i,
    {
        assert(a@.inputs[i as int] == a.inputs@[i as int]@);
        if spends_output(b, &a.inputs[i].previous_output) {
            assert(spends(a@, a@.inputs[i as int].previous_output));
            return true;
        }
        i = i + 1;
    }
    false
}

fn group_competes(tx: &Transaction, group: &Vec<Transaction>) -> (yes: bool)
    ensures
        yes == competes_with_group(tx@, views(group@)),
{
    let mut i: usize = 0;
    while i < group.len()
        invariant
            i <= group@.len(),
            forall|j: int| 0 <= j < i ==> !#[trigger] compete(views(group@)[j], tx@),
        decreases group@.len() - i,
    {
        assert(views(group@)[i as int] == group@[i as int]@);
        if do_compete(&group[i], tx) {
            assert(compete(views(group@)[i as int], tx@));
            return true;
        }
        i = i + 1;
    }
    false
}

fn find_place(tx: &Transaction, groups: &Vec<Vec<Transaction>>) -> (place: usize)
    ensures
        place == place_for(tx@, group_views(groups@)),
        place <= groups@.len(),
{
    let ghost all = group_views(groups@);
    let mut i: usize = 0;
    assert(all.skip(0) =~= all);
    while i < groups.len()
        invariant
            i <= groups@.len(),
            all == group_views(groups@),
            place_for(tx@, all) == i + place_for(tx@, all.skip(i as int)),
        decreases groups@.len() - i,
    {
        proof {
            assert(all.skip(i as int)[0] == views(groups@[i as int]@));
            assert(all.skip(i as int).drop_first() =~= all.skip(i + 1));
        }
        if !group_competes(tx, &groups[i]) {
            return i;
        }
        i = i + 1;
    }
    i
}

/// Splits transactions into groups within which no output is spent twice, so
/// that a group can be submitted at once. A transaction goes to the first group
/// that it does not compete with, and opens a new one where there is none.
pub fn partition_non_conflicting(txs: Vec<Transaction>) -> (groups: Vec<Vec<Transaction>>)
    ensures
        group_views(groups@) == partition(views(txs@)),
{
    let ghost all = views(txs@);
    let mut groups: Vec<Vec<Transaction>> = Vec::new();
    let mut i: usize = 0;
    assert(group_views(groups@) =~= partition(all.take(0)));
    while i < txs.len()
        invariant
            i <= txs@.len(),
            all == views(txs@),
            group_views(groups@) == partition(all.take(i as int)),
        decreases txs@.len() - i,
    {
        proof {
            assert(all.take(i + 1).drop_last() =~= all.take(i as int));
            assert(all.take(i + 1).last() == txs@[i as int]@);
        }
        let ghost held = group_views(groups@);
        let tx = txs[i].clone();
        let ghost said = tx@;
        let place: usize = find_place(&tx, &groups);
        if place < groups.len() {
            let mut group = crate::types::duplicate_list(&groups[place]);
            let ghost members = views(group@);
            assert(members == held[place as int]);
            group.push(tx);
            assert(views(group@) =~= members.push(said));
            groups[place] = group;
            assert(group_views(groups@) =~= held.update(place as int, members.push(said)));
        } else {
            let mut group: Vec<Transaction> = Vec::new();
            group.push(tx);
            assert(views(group@) =~= seq![said]);
            groups.push(group);
            assert(group_views(groups@) =~= held.push(seq![said]));
        }
        i = i + 1;
    }
    assert(all.take(i as int) =~= all);
    groups
}

/// All transactions of some groups, one group after the other.
pub open spec fn all_of(groups: Seq<Seq<TransactionV>>) -> Seq<TransactionV>
    decreases groups.len(),
{
    if groups.len() == 0 {
        seq![]
    } else {
        all_of(groups.drop_last()) + groups.last()
    }
}

/// How many transactions some groups hold.
pub open spec fn count_of(groups: Seq<Seq<TransactionV>>) -> nat
    decreases groups.len(),
{
    if groups.len() == 0 {
        0
    } else {
        count_of(groups.drop_last()) + groups.last().len()
    }
}

proof fn lemma_place(tx: TransactionV, groups: Seq<Seq<TransactionV>>)
    ensures
        0 <= place_for(tx, groups) <= groups.len(),
        place_for(tx, groups) < groups.len() ==> !competes_with_group(
            tx,
            groups[place_for(tx, groups)],
        ),
        forall|i: int| 0 <= i < place_for(tx, groups) ==> competes_with_group(tx, #[trigger] groups[i]),
    decreases groups.len(),
{
    if groups.len() > 0 && competes_with_group(tx, groups[0]) {
        let rest = groups.drop_first();
        lemma_place(tx, rest);
        assert forall|i: int| 0 <= i < place_for(tx, groups) implies competes_with_group(
            tx,
            #[trigger] groups[i],
        ) by {
            if i > 0 {
                assert(rest[i - 1] == groups[i]);
            }
        }
    }
}

/// Within a group no two transactions spend a common output.
pub proof fn groups_do_not_compete(txs: Seq<TransactionV>, g: int, i: int, j: int)
    requires
        0 <= g < partition(txs).len(),
        0 <= i < j < partition(txs)[g].len(),
    ensures
        !compete(partition(txs)[g][i], partition(txs)[g][j]),
    decreases txs.len(),
{
    if txs.len() > 0 {
        let groups = partition(txs.drop_last());
        let tx = txs.last();
        let place = place_for(tx, groups);
        lemma_place(tx, groups);
        if g < groups.len() && j < groups[g].len() {
            groups_do_not_compete(txs.drop_last(), g, i, j);
        } else if g < groups.len() {
            assert(g == place);
            assert(partition(txs)[g] == groups[g].push(tx));
            assert(!compete(groups[g][i], tx));
        }
    }
}

/// Every transaction stands in a group, and none is added.
pub proof fn partition_keeps_transactions(txs: Seq<TransactionV>)
    ensures
        all_of(partition(txs)).to_multiset() == txs.to_multiset(),
        count_of(partition(txs)) == txs.len(),
    decreases txs.len(),
{
    if txs.len() == 0 {
        assert(all_of(partition(txs)) =~= txs);
    } else {
        let front = txs.drop_last();
        let groups = partition(front);
        let tx = txs.last();
        let place = place_for(tx, groups);
        partition_keeps_transactions(front);
        lemma_place(tx, groups);
        front.to_multiset_ensures();
        assert(front.push(tx) =~= txs);
        if place < groups.len() {
            lemma_grow_group(groups, place, tx);
        } else {
            let after = groups.push(seq![tx]);
            assert(after.drop_last() =~= groups);
            assert(all_of(after) =~= all_of(groups).push(tx));
            all_of(groups).to_multiset_ensures();
        }
    }
}

proof fn lemma_grow_group(groups: Seq<Seq<TransactionV>>, place: int, tx: TransactionV)
    requires
        0 <= place < groups.len(),
    ensures
        all_of(groups.update(place, groups[place].push(tx))).to_multiset() == all_of(
            groups,
        ).to_multiset().insert(tx),
        count_of(groups.update(place, groups[place].push(tx))) == count_of(groups) + 1,
    decreases groups.len(),
{
    let after = groups.update(place, groups[place].push(tx));
    let front = groups.drop_last();
    if place == groups.len() - 1 {
        assert(after.drop_last() =~= front);
        assert(all_of(after) =~= all_of(groups).push(tx));
        all_of(groups).to_multiset_ensures();
    } else {
        let grown = front.update(place, front[place].push(tx));
        assert(after.drop_last() =~= grown);
        lemma_grow_group(front, place, tx);
        vstd::seq_lib::lemma_multiset_commutative(all_of(grown), groups.last());
        vstd::seq_lib::lemma_multiset_commutative(all_of(front), groups.last());
        assert(all_of(after).to_multiset() =~= all_of(groups).to_multiset().insert(tx));
    }
}

/// A transaction that competes with an earlier one never shares its group.
pub proof fn competitors_are_apart(txs: Seq<TransactionV>, g: int, i: int, j: int)
    requires
        0 <= g < partition(txs).len(),
        0 <= i < partition(txs)[g].len(),
        0 <= j < partition(txs)[g].len(),
        i != j,
    ensures
        !compete(partition(txs)[g][i], partition(txs)[g][j]),
{
    if i < j {
        groups_do_not_compete(txs, g, i, j);
    } else {
        groups_do_not_compete(txs, g, j, i);
        let (a, b) = (partition(txs)[g][i], partition(txs)[g][j]);
        if compete(a, b) {
            let outpoint = choose|outpoint: OutPointV| #[trigger]
                spends(a, outpoint) && spends(b, outpoint);
            assert(spends(b, outpoint) && spends(a, outpoint));
        }
    }
}

/// Whether groups are as the partition makes them: none is empty, within a group
/// nothing competes with what follows, and everything competes with each group
/// before its own.
spec fn layered(groups: Seq<Seq<TransactionV>>) -> bool {
    &&& forall|g: int| 0 <= g < groups.len() ==> (#[trigger] groups[g]).len() > 0
    &&& forall|g: int, i: int, j: int|
        0 <= g < groups.len() && 0 <= i < j < groups[g].len() ==> !compete(
            #[trigger] groups[g][i],
            #[trigger] groups[g][j],
        )
    &&& forall|g: int, i: int, earlier: int|
        0 <= earlier < g < groups.len() && 0 <= i < groups[g].len() ==> competes_with_group(
            #[trigger] groups[g][i],
            #[trigger] groups[earlier],
        )
}

proof fn lemma_competes_grows(tx: TransactionV, group: Seq<TransactionV>, more: TransactionV)
    requires
        competes_with_group(tx, group),
    ensures
        competes_with_group(tx, group.push(more)),
{
    let i = choose|i: int| 0 <= i < group.len() && #[trigger] compete(group[i], tx);
    assert(group.push(more)[i] == group[i]);
    assert(compete(group.push(more)[i], tx));
}

proof fn lemma_partition_layered(txs: Seq<TransactionV>)
    ensures
        layered(partition(txs)),
    decreases txs.len(),
{
    if txs.len() > 0 {
        let groups = partition(txs.drop_last());
        let after = partition(txs);
        let tx = txs.last();
        let place = place_for(tx, groups);
        lemma_partition_layered(txs.drop_last());
        lemma_place(tx, groups);
        assert forall|g: int, i: int, j: int|
            0 <= g < after.len() && 0 <= i < j < after[g].len() implies !compete(
            #[trigger] after[g][i],
            #[trigger] after[g][j],
        ) by {
            groups_do_not_compete(txs, g, i, j);
        }
        assert forall|g: int, i: int, earlier: int|
            0 <= earlier < g < after.len() && 0 <= i < after[g].len() implies competes_with_group(
            #[trigger] after[g][i],
            #[trigger] after[earlier],
        ) by {
            let it = after[g][i];
            if g < groups.len() && i < groups[g].len() {
                assert(it == groups[g][i]);
            } else {
                assert(g == place && it == tx);
            }
            assert(competes_with_group(it, groups[earlier]));
            if earlier == place {
                lemma_competes_grows(it, groups[earlier], tx);
            }
        }
    }
}

proof fn lemma_layered_is_kept(groups: Seq<Seq<TransactionV>>)
    requires
        layered(groups),
    ensures
        partition(all_of(groups)) == groups,
    decreases count_of(groups),
{
    if groups.len() == 0 {
        assert(partition(all_of(groups)) =~= groups);
    } else {
        let top = groups.len() - 1;
        let last = groups[top];
        let tx = last.last();
        assert(last == groups.last());
        let before = if last.len() == 1 {
            groups.drop_last()
        } else {
            groups.update(top, last.drop_last())
        };
        assert(all_of(groups).len() > 0);
        assert(all_of(groups).last() == tx);
        if last.len() == 1 {
            assert(all_of(groups).drop_last() =~= all_of(before));
        } else {
            assert(before.drop_last() =~= groups.drop_last());
            assert(before.last() == last.drop_last());
            assert(all_of(groups).drop_last() =~= all_of(before));
        }
        assert(layered(before)) by {
            assert forall|g: int, i: int, j: int|
                0 <= g < before.len() && 0 <= i < j < before[g].len() implies !compete(
                #[trigger] before[g][i],
                #[trigger] before[g][j],
            ) by {
                assert(before[g][i] == groups[g][i] && before[g][j] == groups[g][j]);
            }
            assert forall|g: int, i: int, earlier: int|
                0 <= earlier < g < before.len() && 0 <= i < before[g].len()
                    implies competes_with_group(
                #[trigger] before[g][i],
                #[trigger] before[earlier],
            ) by {
                assert(before[g][i] == groups[g][i] && before[earlier] == groups[earlier]);
            }
        }
        lemma_layered_is_kept(before);
        lemma_place(tx, before);
        let place = place_for(tx, before);
        assert(tx == groups[top][last.len() - 1]);
        assert(place >= top) by {
            if place < top {
                assert(before[place] == groups[place]);
                assert(competes_with_group(tx, groups[place]));
            }
        }
        if last.len() == 1 {
            assert(groups =~= before.push(seq![tx])) by {
                assert(last =~= seq![tx]);
            }
        } else {
            assert(!competes_with_group(tx, before[top])) by {
                if competes_with_group(tx, before[top]) {
                    let i = choose|i: int|
                        0 <= i < before[top].len() && #[trigger] compete(before[top][i], tx);
                    assert(before[top][i] == groups[top][i]);
                }
            }
            assert(place == top);
            assert(last.drop_last().push(tx) =~= last);
            assert(groups =~= before.update(top, before[top].push(tx)));
        }
    }
}

/// Splitting the groups again, laid end to end, gives the same groups.
pub proof fn partition_is_stable(txs: Seq<TransactionV>)
    ensures
        partition(all_of(partition(txs))) == partition(txs),
{
    lemma_partition_layered(txs);
    lemma_layered_is_kept(partition(txs));
}

/// A group is not split any further.
pub proof fn group_stays_whole(txs: Seq<TransactionV>, g: int)
    requires
        0 <= g < partition(txs).len(),
    ensures
        partition(partition(txs)[g]) == seq![partition(txs)[g]],
{
    let group = partition(txs)[g];
    lemma_partition_layered(txs);
    let alone = seq![group];
    assert(layered(alone)) by {
        assert forall|k: int, i: int, j: int|
            0 <= k < alone.len() && 0 <= i < j < alone[k].len() implies !compete(
            #[trigger] alone[k][i],
            #[trigger] alone[k][j],
        ) by {
            assert(alone[k][i] == partition(txs)[g][i]);
            assert(alone[k][j] == partition(txs)[g][j]);
        }
    }
    assert(all_of(alone.drop_last()) =~= seq![]);
    assert(all_of(alone) =~= group);
    lemma_layered_is_kept(alone);
}

/// Two transactions compete exactly when they spend a common output, the same number of
/// the same transaction.
pub proof fn competitors_spend_a_common_output(a: TransactionV, b: TransactionV)
    ensures
        compete(a, b) <==> exists|i: int, j: int|
            0 <= i < a.inputs.len() && 0 <= j < b.inputs.len()
                && (#[trigger] a.inputs[i]).previous_output == (
            #[trigger] b.inputs[j]).previous_output,
{
    if compete(a, b) {
        let outpoint = choose|outpoint: OutPointV| #[trigger]
            spends(a, outpoint) && spends(b, outpoint);
        let i = choose|i: int|
            0 <= i < a.inputs.len() && (#[trigger] a.inputs[i]).previous_output == outpoint;
        let j = choose|j: int|
            0 <= j < b.inputs.len() && (#[trigger] b.inputs[j]).previous_output == outpoint;
        assert(a.inputs[i].previous_output == b.inputs[j].previous_output);
    }
    if exists|i: int, j: int|
        0 <= i < a.inputs.len() && 0 <= j < b.inputs.len()
            && (#[trigger] a.inputs[i]).previous_output == (
        #[trigger] b.inputs[j]).previous_output {
        let (i, j) = choose|i: int, j: int|
            0 <= i < a.inputs.len() && 0 <= j < b.inputs.len()
                && (#[trigger] a.inputs[i]).previous_output == (
            #[trigger] b.inputs[j]).previous_output;
        let outpoint = a.inputs[i].previous_output;
        assert(spends(a, outpoint));
        assert(spends(b, outpoint));
    }
}

/// There are no more groups than needed: a transaction stands in a later group only
/// because it competes with every earlier one, and transactions of which none compete
/// stand in one group, in their order.
pub proof fn groups_are_opened_for_competitors(
    txs: Seq<TransactionV>,
    g: int,
    i: int,
    earlier: int,
)
    ensures
        0 <= earlier < g < partition(txs).len() && 0 <= i < partition(txs)[g].len()
            ==> competes_with_group(partition(txs)[g][i], partition(txs)[earlier]),
        txs.len() > 0 && (forall|a: int, b: int|
            0 <= a < b < txs.len() ==> !compete(#[trigger] txs[a], #[trigger] txs[b]))
            ==> partition(txs) == seq![txs],
{
    lemma_partition_layered(txs);
    if txs.len() > 0 && (forall|a: int, b: int|
        0 <= a < b < txs.len() ==> !compete(#[trigger] txs[a], #[trigger] txs[b])) {
        let alone = seq![txs];
        assert(layered(alone)) by {
            assert forall|k: int, x: int, y: int|
                0 <= k < alone.len() && 0 <= x < y < alone[k].len() implies !compete(
                #[trigger] alone[k][x],
                #[trigger] alone[k][y],
            ) by {
                assert(alone[k][x] == txs[x]);
                assert(alone[k][y] == txs[y]);
            }
        }
        assert(all_of(alone.drop_last()) =~= seq![]);
        assert(all_of(alone) =~= txs);
        lemma_layered_is_kept(alone);
    }
}

} // verus!
