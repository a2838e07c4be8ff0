//! Lists of names.

use crate::sums::views;
use crate::text::same_text;
use vstd::prelude::*;

verus! {

/// Names together with those of a second list that are not among them yet.
pub open spec fn merged(names: Seq<Seq<char>>, more: Seq<Seq<char>>) -> Seq<Seq<char>>
    decreases more.len(),
{
    if more.len() == 0 {
        names
    } else {
        let held = merged(names, more.drop_last());
        if held.contains(more.last()) {
            held
        } else {
            held.push(more.last())
        }
    }
}

/// Whether a list holds a name.
pub fn holds_name(names: &Vec<String>, name: &str) -> (found: bool)
    ensures
        found == views(names@).contains(name@),
{
    let mut i: usize = 0;
    while i < names.len()
        invariant
            i <= names@.len(),
            forall|j: int| 0 <= j < i ==> (#[trigger] views(names@)[j]) != name@,
        decreases names@.len() - i,
    {
        assert(views(names@)[i as int] == names@[i as int]@);
        if same_text(names[i].as_str(), name) {
            return true;
        }
        i = i + 1;
    }
    false
}

/// Joins two lists of names; those that are there already are not repeated.
pub fn merge(names: Vec<String>, more: &Vec<String>) -> (all: Vec<String>)
    ensures
        views(all@) == merged(views(names@), views(more@)),
{
    let ghost first = views(names@);
    let ghost second = views(more@);
    let mut all = names;
    let mut i: usize = 0;
    while i < more.len()
        invariant
            i <= more@.len(),
            second == views(more@),
            views(all@) == merged(first, second.take(i as int)),
        decreases more@.len() - i,
    {
        proof {
            assert(second.take(i + 1).drop_last() =~= second.take(i as int));
            assert(second.take(i + 1).last() == more@[i as int]@);
        }
        if !holds_name(&all, more[i].as_str()) {
            let ghost held = views(all@);
            let name = more[i].clone();
            all.push(name);
            assert(views(all@) =~= held.push(name@));
        }
        i = i + 1;
    }
    assert(second.take(i as int) =~= second);
    all
}

/// The joined list holds the names of both.
pub proof fn lemma_merged_contains(names: Seq<Seq<char>>, more: Seq<Seq<char>>)
    ensures
        forall|name: Seq<char>| #[trigger]
            merged(names, more).contains(name) <==> names.contains(name) || more.contains(name),
    decreases more.len(),
{
    if more.len() > 0 {
        let front = more.drop_last();
        lemma_merged_contains(names, front);
        let held = merged(names, front);
        assert(front.push(more.last()) =~= more);
        assert forall|name: Seq<char>| #[trigger]
            merged(names, more).contains(name) <==> names.contains(name) || more.contains(name) by {
            lemma_push_contains(front, more.last(), name);
            lemma_push_contains(held, more.last(), name);
            assert(held.contains(name) <==> names.contains(name) || front.contains(name));
        }
    }
}

proof fn lemma_push_contains(names: Seq<Seq<char>>, last: Seq<char>, name: Seq<char>)
    ensures
        names.push(last).contains(name) <==> names.contains(name) || last == name,
{
    let longer = names.push(last);
    if names.contains(name) {
        let i = choose|i: int| 0 <= i < names.len() && names[i] == name;
        assert(longer[i] == name);
    }
    if last == name {
        assert(longer[names.len() as int] == name);
    }
    if longer.contains(name) {
        let i = choose|i: int| 0 <= i < longer.len() && longer[i] == name;
        if i < names.len() {
            assert(names[i] == name);
        }
    }
}

proof fn lemma_merged_distinct(names: Seq<Seq<char>>, more: Seq<Seq<char>>)
    requires
        names.no_duplicates(),
    ensures
        merged(names, more).no_duplicates(),
    decreases more.len(),
{
    if more.len() > 0 {
        lemma_merged_distinct(names, more.drop_last());
    }
}

/// How many different names a list holds.
pub fn count_distinct(names: &Vec<String>) -> (count: usize)
    ensures
        count == views(names@).to_set().len(),
{
    let none: Vec<String> = Vec::new();
    let ghost all = views(names@);
    assert(views(none@) =~= seq![]);
    let distinct = merge(none, names);
    proof {
        let found = views(distinct@);
        lemma_merged_distinct(seq![], all);
        lemma_merged_contains(seq![], all);
        assert forall|name: Seq<char>| found.to_set().contains(name) <==> all.to_set().contains(
            name,
        ) by {
            assert(found.contains(name) <==> all.contains(name));
        }
        assert(found.to_set() =~= all.to_set());
        found.unique_seq_to_set();
    }
    distinct.len()
}

} // verus!
