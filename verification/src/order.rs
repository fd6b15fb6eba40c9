//! Ascending lists of numbers.

use std::collections::HashSet;
use vstd::prelude::*;

verus! {

/// Each number is greater than the one before it.
pub open spec fn strictly_ascending(list: Seq<u32>) -> bool {
    forall|i: int, j: int| 0 <= i < j < list.len() ==> list[i] < list[j]
}

/// The numbers of a set in ascending order.
pub open spec fn ascending(set: Set<u32>) -> Seq<u32> {
    choose|list: Seq<u32>| #[trigger] strictly_ascending(list) && list.to_set() == set
}

/// A set has one ascending list of its numbers.
pub proof fn lemma_ascending_unique(left: Seq<u32>, right: Seq<u32>)
    requires
        strictly_ascending(left),
        strictly_ascending(right),
        left.to_set() == right.to_set(),
    ensures
        left == right,
    decreases left.len(),
{
    if left.len() == 0 {
        if right.len() > 0 {
            assert(right.to_set().contains(right[0]));
            assert(left.to_set().contains(right[0]));
        }
        assert(left =~= right);
    } else {
        assert(left.to_set().contains(left.last()));
        assert(right.contains(left.last()));
        assert(right.to_set().contains(right.last()));
        assert(left.contains(right.last()));
        let at = choose|i: int| 0 <= i < right.len() && right[i] == left.last();
        let back = choose|i: int| 0 <= i < left.len() && left[i] == right.last();
        assert(left.last() == right.last());
        let shorter_left = left.drop_last();
        let shorter_right = right.drop_last();
        assert(shorter_left.to_set() =~= shorter_right.to_set()) by {
            assert forall|number: u32| shorter_left.contains(number) implies shorter_right.contains(
                number,
            ) by {
                let i = choose|i: int| 0 <= i < shorter_left.len() && shorter_left[i] == number;
                assert(left[i] == number);
                assert(left.to_set().contains(number));
                assert(right.contains(number));
                let j = choose|j: int| 0 <= j < right.len() && right[j] == number;
                assert(shorter_right[j] == number);
            }
            assert forall|number: u32| shorter_right.contains(number) implies shorter_left.contains(
                number,
            ) by {
                let i = choose|i: int| 0 <= i < shorter_right.len() && shorter_right[i] == number;
                assert(right[i] == number);
                assert(right.to_set().contains(number));
                assert(left.contains(number));
                let j = choose|j: int| 0 <= j < left.len() && left[j] == number;
                assert(shorter_left[j] == number);
            }
        }
        lemma_ascending_unique(shorter_left, shorter_right);
        assert(left =~= shorter_left.push(left.last()));
        assert(right =~= shorter_right.push(right.last()));
    }
}

/// An ascending list is the list of its numbers.
pub proof fn lemma_ascending_is(list: Seq<u32>, set: Set<u32>)
    requires
        strictly_ascending(list),
        list.to_set() == set,
    ensures
        ascending(set) == list,
        strictly_ascending(ascending(set)),
        ascending(set).to_set() == set,
{
    assert(exists|other: Seq<u32>|
        #[trigger] strictly_ascending(other) && other.to_set() == set);
    lemma_ascending_unique(ascending(set), list);
}

/// What a list with one more number holds.
pub proof fn lemma_push_contains(list: Seq<u32>, last: u32, number: u32)
    ensures
        list.push(last).contains(number) <==> list.contains(number) || number == last,
{
    if list.contains(number) {
        let i = choose|i: int| 0 <= i < list.len() && list[i] == number;
        assert(list.push(last)[i] == number);
    }
    assert(list.push(last)[list.len() as int] == last);
}

/// The numbers of the first places and one more.
pub proof fn lemma_take_set(list: Seq<u32>, count: int)
    requires
        0 <= count < list.len(),
    ensures
        list.take(count + 1).to_set() == list.take(count).to_set().insert(list[count]),
{
    let shorter = list.take(count);
    assert(list.take(count + 1) =~= shorter.push(list[count]));
    assert(shorter.push(list[count]).to_set() =~= shorter.to_set().insert(list[count])) by {
        let longer = shorter.push(list[count]);
        assert forall|number: u32| #[trigger] longer.contains(number) == (shorter.contains(number)
            || number == list[count]) by {
            lemma_push_contains(shorter, list[count], number);
        }
        assert forall|number: u32| longer.to_set().contains(number) == shorter.to_set().insert(
            list[count],
        ).contains(number) by {
            assert(longer.to_set().contains(number) == longer.contains(number));
            assert(shorter.to_set().contains(number) == shorter.contains(number));
        }
    }
}

/// Puts a number into an ascending list, unless it is there already.
pub fn insert_ascending(list: &mut Vec<u32>, number: u32)
    requires
        strictly_ascending(old(list)@),
    ensures
        strictly_ascending(final(list)@),
        final(list)@.to_set() == old(list)@.to_set().insert(number),
{
    let ghost before = list@;
    let mut low: usize = 0;
    let mut high: usize = list.len();
    while low < high
        invariant
            low <= high <= list@.len(),
            list@ == before,
            strictly_ascending(before),
            forall|i: int| 0 <= i < low ==> before[i] < number,
            forall|i: int| high <= i < before.len() ==> before[i] >= number,
        decreases high - low,
    {
        let middle: usize = low + (high - low) / 2;
        if list[middle] < number {
            low = middle + 1;
        } else {
            high = middle;
        }
    }
    if low < list.len() && list[low] == number {
        proof {
            assert(before.contains(number));
            assert(before.to_set().insert(number) =~= before.to_set());
        }
    } else {
        list.insert(low, number);
        proof {
            let after = list@;
            assert(after =~= before.insert(low as int, number));
            assert(after.to_set() =~= before.to_set().insert(number)) by {
                assert(after[low as int] == number);
                assert forall|other: u32| before.contains(other) implies after.contains(other) by {
                    let i = choose|i: int| 0 <= i < before.len() && before[i] == other;
                    if i < low {
                        assert(after[i] == other);
                    } else {
                        assert(after[i + 1] == other);
                    }
                }
                assert forall|other: u32| after.contains(other) && other != number implies
                    before.contains(other) by {
                    let i = choose|i: int| 0 <= i < after.len() && after[i] == other;
                    if i < low {
                        assert(before[i] == other);
                    } else {
                        assert(before[i - 1] == other);
                    }
                }
            }
        }
    }
}

/// The numbers of a list in ascending order, each once.
pub fn sorted_unique(list: &[u32]) -> (sorted: Vec<u32>)
    ensures
        sorted@ == ascending(list@.to_set()),
        strictly_ascending(sorted@),
        sorted@.to_set() == list@.to_set(),
{
    let mut sorted: Vec<u32> = Vec::new();
    let mut i: usize = 0;
    assert(sorted@.to_set() =~= list@.take(0).to_set());
    while i < list.len()
        invariant
            i <= list@.len(),
            strictly_ascending(sorted@),
            sorted@.to_set() == list@.take(i as int).to_set(),
        decreases list.len() - i,
    {
        insert_ascending(&mut sorted, list[i]);
        proof {
            lemma_take_set(list@, i as int);
        }
        i += 1;
    }
    proof {
        assert(list@.take(list@.len() as int) =~= list@);
        lemma_ascending_is(sorted@, list@.to_set());
    }
    sorted
}

/// The numbers of a set in ascending order.
pub fn sorted_set(set: &HashSet<u32>) -> (sorted: Vec<u32>)
    ensures
        sorted@ == ascending(set@),
        strictly_ascending(sorted@),
        sorted@.to_set() == set@,
{
    broadcast use vstd::std_specs::hash::group_hash_axioms;
    let mut all: Vec<u32> = Vec::new();
    for number in iter: set.iter()
        invariant
            all@ == iter.seq().unref().take(iter.index() as int),
            iter.seq().unref().to_set() == set@,
            iter.index() == iter.seq().len() ==> all@ == iter.seq().unref(),
            iter.index() == iter.seq().len() ==> all@.to_set() == set@,
    {
        proof {
            assert(iter.seq().unref().take(iter.index() as int).push(*number)
                =~= iter.seq().unref().take(iter.index() as int + 1));
            assert(iter.seq().unref().take(iter.seq().len() as int) =~= iter.seq().unref());
        }
        all.push(*number);
    }
    assert(all@.to_set() =~= set@);
    sorted_unique(all.as_slice())
}

} // verus!
