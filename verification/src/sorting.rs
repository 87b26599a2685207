//! Putting a report in the order of its names. Entries with the same name keep
//! the order in which they stood.

use crate::handlers::provider::{replenishments, MedicineMatchingRecord, Replenishment};
use crate::names::{
    lemma_name_le_reflexive, lemma_name_le_total, lemma_name_le_transitive, name_comes_first,
    name_le,
};
use vstd::prelude::*;

verus! {

/// Where an entry named `name` is put into `sorted` when it stood before all of
/// them: behind the entries whose names come strictly earlier, before all others.
pub open spec fn insertion_point(sorted: Seq<Replenishment>, name: Seq<char>) -> int
    decreases sorted.len(),
{
    if sorted.len() == 0 || name_le(name, sorted[0].name) {
        0
    } else {
        1 + insertion_point(sorted.drop_first(), name)
    }
}

/// The entries in the order of their names, entries of one name in the order in
/// which they stand in `entries`.
pub open spec fn sorted_by_name(entries: Seq<Replenishment>) -> Seq<Replenishment>
    decreases entries.len(),
{
    if entries.len() == 0 {
        entries
    } else {
        let rest = sorted_by_name(entries.drop_first());
        rest.insert(insertion_point(rest, entries[0].name), entries[0])
    }
}

/// Each entry's name comes no later than the names of the entries behind it.
pub open spec fn ordered_by_name(entries: Seq<Replenishment>) -> bool {
    forall|i: int, j: int|
        0 <= i < j < entries.len() ==> name_le(
            (#[trigger] entries[i]).name,
            (#[trigger] entries[j]).name,
        )
}

/// The insertion point lies within the sequence; every entry before it has a
/// name that comes strictly earlier, and the entry at it, if there is one, has not.
pub proof fn lemma_insertion_point(sorted: Seq<Replenishment>, name: Seq<char>)
    ensures
        0 <= insertion_point(sorted, name) <= sorted.len(),
        forall|i: int|
            0 <= i < insertion_point(sorted, name) ==> !name_le(name, (#[trigger] sorted[i]).name),
        insertion_point(sorted, name) < sorted.len() ==> name_le(
            name,
            sorted[insertion_point(sorted, name)].name,
        ),
    decreases sorted.len(),
{
    if !(sorted.len() == 0 || name_le(name, sorted[0].name)) {
        let rest = sorted.drop_first();
        lemma_insertion_point(rest, name);
        assert forall|i: int| 0 <= i < insertion_point(sorted, name) implies !name_le(
            name,
            (#[trigger] sorted[i]).name,
        ) by {
            if i > 0 {
                assert(sorted[i] == rest[i - 1]);
            }
        }
        if insertion_point(sorted, name) < sorted.len() {
            assert(sorted[insertion_point(sorted, name)] == rest[insertion_point(rest, name)]);
        }
    }
}

/// What has been sorted stands in the order of its names.
pub proof fn lemma_sorted_by_name_ordered(entries: Seq<Replenishment>)
    ensures
        ordered_by_name(sorted_by_name(entries)),
    decreases entries.len(),
{
    if entries.len() > 0 {
        let head = entries[0];
        let rest = sorted_by_name(entries.drop_first());
        let at = insertion_point(rest, head.name);
        let all = sorted_by_name(entries);
        lemma_sorted_by_name_ordered(entries.drop_first());
        lemma_insertion_point(rest, head.name);
        assert forall|i: int, j: int| 0 <= i < j < all.len() implies name_le(
            (#[trigger] all[i]).name,
            (#[trigger] all[j]).name,
        ) by {
            if j < at {
                assert(all[i] == rest[i] && all[j] == rest[j]);
            } else if j == at {
                assert(all[i] == rest[i]);
                lemma_name_le_total(head.name, rest[i].name);
            } else if i < at {
                assert(all[i] == rest[i] && all[j] == rest[j - 1]);
            } else if i == at {
                assert(all[j] == rest[j - 1]);
                if at < j - 1 {
                    lemma_name_le_transitive(head.name, rest[at].name, rest[j - 1].name);
                }
            } else {
                assert(all[i] == rest[i - 1] && all[j] == rest[j - 1]);
            }
        }
    }
}

/// Sorting neither adds an entry nor loses one.
pub proof fn lemma_sorted_by_name_permutes(entries: Seq<Replenishment>)
    ensures
        sorted_by_name(entries).to_multiset() == entries.to_multiset(),
    decreases entries.len(),
{
    broadcast use vstd::seq_lib::group_to_multiset_ensures;

    if entries.len() > 0 {
        let head = entries[0];
        let tail = entries.drop_first();
        let rest = sorted_by_name(tail);
        let at = insertion_point(rest, head.name);
        let all = sorted_by_name(entries);
        lemma_sorted_by_name_permutes(tail);
        lemma_insertion_point(rest, head.name);
        assert(all.remove(at) =~= rest);
        assert(all[at] == head);
        assert(entries.remove(0) =~= tail);
        assert(all.to_multiset().remove(head) == rest.to_multiset());
        assert(entries.to_multiset().remove(head) == tail.to_multiset());
        assert(all.contains(head));
        assert(entries.contains(head));
        assert(all.to_multiset() =~= all.to_multiset().remove(head).insert(head));
        assert(entries.to_multiset() =~= entries.to_multiset().remove(head).insert(head));
    } else {
        assert(sorted_by_name(entries) =~= entries);
    }
}

/// The entries that carry the name `name`.
pub open spec fn named(name: Seq<char>) -> spec_fn(Replenishment) -> bool {
    |entry: Replenishment| entry.name == name
}

/// Where no entry carries the name, picking the entries of that name gives nothing.
proof fn lemma_none_named(entries: Seq<Replenishment>, name: Seq<char>)
    requires
        forall|i: int| 0 <= i < entries.len() ==> (#[trigger] entries[i]).name != name,
    ensures
        entries.filter(named(name)) == Seq::<Replenishment>::empty(),
    decreases entries.len(),
{
    reveal(Seq::filter);
    if entries.len() > 0 {
        let front = entries.drop_last();
        assert forall|i: int| 0 <= i < front.len() implies (#[trigger] front[i]).name != name by {
            assert(front[i] == entries[i]);
        }
        lemma_none_named(front, name);
        assert(entries[entries.len() - 1].name != name);
    }
}

/// Sorting is stable: the entries of one name stand in what has been sorted in
/// the order in which they stood before.
pub proof fn law_sorting_is_stable(entries: Seq<Replenishment>, name: Seq<char>)
    ensures
        sorted_by_name(entries).filter(named(name)) == entries.filter(named(name)),
    decreases entries.len(),
{
    if entries.len() > 0 {
        let of_name = named(name);
        let head = entries[0];
        let tail = entries.drop_first();
        let rest = sorted_by_name(tail);
        let at = insertion_point(rest, head.name);
        let all = sorted_by_name(entries);
        let before = rest.take(at);
        let behind = rest.skip(at);
        law_sorting_is_stable(tail, name);
        lemma_insertion_point(rest, head.name);
        assert(entries =~= seq![head] + tail);
        assert(all =~= before + seq![head] + behind);
        assert(rest =~= before + behind);
        Seq::filter_distributes_over_add(seq![head], tail, of_name);
        Seq::filter_distributes_over_add(before + seq![head], behind, of_name);
        Seq::filter_distributes_over_add(before, seq![head], of_name);
        Seq::filter_distributes_over_add(before, behind, of_name);
        if head.name == name {
            assert forall|i: int| 0 <= i < before.len() implies (#[trigger] before[i]).name
                != name by {
                assert(before[i] == rest[i]);
                lemma_name_le_reflexive(name);
            }
            lemma_none_named(before, name);
            assert(before.filter(of_name) + seq![head].filter(of_name) =~= seq![head].filter(
                of_name,
            ));
            assert(before.filter(of_name) + behind.filter(of_name) =~= behind.filter(of_name));
        } else {
            lemma_none_named(seq![head], name);
            assert(before.filter(of_name) + Seq::<Replenishment>::empty() =~= before.filter(
                of_name,
            ));
            assert(Seq::<Replenishment>::empty() + tail.filter(of_name) =~= tail.filter(of_name));
        }
    }
}

/// Every entry of what has been sorted is an entry of what was to be sorted.
pub proof fn lemma_sorted_by_name_member(entries: Seq<Replenishment>, k: int)
    requires
        0 <= k < sorted_by_name(entries).len(),
    ensures
        entries.contains(sorted_by_name(entries)[k]),
{
    broadcast use vstd::seq_lib::group_to_multiset_ensures;

    let sorted = sorted_by_name(entries);
    lemma_sorted_by_name_permutes(entries);
    assert(sorted.contains(sorted[k]));
    assert(sorted.to_multiset().count(sorted[k]) > 0);
}

/// Every entry of what was to be sorted is an entry of what has been sorted.
pub proof fn lemma_sorted_by_name_keeps(entries: Seq<Replenishment>, k: int)
    requires
        0 <= k < entries.len(),
    ensures
        sorted_by_name(entries).contains(entries[k]),
{
    broadcast use vstd::seq_lib::group_to_multiset_ensures;

    lemma_sorted_by_name_permutes(entries);
    assert(entries.contains(entries[k]));
    assert(entries.to_multiset().count(entries[k]) > 0);
}

/// Puts `matches` in the order of their names. Entries with the same name keep
/// the order in which they stood.
pub fn sort_by_name(matches: &mut Vec<MedicineMatchingRecord>)
    ensures
        replenishments(final(matches)@) == sorted_by_name(replenishments(old(matches)@)),
{
    let ghost unsorted = replenishments(matches@);
    let mut waiting: Vec<MedicineMatchingRecord> = Vec::new();
    std::mem::swap(&mut waiting, matches);
    proof {
        assert(unsorted.skip(unsorted.len() as int) =~= Seq::<Replenishment>::empty());
        assert(replenishments(matches@) =~= Seq::<Replenishment>::empty());
    }
    while waiting.len() > 0
        invariant
            waiting@.len() <= unsorted.len(),
            replenishments(waiting@) == unsorted.take(waiting@.len() as int),
            replenishments(matches@) == sorted_by_name(unsorted.skip(waiting@.len() as int)),
        decreases waiting@.len(),
    {
        let ghost sorted = replenishments(matches@);
        let ghost before = waiting@;
        let record = waiting.pop().unwrap();
        proof {
            let left = waiting@.len() as int;
            assert(replenishments(before)[left] == record@);
            assert(unsorted[left] == record@);
            assert(unsorted.skip(left).drop_first() =~= unsorted.skip(left + 1));
            assert(replenishments(waiting@) =~= unsorted.take(left));
            lemma_insertion_point(sorted, record@.name);
            assert(sorted.skip(0) =~= sorted);
        }
        let mut at: usize = 0;
        while at < matches.len() && !name_comes_first(
            record.name.as_str(),
            matches[at].name.as_str(),
        )
            invariant
                at <= matches@.len(),
                sorted == replenishments(matches@),
                insertion_point(sorted, record@.name) == at + insertion_point(
                    sorted.skip(at as int),
                    record@.name,
                ),
            decreases matches@.len() - at,
        {
            proof {
                assert(sorted[at as int] == matches@[at as int]@);
                assert(sorted.skip(at as int).drop_first() =~= sorted.skip(at as int + 1));
            }
            at += 1;
        }
        proof {
            if at < matches@.len() {
                assert(sorted[at as int] == matches@[at as int]@);
            }
            assert(insertion_point(sorted, record@.name) == at);
        }
        matches.insert(at, record);
        proof {
            assert(replenishments(matches@) =~= sorted.insert(at as int, record@));
        }
    }
    proof {
        assert(unsorted.skip(0) =~= unsorted);
    }
}

} // verus!
