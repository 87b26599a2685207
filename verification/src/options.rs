//! What a caller may choose about a report. A report as it is written may hold
//! recommendations to order nothing, or less than nothing, where the stock of a
//! medicine is at its maximum or above it. They are left out only where the
//! caller says so.

use crate::handlers::provider::{replenishments, MedicineMatchingRecord, Replenishment};
use crate::names::name_le;
use crate::services::provider::MedicineMapRecord;
use crate::sorting::ordered_by_name;
use vstd::prelude::*;

verus! {

/// The choices of a caller.
#[derive(Clone, Copy, Debug, PartialEq, Eq)]
pub struct ReportOptions {
    /// Whether recommendations with a quantity of zero or less are left out.
    pub filter_non_positive_quantities: bool,
}

impl Default for ReportOptions {
    /// Nothing is left out.
    fn default() -> (options: Self)
        ensures
            !options.filter_non_positive_quantities,
    {
        ReportOptions { filter_non_positive_quantities: false }
    }
}

/// The recommendations that ask for at least one unit.
pub open spec fn positive() -> spec_fn(MedicineMapRecord) -> bool {
    |record: MedicineMapRecord| record.quantity_to_order > 0
}

/// The entry with only those of its recommendations that ask for at least one unit.
pub open spec fn purged(entry: Replenishment) -> Replenishment {
    Replenishment { provider_medicines: entry.provider_medicines.filter(positive()), ..entry }
}

/// The entries with only the recommendations that ask for at least one unit, in
/// their order. An entry that is left without recommendations is left out.
pub open spec fn without_non_positive(entries: Seq<Replenishment>) -> Seq<Replenishment>
    decreases entries.len(),
{
    if entries.len() == 0 {
        entries
    } else {
        let before = without_non_positive(entries.drop_last());
        let last = purged(entries.last());
        if last.provider_medicines.len() > 0 {
            before.push(last)
        } else {
            before
        }
    }
}

impl ReportOptions {
    /// The report as the caller has chosen it.
    pub open spec fn applied(self, entries: Seq<Replenishment>) -> Seq<Replenishment> {
        if self.filter_non_positive_quantities {
            without_non_positive(entries)
        } else {
            entries
        }
    }

    /// Gives the report as the caller has chosen it: as it is, or without the
    /// recommendations of zero or less and the entries that are left empty.
    pub fn apply(&self, matches: Vec<MedicineMatchingRecord>) -> (chosen: Vec<MedicineMatchingRecord>)
        ensures
            replenishments(chosen@) == self.applied(replenishments(matches@)),
    {
        if !self.filter_non_positive_quantities {
            return matches;
        }
        let mut chosen: Vec<MedicineMatchingRecord> = Vec::new();
        let mut k: usize = 0;
        proof {
            assert(replenishments(matches@).take(0) =~= Seq::<Replenishment>::empty());
            assert(replenishments(chosen@) =~= Seq::<Replenishment>::empty());
        }
        while k < matches.len()
            invariant
                k <= matches@.len(),
                replenishments(chosen@) == without_non_positive(
                    replenishments(matches@).take(k as int),
                ),
            decreases matches@.len() - k,
        {
            let ghost before = replenishments(chosen@);
            let kept = positive_records(&matches[k].provider_medicines);
            proof {
                let upto = replenishments(matches@).take(k as int + 1);
                assert(upto.drop_last() =~= replenishments(matches@).take(k as int));
                assert(upto.last() == matches@[k as int]@);
            }
            if kept.len() > 0 {
                let entry = MedicineMatchingRecord {
                    name: matches[k].name.clone(),
                    stock_min: matches[k].stock_min,
                    provider_medicines: kept,
                };
                proof {
                    assert(replenishments(chosen@.push(entry)) =~= before.push(entry@));
                }
                chosen.push(entry);
            }
            k += 1;
        }
        proof {
            assert(replenishments(matches@).take(k as int) =~= replenishments(matches@));
        }
        chosen
    }
}

/// Those of `records` that ask for at least one unit, in their order.
fn positive_records(records: &Vec<MedicineMapRecord>) -> (kept: Vec<MedicineMapRecord>)
    ensures
        kept@ == records@.filter(positive()),
{
    let mut kept: Vec<MedicineMapRecord> = Vec::new();
    let mut n: usize = 0;
    proof {
        reveal(Seq::filter);
    }
    while n < records.len()
        invariant
            n <= records@.len(),
            kept@ == records@.take(n as int).filter(positive()),
        decreases records@.len() - n,
    {
        proof {
            reveal(Seq::filter);
            assert(records@.take(n as int + 1).drop_last() =~= records@.take(n as int));
        }
        if records[n].quantity_to_order > 0 {
            kept.push(records[n].clone());
        }
        n += 1;
    }
    proof {
        assert(records@.take(n as int) =~= records@);
    }
    kept
}

/// In a report from which the recommendations of zero or less are left out,
/// every entry has a recommendation and every recommendation asks for at least
/// one unit.
pub proof fn law_filtered_report_orders_something(entries: Seq<Replenishment>, k: int, n: int)
    requires
        0 <= k < without_non_positive(entries).len(),
    ensures
        without_non_positive(entries)[k].provider_medicines.len() > 0,
        0 <= n < without_non_positive(entries)[k].provider_medicines.len()
            ==> without_non_positive(entries)[k].provider_medicines[n].quantity_to_order > 0,
    decreases entries.len(),
{
    let before = without_non_positive(entries.drop_last());
    if k < before.len() {
        law_filtered_report_orders_something(entries.drop_last(), k, n);
    } else if 0 <= n < without_non_positive(entries)[k].provider_medicines.len() {
        entries.last().provider_medicines.lemma_filter_pred(positive(), n);
    }
}

/// Every entry of a report from which the recommendations of zero or less are
/// left out is an entry of the report as it was written, with those of its
/// recommendations that ask for at least one unit.
pub proof fn law_filtered_report_keeps_entries(entries: Seq<Replenishment>, k: int)
    requires
        0 <= k < without_non_positive(entries).len(),
    ensures
        exists|i: int|
            0 <= i < entries.len() && without_non_positive(entries)[k] == purged(
                #[trigger] entries[i],
            ),
    decreases entries.len(),
{
    let front = entries.drop_last();
    let before = without_non_positive(front);
    if k < before.len() {
        law_filtered_report_keeps_entries(front, k);
        let i = choose|i: int|
            0 <= i < front.len() && before[k] == purged(#[trigger] front[i]);
        assert(entries[i] == front[i]);
    } else {
        assert(without_non_positive(entries)[k] == purged(entries[entries.len() - 1]));
    }
}

/// A report in the order of its names stays in that order when the
/// recommendations of zero or less are left out.
pub proof fn law_filtered_report_stays_ordered(entries: Seq<Replenishment>)
    requires
        ordered_by_name(entries),
    ensures
        ordered_by_name(without_non_positive(entries)),
    decreases entries.len(),
{
    if entries.len() > 0 {
        let front = entries.drop_last();
        let before = without_non_positive(front);
        let after = without_non_positive(entries);
        assert forall|i: int, j: int| 0 <= i < j < front.len() implies name_le(
            (#[trigger] front[i]).name,
            (#[trigger] front[j]).name,
        ) by {
            assert(front[i] == entries[i] && front[j] == entries[j]);
        }
        law_filtered_report_stays_ordered(front);
        assert forall|i: int, j: int| 0 <= i < j < after.len() implies name_le(
            (#[trigger] after[i]).name,
            (#[trigger] after[j]).name,
        ) by {
            if j < before.len() {
                assert(after[i] == before[i] && after[j] == before[j]);
            } else {
                law_filtered_report_keeps_entries(front, i);
                let at = choose|at: int|
                    0 <= at < front.len() && before[i] == purged(#[trigger] front[at]);
                assert(front[at] == entries[at]);
                assert(name_le(entries[at].name, entries[entries.len() - 1].name));
            }
        }
    }
}

} // verus!
