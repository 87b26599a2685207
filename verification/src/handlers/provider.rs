//! The report on the medicines that run low: for each of them the offers that
//! should be ordered, the medicines in the order of their names.

use crate::error::StoreError;
use crate::gather::{gather, lemma_gather_next, Yield};
use crate::mapping::{listings, Listing, MedicineMapEntry};
use crate::models::Medicine;
use crate::services::provider::{
    mapping_of, passed_over, texts, MedicineMapRecord, ProviderService,
};
use crate::services::stock::StockService;
use crate::sorting::{sort_by_name, sorted_by_name};
use crate::store::Tables;
use crate::AppState;
use vstd::prelude::*;

verus! {

/// One entry of the report: a medicine in stock that runs low, and the offers
/// recommended for it.
#[derive(Debug, PartialEq, Eq)]
pub struct MedicineMatchingRecord {
    /// Name of medicine from stock
    pub name: String,
    pub stock_min: i32,
    pub provider_medicines: Vec<MedicineMapRecord>,
}

/// What one entry of the report says.
pub struct Replenishment {
    pub name: Seq<char>,
    pub stock_min: int,
    pub provider_medicines: Seq<MedicineMapRecord>,
}

impl View for MedicineMatchingRecord {
    type V = Replenishment;

    open spec fn view(&self) -> Replenishment {
        Replenishment {
            name: self.name@,
            stock_min: self.stock_min as int,
            provider_medicines: self.provider_medicines@,
        }
    }
}

/// What the entries of a report say, entry by entry.
pub open spec fn replenishments(matches: Seq<MedicineMatchingRecord>) -> Seq<Replenishment> {
    Seq::new(matches.len(), |i: int| matches[i]@)
}

/// The identifiers of `medicines`, in their order.
pub open spec fn ids_of(medicines: Seq<Medicine>) -> Seq<String> {
    Seq::new(medicines.len(), |i: int| medicines[i].id)
}

/// The report entry of the medicine in stock `item` with the recommendations
/// `records`.
pub open spec fn replenishment(item: Medicine, records: Seq<MedicineMapRecord>) -> Replenishment {
    Replenishment { name: item.name@, stock_min: item.min as int, provider_medicines: records }
}

/// What an entry of the map comes to when the report is written: the report
/// entry of its medicine, or nothing where the medicine cannot be had.
pub open spec fn heading(stock: Tables) -> spec_fn(Listing) -> Yield<Replenishment> {
    |entry: Listing|
        match stock.medicine(entry.medicine_id) {
            Ok(item) => Ok(Some(replenishment(item, entry.records))),
            Err(_) => Ok(None),
        }
}

/// The report entries of the map `entries`, in the order of the map. An entry
/// whose medicine cannot be had is left out.
pub open spec fn headed(stock: Tables, entries: Seq<Listing>) -> Seq<Replenishment> {
    match gather(entries, heading(stock)) {
        Ok(matches) => matches,
        Err(_) => Seq::empty(),
    }
}

/// The report entries before they are put in the order of their names: one for
/// each medicine that runs low and has recommendations, in the order in which
/// the relation of medicines lists them.
pub open spec fn matches_of(tables: Tables, low: Seq<Medicine>) -> Seq<Replenishment> {
    headed(tables, mapping_of(tables, tables, ids_of(low)))
}

/// The report on the store `tables`: the entries of the medicines that run low
/// and have recommendations, in the order of their names. A store whose
/// medicines cannot be read has no report but a fault.
pub open spec fn report(tables: Tables) -> Result<Seq<Replenishment>, StoreError> {
    match tables.near_low_medicines() {
        Err(e) => Err(e),
        Ok(low) => Ok(sorted_by_name(matches_of(tables, low))),
    }
}

/// The identifiers of those entries of the map whose medicine cannot be had
/// when the report is written, in the order of the map.
pub open spec fn unheaded(stock: Tables, entries: Seq<Listing>) -> Seq<Seq<char>>
    decreases entries.len(),
{
    if entries.len() == 0 {
        Seq::empty()
    } else {
        let before = unheaded(stock, entries.drop_last());
        if stock.medicine(entries.last().medicine_id) is Err {
            before.push(entries.last().medicine_id)
        } else {
            before
        }
    }
}

/// The identifiers of the medicines that run low in `tables` and are passed
/// over because of a failure: first those whose recommendations cannot be
/// worked out, then those that cannot be had when the report is written.
pub open spec fn skipped(tables: Tables) -> Seq<Seq<char>> {
    match tables.near_low_medicines() {
        Err(_) => Seq::empty(),
        Ok(low) => passed_over(tables, tables, ids_of(low)) + unheaded(
            tables,
            mapping_of(tables, tables, ids_of(low)),
        ),
    }
}

/// The identifiers of `rows`, in their order.
pub(crate) fn identifiers(rows: &Vec<Medicine>) -> (ids: Vec<String>)
    ensures
        ids@ == ids_of(rows@),
{
    let mut ids: Vec<String> = Vec::new();
    let mut n: usize = 0;
    while n < rows.len()
        invariant
            n <= rows@.len(),
            ids@ == ids_of(rows@.take(n as int)),
        decreases rows@.len() - n,
    {
        ids.push(rows[n].id.clone());
        proof {
            assert(ids@ =~= ids_of(rows@.take(n as int + 1)));
        }
        n += 1;
    }
    proof {
        assert(rows@.take(n as int) =~= rows@);
    }
    ids
}

/// A copy of `records`.
pub(crate) fn copy_of(records: &Vec<MedicineMapRecord>) -> (copy: Vec<MedicineMapRecord>)
    ensures
        copy@ == records@,
{
    let mut copy: Vec<MedicineMapRecord> = Vec::new();
    let mut n: usize = 0;
    while n < records.len()
        invariant
            n <= records@.len(),
            copy@ == records@.take(n as int),
        decreases records@.len() - n,
    {
        copy.push(records[n].clone());
        proof {
            assert(copy@ =~= records@.take(n as int + 1));
        }
        n += 1;
    }
    proof {
        assert(records@.take(n as int) =~= records@);
    }
    copy
}

/// Check medicines with near low quantity and find matching from providers
pub fn provide_medicines_for_near_low(app_state: &AppState) -> (response: Result<
    Vec<MedicineMatchingRecord>,
    StoreError,
>)
    ensures
        match response {
            Ok(matches) => report(app_state.db_pool@) == Ok::<Seq<Replenishment>, StoreError>(
                replenishments(matches@),
            ),
            Err(e) => report(app_state.db_pool@) == Err::<Seq<Replenishment>, StoreError>(e),
        },
{
    match provide_medicines_for_near_low_with_skipped(app_state) {
        Ok(found) => Ok(found.0),
        Err(e) => Err(e),
    }
}

/// Writes the report as `provide_medicines_for_near_low` does, and gives beside
/// it the identifiers of the medicines that were passed over because of a
/// failure: first those whose recommendations could not be worked out, then
/// those that could not be had when the report was written.
pub fn provide_medicines_for_near_low_with_skipped(app_state: &AppState) -> (response: Result<
    (Vec<MedicineMatchingRecord>, Vec<String>),
    StoreError,
>)
    ensures
        match response {
            Ok(found) => report(app_state.db_pool@) == Ok::<Seq<Replenishment>, StoreError>(
                replenishments(found.0@),
            ) && texts(found.1@) == skipped(app_state.db_pool@),
            Err(e) => report(app_state.db_pool@) == Err::<Seq<Replenishment>, StoreError>(e),
        },
{
    let db = &app_state.db_pool;
    let stock_service = StockService::new(db);
    let provider_service = ProviderService::new(db, &stock_service);

    let near_low = match stock_service.get_near_low_medicines() {
        Err(e) => {
            return Err(e);
        },
        Ok(rows) => rows,
    };
    let medicine_ids: Vec<String> = identifiers(&near_low);

    let (matching_medicines, mut skipped) =
        provider_service.get_matching_medicines_for_list_with_skipped(medicine_ids);

    let entries: &Vec<MedicineMapEntry> = matching_medicines.entries();
    let ghost each = heading(db@);
    let ghost passed = texts(skipped@);
    let mut matches: Vec<MedicineMatchingRecord> = Vec::new();
    let mut k: usize = 0;
    proof {
        assert(replenishments(matches@) =~= Seq::<Replenishment>::empty());
        assert(listings(entries@).take(0) =~= Seq::<Listing>::empty());
        assert(passed + Seq::<Seq<char>>::empty() =~= passed);
    }
    while k < entries.len()
        invariant
            k <= entries@.len(),
            each == heading(db@),
            stock_service.tables() == db@,
            gather(listings(entries@).take(k as int), each) == Ok::<Seq<Replenishment>, StoreError>(
                replenishments(matches@),
            ),
            texts(skipped@) == passed + unheaded(db@, listings(entries@).take(k as int)),
        decreases entries@.len() - k,
    {
        proof {
            lemma_gather_next(listings(entries@), each, k as int);
            assert(listings(entries@).take(k as int + 1).drop_last() =~= listings(entries@).take(
                k as int,
            ));
        }
        let ghost before = replenishments(matches@);
        let ghost noted = texts(skipped@);
        match stock_service.get_medicine(entries[k].medicine_id.as_str()) {
            Ok(medicine) => {
                let record = MedicineMatchingRecord {
                    name: medicine.name,
                    stock_min: medicine.min,
                    provider_medicines: copy_of(&entries[k].records),
                };
                matches.push(record);
                proof {
                    assert(replenishments(matches@) =~= before.push(record@));
                }
            },
            Err(_) => {
                skipped.push(entries[k].medicine_id.clone());
                proof {
                    assert(texts(skipped@) =~= noted.push(entries@[k as int].medicine_id@));
                    assert(texts(skipped@) =~= passed + unheaded(
                        db@,
                        listings(entries@).take(k as int + 1),
                    ));
                }
            },
        }
        k += 1;
    }
    proof {
        assert(listings(entries@).take(k as int) =~= listings(entries@));
    }

    sort_by_name(&mut matches);

    Ok((matches, skipped))
}

} // verus!
