//! What holds of every report, whatever the store holds.

use crate::error::StoreError;
use crate::gather::{
    lemma_gather_kept, lemma_gather_keeps, lemma_gather_keeps_all, lemma_gather_keeps_none,
    lemma_gather_total,
};
use crate::handlers::provider::{
    heading, ids_of, matches_of, report, skipped, unheaded, Replenishment,
};
use crate::mapping::{distinct_keys, lemma_put_keeps_distinct, Listing};
use crate::models::{Medicine, MedicineFromProvider, MedicineToMedicineFromProviderRecord};
use crate::services::provider::{
    mapping_of, matching_medicines, offer_without_orders, order_quantity, passed_over,
    recommendations, recommended, MedicineMapRecord,
};
use crate::sorting::{
    lemma_sorted_by_name_keeps, lemma_sorted_by_name_member, lemma_sorted_by_name_ordered,
    ordered_by_name,
};
use crate::store::{keyed_by, lemma_first_keyed, lemma_first_keyed_at, near_low, Tables};
use vstd::prelude::*;

verus! {

/// The map of recommendations from which the report on `tables` is written.
pub open spec fn entered(tables: Tables) -> Seq<Listing> {
    match tables.near_low_medicines() {
        Ok(low) => mapping_of(tables, tables, ids_of(low)),
        Err(_) => Seq::empty(),
    }
}

/// `entry` is entered for one of the medicines `ids`, with the recommendations
/// of that medicine.
pub open spec fn entered_for(stock: Tables, store: Tables, ids: Seq<String>, entry: Listing) -> bool {
    &&& exists|j: int| 0 <= j < ids.len() && (#[trigger] ids[j])@ == entry.medicine_id
    &&& recommendations(stock, store, entry.medicine_id) == Ok::<
        Option<Seq<MedicineMapRecord>>,
        StoreError,
    >(Some(entry.records))
}

/// `entry` is the report's entry of the medicine in stock `item`: it carries the
/// item's name and minimum, and the item's recommendations.
pub open spec fn reported_for(tables: Tables, item: Medicine, entry: Replenishment) -> bool {
    &&& entry.name == item.name@
    &&& entry.stock_min == item.min
    &&& recommendations(tables, tables, item.id@) == Ok::<
        Option<Seq<MedicineMapRecord>>,
        StoreError,
    >(Some(entry.provider_medicines))
}

/// `record` recommends, for the medicine in stock `id`, an offer that a link of
/// that medicine leads to, for which no order is outstanding, under the name of
/// the offer's provider and in the quantity that the medicine's row calls for.
pub open spec fn sound_record(stock: Tables, store: Tables, id: Seq<char>, record: MedicineMapRecord) -> bool {
    &&& exists|link: MedicineToMedicineFromProviderRecord|
        store.links is Some && #[trigger] store.links->Some_0.contains(link) && link.medicine_id@
            == id && store.offer(link.medicine_from_provider_id@) == Ok::<
            MedicineFromProvider,
            StoreError,
        >(record.medicine)
    &&& store.open_orders(record.medicine.id@) == Ok::<nat, StoreError>(0nat)
    &&& store.provider(record.medicine.provider_id@) matches Ok(provider) && record.provider.name
        == provider.name
    &&& stock.medicine(id) matches Ok(item) && record.quantity_to_order == order_quantity(
        item,
        record.medicine,
    )
}

/// Every entry of the map that results from going through `ids` is entered for
/// one of them, with that medicine's recommendations, and no identifier has two
/// entries.
pub proof fn lemma_mapping_entries(stock: Tables, store: Tables, ids: Seq<String>)
    ensures
        distinct_keys(mapping_of(stock, store, ids)),
        forall|k: int|
            0 <= k < mapping_of(stock, store, ids).len() ==> entered_for(
                stock,
                store,
                ids,
                #[trigger] mapping_of(stock, store, ids)[k],
            ),
    decreases ids.len(),
{
    if ids.len() > 0 {
        let front = ids.drop_last();
        let before = mapping_of(stock, store, front);
        let after = mapping_of(stock, store, ids);
        let id = ids.last()@;
        lemma_mapping_entries(stock, store, front);
        lemma_first_keyed(before, id);
        let found = recommendations(stock, store, id);
        match found {
            Ok(Some(records)) => {
                lemma_put_keeps_distinct(before, Listing { medicine_id: id, records });
            },
            _ => {},
        }
        assert forall|k: int| 0 <= k < after.len() implies entered_for(
            stock,
            store,
            ids,
            #[trigger] after[k],
        ) by {
            let fresh = found matches Ok(Some(records)) && after[k] == (Listing {
                medicine_id: id,
                records,
            });
            if fresh {
                assert(ids[ids.len() - 1]@ == after[k].medicine_id);
            } else {
                assert(after[k] == before[k]);
                assert(entered_for(stock, store, front, before[k]));
                let j = choose|j: int|
                    0 <= j < front.len() && (#[trigger] front[j])@ == before[k].medicine_id;
                assert(ids[j] == front[j]);
            }
        }
    }
}

/// A medicine among `ids` that has recommendations has an entry in the map that
/// results from going through `ids`.
pub proof fn lemma_mapping_complete(stock: Tables, store: Tables, ids: Seq<String>, j: int)
    requires
        0 <= j < ids.len(),
        recommendations(stock, store, ids[j]@) matches Ok(Some(_)),
    ensures
        exists|k: int|
            0 <= k < mapping_of(stock, store, ids).len() && (#[trigger] mapping_of(
                stock,
                store,
                ids,
            )[k]).medicine_id == ids[j]@,
    decreases ids.len(),
{
    let front = ids.drop_last();
    let before = mapping_of(stock, store, front);
    let after = mapping_of(stock, store, ids);
    let id = ids.last()@;
    lemma_first_keyed(before, id);
    if j < front.len() {
        assert(front[j] == ids[j]);
        lemma_mapping_complete(stock, store, front, j);
        let k = choose|k: int|
            0 <= k < before.len() && (#[trigger] before[k]).medicine_id == front[j]@;
        assert(after[k].medicine_id == ids[j]@);
    } else {
        match crate::store::first_keyed(before, id) {
            Some(at) => {
                assert(after[at].medicine_id == ids[j]@);
            },
            None => {
                assert(after[before.len() as int].medicine_id == ids[j]@);
            },
        }
    }
}

/// Each row that the scan for medicines that run low gives is a row of the
/// relation and runs low; where identifiers are the rows' own, looking up its
/// identifier gives that row again.
pub proof fn lemma_near_low_rows(tables: Tables, j: int)
    requires
        tables.near_low_medicines() is Ok,
        0 <= j < tables.near_low_medicines()->Ok_0.len(),
    ensures
        tables.near_low_medicines()->Ok_0[j].near_low(),
        tables.holds(tables.near_low_medicines()->Ok_0[j]),
        tables.medicines_distinct() ==> tables.medicine(tables.near_low_medicines()->Ok_0[j].id@)
            == Ok::<Medicine, StoreError>(tables.near_low_medicines()->Ok_0[j]),
{
    let rows = tables.medicines->Some_0;
    let low = rows.filter(near_low());
    rows.lemma_filter_pred(near_low(), j);
    assert(low.contains(low[j]));
    rows.lemma_filter_contains_rev(near_low(), low[j]);
    if tables.medicines_distinct() {
        lemma_row_found_again(tables, low[j]);
    }
}

/// Where identifiers are the rows' own, looking up the identifier of a row of
/// the relation of medicines gives that row.
pub proof fn lemma_row_found_again(tables: Tables, item: Medicine)
    requires
        tables.medicines_distinct(),
        tables.holds(item),
    ensures
        tables.medicine(item.id@) == Ok::<Medicine, StoreError>(item),
{
    let rows = tables.medicines->Some_0;
    let at = choose|at: int| 0 <= at < rows.len() && rows[at] == item;
    lemma_first_keyed_at(rows, item.id@, at);
}

/// Each recommendation of a medicine in stock is sound: the offer is linked to
/// the medicine and has no outstanding order, the provider's name is that of
/// the offer's provider, and the quantity is the one the rule gives.
pub proof fn lemma_recommendations_sound(stock: Tables, store: Tables, id: Seq<char>, n: int)
    requires
        recommendations(stock, store, id) matches Ok(Some(records)) && 0 <= n < records.len(),
    ensures
        sound_record(stock, store, id, recommendations(stock, store, id)->Ok_0->Some_0[n]),
{
    let links = store.links_of(id)->Ok_0;
    let offers = matching_medicines(stock, store, id)->Ok_0;
    let records = recommendations(stock, store, id)->Ok_0->Some_0;
    lemma_gather_kept(offers, recommended(stock, store, id), n);
    let i = choose|i: int|
        0 <= i < offers.len() && #[trigger] recommended(stock, store, id)(offers[i]) == Ok::<
            Option<MedicineMapRecord>,
            StoreError,
        >(Some(records[n]));
    assert(records[n].medicine == offers[i]);
    lemma_gather_kept(links, offer_without_orders(store), i);
    let l = choose|l: int|
        0 <= l < links.len() && #[trigger] offer_without_orders(store)(links[l]) == Ok::<
            Option<MedicineFromProvider>,
            StoreError,
        >(Some(offers[i]));
    let rows = store.links->Some_0;
    let linked = keyed_by::<MedicineToMedicineFromProviderRecord>(id);
    rows.lemma_filter_pred(linked, l);
    assert(rows.filter(linked).contains(links[l]));
    rows.lemma_filter_contains_rev(linked, links[l]);
    assert(rows.contains(links[l]));
}

/// The recommendations of a medicine in stock, where it has any, are at least one.
pub proof fn lemma_recommendations_not_empty(stock: Tables, store: Tables, id: Seq<char>)
    requires
        recommendations(stock, store, id) matches Ok(Some(_)),
    ensures
        recommendations(stock, store, id)->Ok_0->Some_0.len() > 0,
{
    let offers = matching_medicines(stock, store, id)->Ok_0;
    let each = recommended(stock, store, id);
    assert forall|i: int| 0 <= i < offers.len() implies (#[trigger] each(offers[i])) != Ok::<
        Option<MedicineMapRecord>,
        StoreError,
    >(None) by {}
    lemma_gather_keeps_all(offers, each);
}

/// Every entry of the report is written from an entry of the map of
/// recommendations: it carries that entry's recommendations, and the name and
/// minimum of the medicine that the entry's identifier leads to.
pub proof fn lemma_report_from_listed(tables: Tables, k: int)
    requires
        report(tables) is Ok,
        0 <= k < report(tables)->Ok_0.len(),
    ensures
        exists|i: int|
            0 <= i < entered(tables).len() && heading(tables)(#[trigger] entered(tables)[i]) == Ok::<
                Option<Replenishment>,
                StoreError,
            >(Some(report(tables)->Ok_0[k])),
{
    let low = tables.near_low_medicines()->Ok_0;
    let entries = entered(tables);
    let matches = matches_of(tables, low);
    let entry = report(tables)->Ok_0[k];
    lemma_sorted_by_name_member(matches, k);
    let at = choose|at: int| 0 <= at < matches.len() && matches[at] == entry;
    lemma_gather_kept(entries, heading(tables), at);
}

/// Every entry of the report is the entry of a medicine in stock that runs low,
/// and carries that medicine's recommendations, which are at least one.
///
/// It is stated of a store in which the identifier of a medicine is its own.
pub proof fn law_report_entries_are_for_low_stock(tables: Tables, k: int)
    requires
        tables.medicines_distinct(),
        report(tables) is Ok,
        0 <= k < report(tables)->Ok_0.len(),
    ensures
        exists|item: Medicine|
            #[trigger] tables.holds(item) && item.near_low() && reported_for(
                tables,
                item,
                report(tables)->Ok_0[k],
            ),
        report(tables)->Ok_0[k].provider_medicines.len() > 0,
{
    let low = tables.near_low_medicines()->Ok_0;
    let ids = ids_of(low);
    let entries = entered(tables);
    let entry = report(tables)->Ok_0[k];
    lemma_report_from_listed(tables, k);
    let i = choose|i: int|
        0 <= i < entries.len() && heading(tables)(#[trigger] entries[i]) == Ok::<
            Option<Replenishment>,
            StoreError,
        >(Some(entry));
    lemma_mapping_entries(tables, tables, ids);
    assert(entered_for(tables, tables, ids, entries[i]));
    let j = choose|j: int| 0 <= j < ids.len() && (#[trigger] ids[j])@ == entries[i].medicine_id;
    lemma_near_low_rows(tables, j);
    lemma_recommendations_not_empty(tables, tables, entries[i].medicine_id);
    assert(tables.holds(low[j]) && low[j].near_low() && reported_for(tables, low[j], entry));
}

/// A medicine in stock whose quantity is above its alert threshold has no
/// entry in the map of recommendations, from which the report is written.
///
/// It is stated of a store in which the identifier of a medicine is its own.
pub proof fn law_above_alert_is_not_listed(tables: Tables, item: Medicine, k: int)
    requires
        tables.medicines_distinct(),
        tables.holds(item),
        item.quantity > item.alert,
        0 <= k < entered(tables).len(),
    ensures
        entered(tables)[k].medicine_id != item.id@,
{
    let low = tables.near_low_medicines()->Ok_0;
    let ids = ids_of(low);
    let entries = entered(tables);
    lemma_mapping_entries(tables, tables, ids);
    assert(entered_for(tables, tables, ids, entries[k]));
    let j = choose|j: int| 0 <= j < ids.len() && (#[trigger] ids[j])@ == entries[k].medicine_id;
    lemma_near_low_rows(tables, j);
    if entries[k].medicine_id == item.id@ {
        lemma_row_found_again(tables, item);
    }
}

/// No offer for which an order is outstanding is recommended: for each
/// recommendation in the report, the store counts no order for its offer.
pub proof fn law_no_recommended_offer_has_orders(tables: Tables, k: int, n: int)
    requires
        report(tables) is Ok,
        0 <= k < report(tables)->Ok_0.len(),
        0 <= n < report(tables)->Ok_0[k].provider_medicines.len(),
    ensures
        tables.open_orders(report(tables)->Ok_0[k].provider_medicines[n].medicine.id@) == Ok::<
            nat,
            StoreError,
        >(0nat),
{
    law_report_recommendations_are_sound(tables, k, n);
}

/// Each recommendation in the report is sound for the medicine of its entry:
/// its offer is one that a link of that medicine leads to and has no
/// outstanding order, its provider's name is that of the offer's provider, and
/// its quantity is what the rule gives for the medicine and the offer.
pub proof fn law_report_recommendations_are_sound(tables: Tables, k: int, n: int)
    requires
        report(tables) is Ok,
        0 <= k < report(tables)->Ok_0.len(),
        0 <= n < report(tables)->Ok_0[k].provider_medicines.len(),
    ensures
        exists|i: int|
            0 <= i < entered(tables).len() && heading(tables)(#[trigger] entered(tables)[i]) == Ok::<
                Option<Replenishment>,
                StoreError,
            >(Some(report(tables)->Ok_0[k])) && sound_record(
                tables,
                tables,
                entered(tables)[i].medicine_id,
                report(tables)->Ok_0[k].provider_medicines[n],
            ),
{
    let low = tables.near_low_medicines()->Ok_0;
    let ids = ids_of(low);
    let entries = entered(tables);
    let entry = report(tables)->Ok_0[k];
    lemma_report_from_listed(tables, k);
    let i = choose|i: int|
        0 <= i < entries.len() && heading(tables)(#[trigger] entries[i]) == Ok::<
            Option<Replenishment>,
            StoreError,
        >(Some(entry));
    lemma_mapping_entries(tables, tables, ids);
    assert(entered_for(tables, tables, ids, entries[i]));
    lemma_recommendations_sound(tables, tables, entries[i].medicine_id, n);
}

/// The quantity to order is never more than what is on offer, and never more
/// than fits before the stock reaches its maximum.
pub proof fn law_order_quantity_is_bounded(item: Medicine, offer: MedicineFromProvider)
    ensures
        order_quantity(item, offer) <= offer.quantity,
        order_quantity(item, offer) <= item.headroom(),
        order_quantity(item, offer) <= (if item.headroom() > 0 {
            item.headroom()
        } else {
            0
        }),
        order_quantity(item, offer) == offer.quantity || order_quantity(item, offer)
            == item.headroom(),
{
}

/// The quantity to order is not negative.
///
/// It is stated of a medicine whose stock is not above its maximum, and of an
/// offer as the data model promises it: with a quantity that is not negative.
pub proof fn law_order_quantity_is_not_negative(item: Medicine, offer: MedicineFromProvider)
    requires
        offer.well_formed(),
        item.quantity <= item.max,
    ensures
        0 <= order_quantity(item, offer),
{
}

/// The report stands in the order of its names.
pub proof fn law_report_is_ordered(tables: Tables)
    requires
        report(tables) is Ok,
    ensures
        ordered_by_name(report(tables)->Ok_0),
{
    let low = tables.near_low_medicines()->Ok_0;
    lemma_sorted_by_name_ordered(matches_of(tables, low));
}

/// Two reports on stores that hold the same are the same.
pub proof fn law_report_is_repeatable(first: Tables, second: Tables)
    requires
        first == second,
    ensures
        report(first) == report(second),
{
}

/// A medicine in stock for which no offer matches has no entry in the map of
/// recommendations, from which the report is written.
pub proof fn law_without_matching_offer_is_not_listed(tables: Tables, id: Seq<char>, k: int)
    requires
        matching_medicines(tables, tables, id) matches Ok(offers) ==> offers.len() == 0,
        0 <= k < entered(tables).len(),
    ensures
        entered(tables)[k].medicine_id != id,
{
    let low = tables.near_low_medicines()->Ok_0;
    lemma_mapping_entries(tables, tables, ids_of(low));
    assert(entered_for(tables, tables, ids_of(low), entered(tables)[k]));
}

/// No offer matches a medicine in stock that has no links, or whose links all
/// lead to offers for which an order is outstanding.
pub proof fn law_no_offer_matches_without_free_link(tables: Tables, id: Seq<char>)
    requires
        tables.links_of(id) matches Ok(links) ==> forall|l: int|
            0 <= l < links.len() ==> (#[trigger] offer_without_orders(tables)(links[l])) == Ok::<
                Option<MedicineFromProvider>,
                StoreError,
            >(None),
    ensures
        matching_medicines(tables, tables, id) matches Ok(offers) ==> offers.len() == 0,
{
    match tables.links_of(id) {
        Ok(links) => {
            lemma_gather_keeps_none(links, offer_without_orders(tables));
        },
        Err(_) => {},
    }
}

/// For each recommendation in the report there is a medicine in stock that
/// runs low, whose entry holds the recommendation, and for which the quantity
/// of the recommendation is what the rule gives: the quantity on offer, but no
/// more than fits before that medicine's stock reaches its maximum.
///
/// It is stated of a store in which the identifier of a medicine is its own.
pub proof fn law_report_quantities_follow_the_rule(tables: Tables, k: int, n: int)
    requires
        tables.medicines_distinct(),
        report(tables) is Ok,
        0 <= k < report(tables)->Ok_0.len(),
        0 <= n < report(tables)->Ok_0[k].provider_medicines.len(),
    ensures
        exists|item: Medicine|
            #[trigger] tables.holds(item) && item.near_low() && reported_for(
                tables,
                item,
                report(tables)->Ok_0[k],
            ) && report(tables)->Ok_0[k].provider_medicines[n].quantity_to_order == order_quantity(
                item,
                report(tables)->Ok_0[k].provider_medicines[n].medicine,
            ),
{
    let entry = report(tables)->Ok_0[k];
    law_report_entries_are_for_low_stock(tables, k);
    let item = choose|item: Medicine|
        #[trigger] tables.holds(item) && item.near_low() && reported_for(tables, item, entry);
    lemma_row_found_again(tables, item);
    lemma_recommendations_sound(tables, tables, item.id@, n);
}

/// A medicine that runs low and has recommendations has its entry in the
/// report: an entry with its name, its minimum and its recommendations.
///
/// It is stated of a store in which the identifier of a medicine is its own.
pub proof fn law_low_stock_with_offers_is_reported(tables: Tables, item: Medicine)
    requires
        tables.medicines_distinct(),
        tables.holds(item),
        item.near_low(),
        recommendations(tables, tables, item.id@) matches Ok(Some(_)),
    ensures
        report(tables) is Ok,
        exists|k: int|
            0 <= k < report(tables)->Ok_0.len() && reported_for(
                tables,
                item,
                #[trigger] report(tables)->Ok_0[k],
            ),
{
    let low = tables.near_low_medicines()->Ok_0;
    let ids = ids_of(low);
    let entries = entered(tables);
    let matches = matches_of(tables, low);
    law_low_stock_with_offers_is_listed(tables, item);
    let i = choose|i: int| 0 <= i < entries.len() && (#[trigger] entries[i]).medicine_id == item.id@;
    lemma_mapping_entries(tables, tables, ids);
    assert(entered_for(tables, tables, ids, entries[i]));
    lemma_row_found_again(tables, item);
    lemma_gather_total(entries, heading(tables));
    lemma_gather_keeps(entries, heading(tables), i);
    let at = choose|at: int|
        0 <= at < matches.len() && heading(tables)(entries[i]) == Ok::<
            Option<Replenishment>,
            StoreError,
        >(Some(#[trigger] matches[at]));
    lemma_sorted_by_name_keeps(matches, at);
    let sorted = report(tables)->Ok_0;
    let k = choose|k: int| 0 <= k < sorted.len() && sorted[k] == matches[at];
    assert(reported_for(tables, item, sorted[k]));
}

/// Each of the medicines `ids` that is passed over is one of them, and one
/// whose recommendations cannot be worked out.
pub proof fn lemma_passed_over(stock: Tables, store: Tables, ids: Seq<String>, k: int)
    requires
        0 <= k < passed_over(stock, store, ids).len(),
    ensures
        exists|j: int| 0 <= j < ids.len() && (#[trigger] ids[j])@ == passed_over(stock, store, ids)[k],
        recommendations(stock, store, passed_over(stock, store, ids)[k]) is Err,
    decreases ids.len(),
{
    let front = ids.drop_last();
    let before = passed_over(stock, store, front);
    if k < before.len() {
        lemma_passed_over(stock, store, front, k);
        let j = choose|j: int| 0 <= j < front.len() && (#[trigger] front[j])@ == before[k];
        assert(ids[j] == front[j]);
    } else {
        assert(ids[ids.len() - 1]@ == passed_over(stock, store, ids)[k]);
    }
}

/// When the report on a store is written, the medicine of every entry of the
/// map can be had: none is passed over at that time.
pub proof fn lemma_all_headed(tables: Tables, entries: Seq<Listing>)
    requires
        forall|k: int|
            0 <= k < entries.len() ==> recommendations(
                tables,
                tables,
                (#[trigger] entries[k]).medicine_id,
            ) is Ok,
    ensures
        unheaded(tables, entries) == Seq::<Seq<char>>::empty(),
    decreases entries.len(),
{
    if entries.len() > 0 {
        let front = entries.drop_last();
        assert forall|k: int| 0 <= k < front.len() implies recommendations(
            tables,
            tables,
            (#[trigger] front[k]).medicine_id,
        ) is Ok by {
            assert(front[k] == entries[k]);
        }
        lemma_all_headed(tables, front);
        assert(recommendations(tables, tables, entries[entries.len() - 1].medicine_id) is Ok);
    }
}

/// Each medicine that is noted as passed over is a medicine in stock that runs
/// low and whose recommendations could not be worked out, because the medicine
/// itself, its links, one of the offers they lead to, the orders of such an
/// offer or the provider of a matching offer could not be had.
pub proof fn law_skipped_are_failures(tables: Tables, k: int)
    requires
        0 <= k < skipped(tables).len(),
    ensures
        exists|item: Medicine|
            #[trigger] tables.holds(item) && item.near_low() && item.id@ == skipped(tables)[k],
        recommendations(tables, tables, skipped(tables)[k]) is Err,
{
    let low = tables.near_low_medicines()->Ok_0;
    let ids = ids_of(low);
    law_nothing_is_skipped_late(tables);
    lemma_passed_over(tables, tables, ids, k);
    let j = choose|j: int|
        0 <= j < ids.len() && (#[trigger] ids[j])@ == passed_over(tables, tables, ids)[k];
    lemma_near_low_rows(tables, j);
    assert(tables.holds(low[j]) && low[j].near_low() && low[j].id@ == skipped(tables)[k]);
}

/// Against a store, the medicines that are passed over are those whose
/// recommendations cannot be worked out: none is passed over when the report
/// is written.
pub proof fn law_nothing_is_skipped_late(tables: Tables)
    ensures
        skipped(tables) == (match tables.near_low_medicines() {
            Ok(low) => passed_over(tables, tables, ids_of(low)),
            Err(_) => Seq::empty(),
        }),
{
    match tables.near_low_medicines() {
        Ok(low) => {
            let ids = ids_of(low);
            let entries = mapping_of(tables, tables, ids);
            lemma_mapping_entries(tables, tables, ids);
            assert forall|k: int| 0 <= k < entries.len() implies recommendations(
                tables,
                tables,
                (#[trigger] entries[k]).medicine_id,
            ) is Ok by {
                assert(entered_for(tables, tables, ids, entries[k]));
            }
            lemma_all_headed(tables, entries);
            assert(passed_over(tables, tables, ids) + Seq::<Seq<char>>::empty() =~= passed_over(
                tables,
                tables,
                ids,
            ));
        },
        Err(_) => {},
    }
}

/// No medicine that is noted as passed over has an entry in the map of
/// recommendations, from which the report is written.
pub proof fn law_skipped_are_not_listed(tables: Tables, k: int, i: int)
    requires
        0 <= k < skipped(tables).len(),
        0 <= i < entered(tables).len(),
    ensures
        skipped(tables)[k] != entered(tables)[i].medicine_id,
{
    let low = tables.near_low_medicines()->Ok_0;
    law_skipped_are_failures(tables, k);
    lemma_mapping_entries(tables, tables, ids_of(low));
    assert(entered_for(tables, tables, ids_of(low), entered(tables)[i]));
}

/// A medicine that runs low and has recommendations has an entry in the map of
/// recommendations, from which the report is written.
pub proof fn law_low_stock_with_offers_is_listed(tables: Tables, item: Medicine)
    requires
        tables.holds(item),
        item.near_low(),
        recommendations(tables, tables, item.id@) matches Ok(Some(_)),
    ensures
        exists|k: int|
            0 <= k < entered(tables).len() && (#[trigger] entered(tables)[k]).medicine_id == item.id@,
{
    let rows = tables.medicines->Some_0;
    let low = rows.filter(near_low());
    let at = choose|at: int| 0 <= at < rows.len() && rows[at] == item;
    rows.lemma_filter_contains(near_low(), at);
    let j = choose|j: int| 0 <= j < low.len() && low[j] == item;
    let ids = ids_of(low);
    assert(ids[j] == item.id);
    lemma_mapping_complete(tables, tables, ids, j);
    let k = choose|k: int|
        0 <= k < mapping_of(tables, tables, ids).len() && (#[trigger] mapping_of(
            tables,
            tables,
            ids,
        )[k]).medicine_id == ids[j]@;
    assert(entered(tables)[k].medicine_id == item.id@);
}

} // verus!
