//! What holds of a run that is driven against a store: as long as each of its
//! questions is answered as the store answers it, the run stays on the way to
//! that store's report, and when it ends it gives that report and names the
//! medicines that are passed over in that store. And whatever it is handed, a
//! run draws nearer to its end with every answer.

use crate::error::StoreError;
use crate::gather::{gather, lemma_gather_fails, lemma_gather_next};
use crate::handlers::provider::{
    heading, ids_of, replenishment, report, skipped, unheaded, Replenishment,
};
use crate::mapping::{put, Listing};
use crate::models::{MedicineFromProvider, MedicineToMedicineFromProviderRecord};
use crate::protocol::{answers, Asked, Outcome, Phase, Reply, RunState, WorkState};
use crate::services::provider::{
    mapped, mapping_of, matching_medicines, offer_without_orders, passed_over, recommendation,
    recommendations, recommended, MedicineMapRecord,
};
use crate::store::Tables;
use vstd::prelude::*;

verus! {

/// The run has the identifiers of the medicines that run low in `tables`.
pub open spec fn scanned(tables: Tables, work: WorkState) -> bool {
    tables.near_low_medicines() matches Ok(low) && work.ids == ids_of(low)
}

/// The run is at one of the medicines that run low, and its map is that of the
/// medicines before it.
pub open spec fn in_item(tables: Tables, work: WorkState) -> bool {
    &&& scanned(tables, work)
    &&& 0 <= work.at < work.ids.len()
    &&& work.mapping == mapping_of(tables, tables, work.ids.take(work.at))
    &&& work.skipped == passed_over(tables, tables, work.ids.take(work.at))
}

/// The run is going through the links of its medicine, and has the offers that
/// match as far as it has come.
pub open spec fn in_links(tables: Tables, work: WorkState) -> bool {
    &&& in_item(tables, work)
    &&& tables.medicine(work.id()) is Ok
    &&& tables.links_of(work.id()) == Ok::<Seq<MedicineToMedicineFromProviderRecord>, StoreError>(
        work.links,
    )
    &&& 0 <= work.link <= work.links.len()
    &&& gather(work.links.take(work.link), offer_without_orders(tables)) == Ok::<
        Seq<MedicineFromProvider>,
        StoreError,
    >(work.offers)
}

/// The run is going through the offers that match its medicine, and has the
/// recommendations as far as it has come.
pub open spec fn in_offers(tables: Tables, work: WorkState) -> bool {
    &&& in_item(tables, work)
    &&& matching_medicines(tables, tables, work.id()) == Ok::<
        Seq<MedicineFromProvider>,
        StoreError,
    >(work.offers)
    &&& work.offers.len() > 0
    &&& 0 <= work.offer <= work.offers.len()
    &&& gather(work.offers.take(work.offer), recommended(tables, tables, work.id())) == Ok::<
        Seq<MedicineMapRecord>,
        StoreError,
    >(work.records)
}

/// The run has the whole map and is writing the report from it, and has the
/// report's entries as far as it has come.
pub open spec fn in_report(tables: Tables, work: WorkState) -> bool {
    &&& scanned(tables, work)
    &&& work.mapping == mapping_of(tables, tables, work.ids)
    &&& 0 <= work.entry <= work.mapping.len()
    &&& gather(work.mapping.take(work.entry), heading(tables)) == Ok::<
        Seq<Replenishment>,
        StoreError,
    >(work.matches)
    &&& work.skipped == passed_over(tables, tables, work.ids) + unheaded(
        tables,
        work.mapping.take(work.entry),
    )
}

/// The run is on the way to the report on `tables`: what it has worked out is
/// what the store holds, as far as the run has come.
pub open spec fn follows(tables: Tables, run: RunState) -> bool {
    let work = run.work;
    match run.phase {
        Phase::Scanning => true,
        Phase::Checking => in_item(tables, work),
        Phase::Linking => in_item(tables, work) && tables.medicine(work.id()) is Ok,
        Phase::Fetching => in_links(tables, work) && work.link < work.links.len(),
        Phase::Counting { offer } => in_links(tables, work) && work.link < work.links.len()
            && tables.offer(work.links[work.link].medicine_from_provider_id@) == Ok::<
            MedicineFromProvider,
            StoreError,
        >(offer),
        Phase::Naming => in_offers(tables, work) && work.offer < work.offers.len(),
        Phase::Stocking { provider_name } => in_offers(tables, work) && work.offer
            < work.offers.len() && (tables.provider(work.offers[work.offer].provider_id@) matches Ok(
            provider,
        ) && provider.name == provider_name),
        Phase::Heading => in_report(tables, work) && work.entry < work.mapping.len(),
    }
}

/// The outcome keeps the run on the way to the report on `tables`: the run goes
/// on in a state that follows the store, with the question that this state is
/// waiting for, or it ends with the store's report and with the medicines
/// that are passed over in that store.
pub open spec fn keeps_to(tables: Tables, outcome: Outcome) -> bool {
    match outcome {
        Outcome::Ask(next, asked) => follows(tables, next) && asked == next.asked(),
        Outcome::Done(result, passed) => result == report(tables) && passed == skipped(tables),
    }
}

/// A run that is writing the report of the store keeps to the store when it
/// goes on with its current entry.
proof fn lemma_next_entry(tables: Tables, work: WorkState)
    requires
        in_report(tables, work),
    ensures
        keeps_to(tables, work.next_entry()),
{
    if work.entry >= work.mapping.len() {
        assert(work.mapping.take(work.entry) =~= work.mapping);
    }
}

/// A run that has the map of the medicines before the current one keeps to the
/// store when it goes on with the current medicine.
proof fn lemma_next_medicine(tables: Tables, work: WorkState)
    requires
        scanned(tables, work),
        0 <= work.at <= work.ids.len(),
        work.mapping == mapping_of(tables, tables, work.ids.take(work.at)),
        work.skipped == passed_over(tables, tables, work.ids.take(work.at)),
    ensures
        keeps_to(tables, work.next_medicine()),
{
    if work.at >= work.ids.len() {
        let turned = WorkState { entry: 0, matches: Seq::empty(), ..work };
        assert(work.ids.take(work.at) =~= work.ids);
        assert(turned.mapping.take(0) =~= Seq::<Listing>::empty());
        assert(turned.skipped + Seq::<Seq<char>>::empty() =~= turned.skipped);
        lemma_next_entry(tables, turned);
    }
}

/// What the map and the list of what was passed over will be when the run has
/// gone through its current medicine.
proof fn lemma_moved_on(tables: Tables, work: WorkState)
    requires
        in_item(tables, work),
    ensures
        mapping_of(tables, tables, work.ids.take(work.at + 1)) == mapped(
            tables,
            tables,
            work.mapping,
            work.id(),
        ),
        passed_over(tables, tables, work.ids.take(work.at + 1)) == (if recommendations(
            tables,
            tables,
            work.id(),
        ) is Err {
            work.skipped.push(work.id())
        } else {
            work.skipped
        }),
{
    assert(work.ids.take(work.at + 1).drop_last() =~= work.ids.take(work.at));
}

/// A run keeps to the store when it leaves a medicine for which the store has
/// nothing to recommend.
proof fn lemma_leave(tables: Tables, work: WorkState)
    requires
        in_item(tables, work),
        recommendations(tables, tables, work.id()) == Ok::<
            Option<Seq<MedicineMapRecord>>,
            StoreError,
        >(None),
    ensures
        keeps_to(tables, work.leave()),
{
    lemma_moved_on(tables, work);
    lemma_next_medicine(tables, WorkState { at: work.at + 1, ..work });
}

/// A run keeps to the store when it passes over a medicine whose
/// recommendations cannot be worked out in the store.
proof fn lemma_skip(tables: Tables, work: WorkState)
    requires
        in_item(tables, work),
        recommendations(tables, tables, work.id()) is Err,
    ensures
        keeps_to(tables, work.skip()),
{
    lemma_moved_on(tables, work);
    lemma_next_medicine(
        tables,
        WorkState { at: work.at + 1, skipped: work.skipped.push(work.id()), ..work },
    );
}

/// A run that is going through the offers that match its medicine keeps to
/// the store when it goes on with the current offer.
proof fn lemma_next_offer(tables: Tables, work: WorkState)
    requires
        in_offers(tables, work),
    ensures
        keeps_to(tables, work.next_offer()),
{
    if work.offer >= work.offers.len() {
        assert(work.offers.take(work.offer) =~= work.offers);
        let entered = WorkState {
            mapping: put(work.mapping, Listing { medicine_id: work.id(), records: work.records }),
            records: Seq::empty(),
            at: work.at + 1,
            ..work
        };
        lemma_moved_on(tables, work);
        lemma_next_medicine(tables, entered);
    }
}

/// A run that is going through the links of its medicine keeps to the store
/// when it goes on with the current link.
proof fn lemma_next_link(tables: Tables, work: WorkState)
    requires
        in_links(tables, work),
    ensures
        keeps_to(tables, work.next_link()),
{
    if work.link >= work.links.len() {
        assert(work.links.take(work.link) =~= work.links);
        if work.offers.len() > 0 {
            let turned = WorkState { records: Seq::empty(), offer: 0, ..work };
            assert(turned.offers.take(0) =~= Seq::<MedicineFromProvider>::empty());
            lemma_next_offer(tables, turned);
        } else {
            lemma_leave(tables, work);
        }
    }
}

/// How far a run is from its end, in five numbers of falling weight: which part
/// of the work it is in (the scan, the medicines, the report), how many
/// medicines or entries are left, which list of the current medicine it is
/// going through, how many items of that list are left, and whether the
/// current item has been asked about once or twice.
pub open spec fn part(run: RunState) -> int {
    match run.phase {
        Phase::Scanning => 2,
        Phase::Heading => 0,
        _ => 1,
    }
}

/// The medicines that are left, or, while the report is written, the entries.
pub open spec fn left(run: RunState) -> int {
    match run.phase {
        Phase::Scanning => 0,
        Phase::Heading => run.work.mapping.len() - run.work.entry,
        _ => run.work.ids.len() - run.work.at,
    }
}

/// Which list of the current medicine the run is going through.
pub open spec fn list(run: RunState) -> int {
    match run.phase {
        Phase::Checking => 4,
        Phase::Linking => 3,
        Phase::Fetching | Phase::Counting { .. } => 2,
        Phase::Naming | Phase::Stocking { .. } => 1,
        _ => 0,
    }
}

/// The items of that list that are left.
pub open spec fn items(run: RunState) -> int {
    match run.phase {
        Phase::Fetching | Phase::Counting { .. } => run.work.links.len() - run.work.link,
        Phase::Naming | Phase::Stocking { .. } => run.work.offers.len() - run.work.offer,
        _ => 0,
    }
}

/// Whether the second question about the current item is still to come.
pub open spec fn questions(run: RunState) -> int {
    match run.phase {
        Phase::Fetching | Phase::Naming => 1,
        _ => 0,
    }
}

/// `next` is nearer to the end of the run than `run`.
pub open spec fn nearer(run: RunState, next: RunState) -> bool {
    decreases_to!(
        part(run), left(run), list(run), items(run), questions(run)
        => part(next), left(next), list(next), items(next), questions(next)
    )
}

/// Whatever a run is handed, it goes on in a state that stands within its
/// lists and is nearer to its end, or it ends. So every run ends.
pub proof fn law_run_draws_to_its_end(run: RunState, reply: Reply)
    requires
        run.well_formed(),
    ensures
        run.step(reply) matches Outcome::Ask(next, asked) ==> next.well_formed() && asked
            == next.asked() && nearer(run, next),
{
}

/// A run that has just begun follows every store, and the question it is
/// waiting for is the one for the medicines that run low.
pub proof fn law_run_begins_on_the_way(tables: Tables)
    ensures
        follows(tables, RunState::initial()),
        RunState::initial().asked() == Asked::NearLowMedicines,
{
}

/// A run that follows a store and is handed that store's answer to its
/// question keeps to the store: it goes on in a state that follows the store,
/// asking the question that this state waits for, or it ends, and then with the
/// store's report.
pub proof fn law_run_keeps_to_the_store(tables: Tables, run: RunState, reply: Reply)
    requires
        follows(tables, run),
        answers(tables, run.asked(), reply),
    ensures
        keeps_to(tables, run.step(reply)),
{
    let work = run.work;
    match run.phase {
        Phase::Scanning => {
            match reply.near_low() {
                Ok(rows) => {
                    let begun = WorkState {
                        ids: ids_of(rows),
                        at: 0,
                        mapping: Seq::empty(),
                        skipped: Seq::empty(),
                        ..work
                    };
                    assert(begun.ids.take(0) =~= Seq::<String>::empty());
                    lemma_next_medicine(tables, begun);
                },
                Err(_) => {},
            }
        },
        Phase::Checking => {
            if reply.medicine() is Err {
                lemma_skip(tables, work);
            }
        },
        Phase::Linking => {
            match reply.links() {
                Ok(rows) => {
                    let turned = WorkState { links: rows, link: 0, offers: Seq::empty(), ..work };
                    assert(turned.links.take(0) =~= Seq::<
                        MedicineToMedicineFromProviderRecord,
                    >::empty());
                    lemma_next_link(tables, turned);
                },
                Err(_) => {
                    lemma_skip(tables, work);
                },
            }
        },
        Phase::Fetching => {
            if reply.offer() is Err {
                lemma_gather_next(work.links, offer_without_orders(tables), work.link);
                lemma_gather_fails(work.links, offer_without_orders(tables), work.link + 1);
                lemma_skip(tables, work);
            }
        },
        Phase::Counting { offer } => {
            lemma_gather_next(work.links, offer_without_orders(tables), work.link);
            match reply.open_orders() {
                Ok(count) => {
                    let counted = WorkState {
                        offers: if count == 0 {
                            work.offers.push(offer)
                        } else {
                            work.offers
                        },
                        link: work.link + 1,
                        ..work
                    };
                    lemma_next_link(tables, counted);
                },
                Err(_) => {
                    lemma_gather_fails(work.links, offer_without_orders(tables), work.link + 1);
                    lemma_skip(tables, work);
                },
            }
        },
        Phase::Naming => {
            if reply.provider_name() is Err {
                lemma_gather_next(work.offers, recommended(tables, tables, work.id()), work.offer);
                lemma_gather_fails(
                    work.offers,
                    recommended(tables, tables, work.id()),
                    work.offer + 1,
                );
                lemma_skip(tables, work);
            }
        },
        Phase::Stocking { provider_name } => {
            lemma_gather_next(work.offers, recommended(tables, tables, work.id()), work.offer);
            match reply.medicine() {
                Ok(item) => {
                    let written = WorkState {
                        records: work.records.push(
                            recommendation(item, work.offers[work.offer], provider_name),
                        ),
                        offer: work.offer + 1,
                        ..work
                    };
                    lemma_next_offer(tables, written);
                },
                Err(_) => {
                    lemma_gather_fails(
                        work.offers,
                        recommended(tables, tables, work.id()),
                        work.offer + 1,
                    );
                    lemma_skip(tables, work);
                },
            }
        },
        Phase::Heading => {
            lemma_gather_next(work.mapping, heading(tables), work.entry);
            assert(work.mapping.take(work.entry + 1).drop_last() =~= work.mapping.take(work.entry));
            let headed = match reply.medicine() {
                Ok(item) => WorkState {
                    matches: work.matches.push(
                        replenishment(item, work.mapping[work.entry].records),
                    ),
                    entry: work.entry + 1,
                    ..work
                },
                Err(_) => WorkState {
                    skipped: work.skipped.push(work.mapping[work.entry].medicine_id),
                    entry: work.entry + 1,
                    ..work
                },
            };
            assert(headed.skipped =~= passed_over(tables, tables, work.ids) + unheaded(
                tables,
                work.mapping.take(work.entry + 1),
            ));
            lemma_next_entry(tables, headed);
        },
    }
}

} // verus!
