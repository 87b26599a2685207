//! The providers' offers: which of them match a medicine in stock, and how many
//! units of each should be ordered.

use crate::error::StoreError;
use crate::gather::{gather, lemma_gather_fails, lemma_gather_next, Yield};
use crate::mapping::{put, Listing, MedicineMap};
use crate::models::{Medicine, MedicineFromProvider, MedicineToMedicineFromProviderRecord};
use crate::services::stock::StockService;
use crate::store::{listed, Database, Tables};
use vstd::prelude::*;

verus! {

/// What a recommendation says of the provider that makes the offer.
#[derive(Debug, PartialEq, Eq)]
pub struct MedicineMapRecordProvider {
    pub name: String,
}

/// One recommended offer: the offer, its provider, and how many units to order.
#[derive(Debug, PartialEq, Eq)]
pub struct MedicineMapRecord {
    pub medicine: MedicineFromProvider,
    pub provider: MedicineMapRecordProvider,
    pub quantity_to_order: i64,
}

impl Clone for MedicineMapRecordProvider {
    fn clone(&self) -> (copy: Self)
        ensures
            copy == *self,
    {
        MedicineMapRecordProvider { name: self.name.clone() }
    }
}

impl Clone for MedicineMapRecord {
    fn clone(&self) -> (copy: Self)
        ensures
            copy == *self,
    {
        MedicineMapRecord {
            medicine: self.medicine.clone(),
            provider: self.provider.clone(),
            quantity_to_order: self.quantity_to_order,
        }
    }
}

/// How many units of `offer` to order for `item`: what is on offer, but no more
/// than fits before the stock reaches its maximum.
pub open spec fn order_quantity(item: Medicine, offer: MedicineFromProvider) -> int {
    if offer.quantity > item.headroom() {
        item.headroom()
    } else {
        offer.quantity as int
    }
}

/// How many units of `medicine` to order for `medicine_in_stock`.
pub fn quantity_to_order(medicine_in_stock: &Medicine, medicine: &MedicineFromProvider) -> (quantity:
    i64)
    ensures
        quantity == order_quantity(*medicine_in_stock, *medicine),
        quantity <= medicine.quantity,
        quantity <= medicine_in_stock.headroom(),
        quantity == medicine.quantity || quantity == medicine_in_stock.headroom(),
{
    let number_of_medicines_to_order: i64 = medicine_in_stock.max as i64
        - medicine_in_stock.quantity as i64;
    let medicine_quantity: i64 = medicine.quantity as i64;
    if medicine_quantity > number_of_medicines_to_order {
        number_of_medicines_to_order
    } else {
        medicine_quantity
    }
}

/// What a link comes to when offers are matched: the offer it leads to where no
/// order for that offer is outstanding, nothing where one is, and a failure
/// where the offer or its orders cannot be had.
pub open spec fn offer_without_orders(store: Tables) -> spec_fn(
    MedicineToMedicineFromProviderRecord,
) -> Yield<MedicineFromProvider> {
    |link: MedicineToMedicineFromProviderRecord|
        match store.offer(link.medicine_from_provider_id@) {
            Err(e) => Err(e),
            Ok(offer) => match store.open_orders(offer.id@) {
                Err(e) => Err(e),
                Ok(count) => if count == 0 {
                    Ok(Some(offer))
                } else {
                    Ok(None)
                },
            },
        }
}

/// The offers that match the medicine in stock `id`: those that its links lead
/// to and that have no outstanding order, in the order of the links. It fails
/// where the medicine cannot be had, where the links cannot be read, and with
/// the first link whose offer or orders cannot be had.
pub open spec fn matching_medicines(stock: Tables, store: Tables, id: Seq<char>) -> Result<
    Seq<MedicineFromProvider>,
    StoreError,
> {
    match stock.medicine(id) {
        Err(e) => Err(e),
        Ok(_) => match store.links_of(id) {
            Err(e) => Err(e),
            Ok(links) => gather(links, offer_without_orders(store)),
        },
    }
}

/// The recommendation of `offer`, made by `provider_name`, for `item`.
pub open spec fn recommendation(
    item: Medicine,
    offer: MedicineFromProvider,
    provider_name: String,
) -> MedicineMapRecord {
    MedicineMapRecord {
        medicine: offer,
        provider: MedicineMapRecordProvider { name: provider_name },
        quantity_to_order: order_quantity(item, offer) as i64,
    }
}

/// What a matching offer comes to when the recommendations for the medicine in
/// stock `id` are written: its recommendation, or a failure where its provider
/// or the medicine cannot be had.
pub open spec fn recommended(stock: Tables, store: Tables, id: Seq<char>) -> spec_fn(
    MedicineFromProvider,
) -> Yield<MedicineMapRecord> {
    |offer: MedicineFromProvider|
        match store.provider(offer.provider_id@) {
            Err(e) => Err(e),
            Ok(provider) => match stock.medicine(id) {
                Err(e) => Err(e),
                Ok(item) => Ok(Some(recommendation(item, offer, provider.name))),
            },
        }
}

/// The recommendations for the medicine in stock `id`: one for each matching
/// offer, or none at all (`None`) where no offer matches.
pub open spec fn recommendations(stock: Tables, store: Tables, id: Seq<char>) -> Result<
    Option<Seq<MedicineMapRecord>>,
    StoreError,
> {
    match matching_medicines(stock, store, id) {
        Err(e) => Err(e),
        Ok(offers) => if offers.len() > 0 {
            match gather(offers, recommended(stock, store, id)) {
                Err(e) => Err(e),
                Ok(records) => Ok(Some(records)),
            }
        } else {
            Ok(None)
        },
    }
}

/// The map after the medicine in stock `id` has been gone through: its
/// recommendations are entered where it has any, and the map is as before where
/// it has none or where they could not be worked out.
pub open spec fn mapped(stock: Tables, store: Tables, before: Seq<Listing>, id: Seq<char>) -> Seq<
    Listing,
> {
    match recommendations(stock, store, id) {
        Ok(Some(records)) => put(before, Listing { medicine_id: id, records }),
        _ => before,
    }
}

/// The map that results from going through the medicines `ids` one after the
/// other, starting from the empty map.
pub open spec fn mapping_of(stock: Tables, store: Tables, ids: Seq<String>) -> Seq<Listing>
    decreases ids.len(),
{
    if ids.len() == 0 {
        Seq::empty()
    } else {
        mapped(stock, store, mapping_of(stock, store, ids.drop_last()), ids.last()@)
    }
}

/// The texts of `ids`, in their order.
pub open spec fn texts(ids: Seq<String>) -> Seq<Seq<char>> {
    Seq::new(ids.len(), |i: int| ids[i]@)
}

/// Those of the medicines `ids` that are passed over because their
/// recommendations cannot be worked out, in the order of `ids`.
pub open spec fn passed_over(stock: Tables, store: Tables, ids: Seq<String>) -> Seq<Seq<char>>
    decreases ids.len(),
{
    if ids.len() == 0 {
        Seq::empty()
    } else {
        let before = passed_over(stock, store, ids.drop_last());
        if recommendations(stock, store, ids.last()@) is Err {
            before.push(ids.last()@)
        } else {
            before
        }
    }
}

/// Matches the providers' offers to medicines in stock.
pub struct ProviderService<'a> {
    db: &'a Database,
    stock_service: &'a StockService<'a>,
}

impl<'a> ProviderService<'a> {
    /// The relations in which this service reads links, offers, orders and providers.
    pub closed spec fn tables(&self) -> Tables {
        self.db@
    }

    /// The relations in which this service's stock service reads medicines.
    pub closed spec fn stock(&self) -> Tables {
        self.stock_service.tables()
    }

    /// A service that reads offers in `db_pool` and medicines through `stock_service`.
    pub fn new(db_pool: &'a Database, stock_service: &'a StockService<'a>) -> (service: Self)
        ensures
            service.tables() == db_pool@,
            service.stock() == stock_service.tables(),
    {
        Self { db: db_pool, stock_service }
    }

    /// The offers that match the medicine in stock `medicine_id`: those linked
    /// to it for which no order is outstanding, in the order of the links. An
    /// offer that is linked twice is given twice.
    ///
    /// It fails with the failure of the first thing that cannot be had: the
    /// medicine itself, then its links, then, link by link, the offer that the
    /// link leads to and the orders of that offer.
    pub fn get_matching_medicines(&self, medicine_id: String) -> (found: Result<
        Vec<MedicineFromProvider>,
        StoreError,
    >)
        ensures
            listed(found) == matching_medicines(self.stock(), self.tables(), medicine_id@),
    {
        // we make sure medicine record exists
        match self.stock_service.get_medicine(medicine_id.as_str()) {
            Err(e) => {
                return Err(e);
            },
            Ok(_) => {},
        }
        let map = match self.db.links_of(&medicine_id) {
            Err(e) => {
                return Err(e);
            },
            Ok(rows) => rows,
        };
        let ghost each = offer_without_orders(self.db@);
        let mut medicines_from_provider: Vec<MedicineFromProvider> = Vec::new();
        let mut n: usize = 0;
        while n < map.len()
            invariant
                n <= map@.len(),
                each == offer_without_orders(self.db@),
                self.stock_service.tables().medicine(medicine_id@) is Ok,
                self.db@.links_of(medicine_id@) == Ok::<
                    Seq<MedicineToMedicineFromProviderRecord>,
                    StoreError,
                >(map@),
                gather(map@.take(n as int), each) == Ok::<Seq<MedicineFromProvider>, StoreError>(
                    medicines_from_provider@,
                ),
            decreases map@.len() - n,
        {
            proof {
                lemma_gather_next(map@, each, n as int);
            }
            let medicine_from_provider = match self.db.offer(&map[n].medicine_from_provider_id) {
                Err(e) => {
                    proof {
                        lemma_gather_fails(map@, each, n as int + 1);
                    }
                    return Err(e);
                },
                Ok(row) => row,
            };
            let order_count = match self.db.open_orders(&medicine_from_provider.id) {
                Err(e) => {
                    proof {
                        lemma_gather_fails(map@, each, n as int + 1);
                    }
                    return Err(e);
                },
                Ok(count) => count,
            };
            if order_count == 0 {
                medicines_from_provider.push(medicine_from_provider);
            }
            n += 1;
        }
        proof {
            assert(map@.take(n as int) =~= map@);
        }
        Ok(medicines_from_provider)
    }

    /// Goes through the medicine in stock `medicine_id`: where offers match it,
    /// their recommendations are entered in `mapping` under its identifier. Where
    /// none matches, or where a failure ends the work, `mapping` stays as it was.
    ///
    /// It fails where the matching offers cannot be had, and, offer by offer,
    /// where the provider of the offer or the medicine itself cannot be had.
    pub fn map_medicine_to_medicine_from_provider(
        &self,
        medicine_id: String,
        mapping: &mut MedicineMap,
    ) -> (done: Result<(), StoreError>)
        ensures
            final(mapping)@ == mapped(self.stock(), self.tables(), old(mapping)@, medicine_id@),
            match recommendations(self.stock(), self.tables(), medicine_id@) {
                Ok(_) => done is Ok,
                Err(e) => done == Err::<(), StoreError>(e),
            },
    {
        let medicines = match self.get_matching_medicines(medicine_id.clone()) {
            Err(e) => {
                return Err(e);
            },
            Ok(offers) => offers,
        };
        if medicines.len() > 0 {
            let ghost each = recommended(self.stock_service.tables(), self.db@, medicine_id@);
            let mut record: Vec<MedicineMapRecord> = Vec::new();
            let mut n: usize = 0;
            while n < medicines.len()
                invariant
                    n <= medicines@.len(),
                    medicines@.len() > 0,
                    *mapping == *old(mapping),
                    each == recommended(self.stock_service.tables(), self.db@, medicine_id@),
                    matching_medicines(self.stock_service.tables(), self.db@, medicine_id@) == Ok::<
                        Seq<MedicineFromProvider>,
                        StoreError,
                    >(medicines@),
                    gather(medicines@.take(n as int), each) == Ok::<
                        Seq<MedicineMapRecord>,
                        StoreError,
                    >(record@),
                decreases medicines@.len() - n,
            {
                proof {
                    lemma_gather_next(medicines@, each, n as int);
                }
                let provider_name = match self.db.provider(&medicines[n].provider_id) {
                    Err(e) => {
                        proof {
                            lemma_gather_fails(medicines@, each, n as int + 1);
                        }
                        return Err(e);
                    },
                    Ok(provider) => provider.name.clone(),
                };
                let medicine_in_stock = match self.stock_service.get_medicine(
                    medicine_id.as_str(),
                ) {
                    Err(e) => {
                        proof {
                            lemma_gather_fails(medicines@, each, n as int + 1);
                        }
                        return Err(e);
                    },
                    Ok(row) => row,
                };
                let quantity = quantity_to_order(&medicine_in_stock, &medicines[n]);
                record.push(
                    MedicineMapRecord {
                        medicine: medicines[n].clone(),
                        provider: MedicineMapRecordProvider { name: provider_name },
                        quantity_to_order: quantity,
                    },
                );
                n += 1;
            }
            proof {
                assert(medicines@.take(n as int) =~= medicines@);
            }
            mapping.insert(medicine_id, record);
        }
        Ok(())
    }

    /// Goes through the medicines in stock `medicine_ids` one after the other and
    /// gives the map of their recommendations. A medicine whose recommendations
    /// could not be worked out is passed over.
    pub fn get_matching_medicines_for_list(&self, medicine_ids: Vec<String>) -> (map: MedicineMap)
        ensures
            map@ == mapping_of(self.stock(), self.tables(), medicine_ids@),
    {
        self.get_matching_medicines_for_list_with_skipped(medicine_ids).0
    }

    /// Goes through the medicines in stock `medicine_ids` as
    /// `get_matching_medicines_for_list` does, and gives beside the map the
    /// identifiers of the medicines that were passed over because their
    /// recommendations could not be worked out, in the order of `medicine_ids`.
    pub fn get_matching_medicines_for_list_with_skipped(&self, medicine_ids: Vec<String>) -> (found: (
        MedicineMap,
        Vec<String>,
    ))
        ensures
            found.0@ == mapping_of(self.stock(), self.tables(), medicine_ids@),
            texts(found.1@) == passed_over(self.stock(), self.tables(), medicine_ids@),
    {
        let mut map = MedicineMap::new();
        let mut skipped: Vec<String> = Vec::new();
        let mut n: usize = 0;
        proof {
            assert(texts(skipped@) =~= Seq::<Seq<char>>::empty());
        }
        while n < medicine_ids.len()
            invariant
                n <= medicine_ids@.len(),
                map@ == mapping_of(self.stock(), self.tables(), medicine_ids@.take(n as int)),
                texts(skipped@) == passed_over(
                    self.stock(),
                    self.tables(),
                    medicine_ids@.take(n as int),
                ),
            decreases medicine_ids@.len() - n,
        {
            proof {
                assert(medicine_ids@.take(n as int + 1).drop_last() =~= medicine_ids@.take(
                    n as int,
                ));
            }
            let ghost noted = texts(skipped@);
            let done = self.map_medicine_to_medicine_from_provider(
                medicine_ids[n].clone(),
                &mut map,
            );
            if done.is_err() {
                skipped.push(medicine_ids[n].clone());
                proof {
                    assert(texts(skipped@) =~= noted.push(medicine_ids@[n as int]@));
                }
            }
            n += 1;
        }
        proof {
            assert(medicine_ids@.take(n as int) =~= medicine_ids@);
        }
        (map, skipped)
    }
}

} // verus!
