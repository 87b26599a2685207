//! The data store as the services see it: five relations held in memory, each of
//! which may be unreadable, and the point lookups and scans that are made on them.

use crate::error::StoreError;
use crate::models::{
    Medicine, MedicineFromProvider, MedicineToMedicineFromProviderRecord, OrderMedicine, Provider,
};
use vstd::prelude::*;

verus! {

/// Something that is looked up by a text: a row by one of its columns.
pub trait Keyed {
    /// The text by which it is looked up.
    spec fn key(&self) -> Seq<char>;
}

/// A row in memory, whose key can be compared.
pub trait KeyedRow: Keyed {
    /// Whether the row's key is the text of `id`.
    fn has_key(&self, id: &String) -> (same: bool)
        ensures
            same == (self.key() == id@),
    ;
}

impl Keyed for Medicine {
    open spec fn key(&self) -> Seq<char> {
        self.id@
    }
}

impl KeyedRow for Medicine {
    fn has_key(&self, id: &String) -> (same: bool) {
        self.id == *id
    }
}

impl Keyed for MedicineFromProvider {
    open spec fn key(&self) -> Seq<char> {
        self.id@
    }
}

impl KeyedRow for MedicineFromProvider {
    fn has_key(&self, id: &String) -> (same: bool) {
        self.id == *id
    }
}

impl Keyed for Provider {
    open spec fn key(&self) -> Seq<char> {
        self.id@
    }
}

impl KeyedRow for Provider {
    fn has_key(&self, id: &String) -> (same: bool) {
        self.id == *id
    }
}

/// A link is looked up by the medicine in stock that it starts from.
impl Keyed for MedicineToMedicineFromProviderRecord {
    open spec fn key(&self) -> Seq<char> {
        self.medicine_id@
    }
}

impl KeyedRow for MedicineToMedicineFromProviderRecord {
    fn has_key(&self, id: &String) -> (same: bool) {
        self.medicine_id == *id
    }
}

/// An order line is looked up by the offer that it orders.
impl Keyed for OrderMedicine {
    open spec fn key(&self) -> Seq<char> {
        self.medicine_from_provider_id@
    }
}

impl KeyedRow for OrderMedicine {
    fn has_key(&self, id: &String) -> (same: bool) {
        self.medicine_from_provider_id == *id
    }
}

/// The rows whose key is `id`.
pub open spec fn keyed_by<T: Keyed>(id: Seq<char>) -> spec_fn(T) -> bool {
    |row: T| row.key() == id
}

/// The medicines whose stock is at the alert threshold or below it.
pub open spec fn near_low() -> spec_fn(Medicine) -> bool {
    |row: Medicine| row.near_low()
}

/// The position of the first row with the key `id`, if any row has it.
pub open spec fn first_keyed<T: Keyed>(rows: Seq<T>, id: Seq<char>) -> Option<int>
    decreases rows.len(),
{
    if rows.len() == 0 {
        None
    } else if rows[0].key() == id {
        Some(0int)
    } else {
        match first_keyed(rows.drop_first(), id) {
            Some(i) => Some(i + 1),
            None => None,
        }
    }
}

/// What a point lookup by `id` gives on `rows`: the first row with that key, and
/// `NotFound` when no row has it.
pub open spec fn lookup<T: Keyed>(rows: Seq<T>, id: Seq<char>) -> Result<T, StoreError> {
    match first_keyed(rows, id) {
        Some(i) => Ok(rows[i]),
        None => Err(StoreError::NotFound),
    }
}

/// `first_keyed` says where the first row with the key stands: no row before it
/// has the key, and where it gives nothing, no row at all has the key.
pub proof fn lemma_first_keyed<T: Keyed>(rows: Seq<T>, id: Seq<char>)
    ensures
        match first_keyed(rows, id) {
            Some(i) => {
                &&& 0 <= i < rows.len()
                &&& rows[i].key() == id
                &&& forall|j: int| 0 <= j < i ==> (#[trigger] rows[j]).key() != id
            },
            None => forall|j: int| 0 <= j < rows.len() ==> (#[trigger] rows[j]).key() != id,
        },
    decreases rows.len(),
{
    if rows.len() > 0 && rows[0].key() != id {
        let rest = rows.drop_first();
        lemma_first_keyed(rest, id);
        match first_keyed(rest, id) {
            Some(i) => {
                assert forall|j: int| 0 <= j < i + 1 implies (#[trigger] rows[j]).key() != id by {
                    if j > 0 {
                        assert(rows[j] == rest[j - 1]);
                    }
                }
            },
            None => {
                assert forall|j: int| 0 <= j < rows.len() implies (#[trigger] rows[j]).key()
                    != id by {
                    if j > 0 {
                        assert(rows[j] == rest[j - 1]);
                    }
                }
            },
        }
    }
}

/// A row at `at` with the key, and none before it, is the first row with the key.
pub proof fn lemma_first_keyed_at<T: Keyed>(rows: Seq<T>, id: Seq<char>, at: int)
    requires
        0 <= at <= rows.len(),
        forall|j: int| 0 <= j < at ==> (#[trigger] rows[j]).key() != id,
        at < rows.len() ==> rows[at].key() == id,
    ensures
        first_keyed(rows, id) == (if at < rows.len() {
            Some(at)
        } else {
            None
        }),
    decreases rows.len(),
{
    if rows.len() > 0 && at > 0 {
        let rest = rows.drop_first();
        assert(rows[0].key() != id);
        assert forall|j: int| 0 <= j < at - 1 implies (#[trigger] rest[j]).key() != id by {
            assert(rest[j] == rows[j + 1]);
        }
        lemma_first_keyed_at(rest, id, at - 1);
    }
}

/// The five relations of the store. A relation that could not be read is `None`.
pub struct Tables {
    pub medicines: Option<Seq<Medicine>>,
    pub offers: Option<Seq<MedicineFromProvider>>,
    pub links: Option<Seq<MedicineToMedicineFromProviderRecord>>,
    pub orders: Option<Seq<OrderMedicine>>,
    pub providers: Option<Seq<Provider>>,
}

impl Tables {
    /// The medicines in stock that are at their alert threshold or below it, in the
    /// order of the relation. An unreadable relation is a fault.
    pub open spec fn near_low_medicines(self) -> Result<Seq<Medicine>, StoreError> {
        match self.medicines {
            Some(rows) => Ok(rows.filter(near_low())),
            None => Err(StoreError::StoreFault),
        }
    }

    /// The medicine in stock with the identifier `id`.
    pub open spec fn medicine(self, id: Seq<char>) -> Result<Medicine, StoreError> {
        match self.medicines {
            Some(rows) => lookup(rows, id),
            None => Err(StoreError::StoreFault),
        }
    }

    /// The links that start from the medicine in stock `medicine_id`, in the order
    /// of the relation.
    pub open spec fn links_of(self, medicine_id: Seq<char>) -> Result<
        Seq<MedicineToMedicineFromProviderRecord>,
        StoreError,
    > {
        match self.links {
            Some(rows) => Ok(rows.filter(keyed_by(medicine_id))),
            None => Err(StoreError::StoreFault),
        }
    }

    /// The offer with the identifier `id`.
    pub open spec fn offer(self, id: Seq<char>) -> Result<MedicineFromProvider, StoreError> {
        match self.offers {
            Some(rows) => lookup(rows, id),
            None => Err(StoreError::StoreFault),
        }
    }

    /// How many outstanding order lines name the offer `offer_id`.
    pub open spec fn open_orders(self, offer_id: Seq<char>) -> Result<nat, StoreError> {
        match self.orders {
            Some(rows) => Ok(rows.filter(keyed_by(offer_id)).len()),
            None => Err(StoreError::StoreFault),
        }
    }

    /// The provider with the identifier `id`.
    pub open spec fn provider(self, id: Seq<char>) -> Result<Provider, StoreError> {
        match self.providers {
            Some(rows) => lookup(rows, id),
            None => Err(StoreError::StoreFault),
        }
    }

    /// The identifier of a medicine in stock is its own: no two rows share one.
    pub open spec fn medicines_distinct(self) -> bool {
        match self.medicines {
            Some(rows) => forall|i: int, j: int|
                0 <= i < j < rows.len() ==> (#[trigger] rows[i]).id@ != (#[trigger] rows[j]).id@,
            None => true,
        }
    }

    /// `item` is a row of the relation of medicines.
    pub open spec fn holds(self, item: Medicine) -> bool {
        match self.medicines {
            Some(rows) => rows.contains(item),
            None => false,
        }
    }
}

/// The rows of a relation as a sequence.
pub open spec fn rows_of<T>(relation: Option<Vec<T>>) -> Option<Seq<T>> {
    match relation {
        Some(rows) => Some(rows@),
        None => None,
    }
}

/// The outcome of a scan with its rows as a sequence.
pub open spec fn listed<T>(outcome: Result<Vec<T>, StoreError>) -> Result<Seq<T>, StoreError> {
    match outcome {
        Ok(rows) => Ok(rows@),
        Err(e) => Err(e),
    }
}

/// The store in memory. A relation that could not be read is `None`.
#[derive(Debug)]
pub struct Database {
    pub medicines: Option<Vec<Medicine>>,
    pub offers: Option<Vec<MedicineFromProvider>>,
    pub links: Option<Vec<MedicineToMedicineFromProviderRecord>>,
    pub orders: Option<Vec<OrderMedicine>>,
    pub providers: Option<Vec<Provider>>,
}

impl View for Database {
    type V = Tables;

    open spec fn view(&self) -> Tables {
        Tables {
            medicines: rows_of(self.medicines),
            offers: rows_of(self.offers),
            links: rows_of(self.links),
            orders: rows_of(self.orders),
            providers: rows_of(self.providers),
        }
    }
}

/// The position of the first row of `rows` with the key `id`, if any row has it.
pub fn position_of<T: KeyedRow>(rows: &Vec<T>, id: &String) -> (found: Option<usize>)
    ensures
        match found {
            Some(i) => i < rows@.len() && first_keyed(rows@, id@) == Some(i as int),
            None => first_keyed(rows@, id@) is None,
        },
{
    let mut i: usize = 0;
    while i < rows.len()
        invariant
            i <= rows@.len(),
            forall|j: int| 0 <= j < i ==> (#[trigger] rows@[j]).key() != id@,
        decreases rows@.len() - i,
    {
        if rows[i].has_key(id) {
            proof {
                lemma_first_keyed_at(rows@, id@, i as int);
            }
            return Some(i);
        }
        i += 1;
    }
    proof {
        lemma_first_keyed_at(rows@, id@, i as int);
    }
    None
}

impl Database {
    /// Scans the stock for the medicines at their alert threshold or below it, and
    /// gives them in the order of the relation. `StoreFault` when the relation of
    /// medicines cannot be read.
    pub fn near_low_medicines(&self) -> (found: Result<Vec<Medicine>, StoreError>)
        ensures
            listed(found) == self@.near_low_medicines(),
    {
        match &self.medicines {
            None => Err(StoreError::StoreFault),
            Some(rows) => {
                let mut low: Vec<Medicine> = Vec::new();
                let mut i: usize = 0;
                proof {
                    reveal(Seq::filter);
                }
                while i < rows.len()
                    invariant
                        i <= rows@.len(),
                        low@ == rows@.take(i as int).filter(near_low()),
                    decreases rows@.len() - i,
                {
                    proof {
                        reveal(Seq::filter);
                        assert(rows@.take(i as int + 1).drop_last() =~= rows@.take(i as int));
                    }
                    if rows[i].is_near_low() {
                        low.push(rows[i].clone());
                    }
                    i += 1;
                }
                proof {
                    assert(rows@.take(i as int) =~= rows@);
                }
                Ok(low)
            },
        }
    }

    /// Looks up the medicine in stock with the identifier `id`: the first row that
    /// carries it. `NotFound` when no row does, `StoreFault` when the relation
    /// cannot be read.
    pub fn medicine(&self, id: &String) -> (found: Result<Medicine, StoreError>)
        ensures
            found == self@.medicine(id@),
    {
        match &self.medicines {
            None => Err(StoreError::StoreFault),
            Some(rows) => match position_of(rows, id) {
                Some(i) => Ok(rows[i].clone()),
                None => Err(StoreError::NotFound),
            },
        }
    }

    /// Scans the links for those that start from the medicine in stock
    /// `medicine_id`, and gives them in the order of the relation. `StoreFault`
    /// when the relation of links cannot be read.
    pub fn links_of(&self, medicine_id: &String) -> (found: Result<
        Vec<MedicineToMedicineFromProviderRecord>,
        StoreError,
    >)
        ensures
            listed(found) == self@.links_of(medicine_id@),
    {
        match &self.links {
            None => Err(StoreError::StoreFault),
            Some(rows) => {
                let mut linked: Vec<MedicineToMedicineFromProviderRecord> = Vec::new();
                let mut i: usize = 0;
                proof {
                    reveal(Seq::filter);
                }
                while i < rows.len()
                    invariant
                        i <= rows@.len(),
                        linked@ == rows@.take(i as int).filter(
                            keyed_by::<MedicineToMedicineFromProviderRecord>(medicine_id@),
                        ),
                    decreases rows@.len() - i,
                {
                    proof {
                        reveal(Seq::filter);
                        assert(rows@.take(i as int + 1).drop_last() =~= rows@.take(i as int));
                    }
                    if rows[i].has_key(medicine_id) {
                        linked.push(rows[i].clone());
                    }
                    i += 1;
                }
                proof {
                    assert(rows@.take(i as int) =~= rows@);
                }
                Ok(linked)
            },
        }
    }

    /// Looks up the offer with the identifier `id`: the first row that carries it.
    /// `NotFound` when no row does, `StoreFault` when the relation cannot be read.
    pub fn offer(&self, id: &String) -> (found: Result<MedicineFromProvider, StoreError>)
        ensures
            found == self@.offer(id@),
    {
        match &self.offers {
            None => Err(StoreError::StoreFault),
            Some(rows) => match position_of(rows, id) {
                Some(i) => Ok(rows[i].clone()),
                None => Err(StoreError::NotFound),
            },
        }
    }

    /// Counts the outstanding order lines that name the offer `offer_id`.
    /// `StoreFault` when the relation of orders cannot be read.
    pub fn open_orders(&self, offer_id: &String) -> (found: Result<usize, StoreError>)
        ensures
            match found {
                Ok(n) => self@.open_orders(offer_id@) == Ok::<nat, StoreError>(n as nat),
                Err(e) => self@.open_orders(offer_id@) == Err::<nat, StoreError>(e),
            },
    {
        match &self.orders {
            None => Err(StoreError::StoreFault),
            Some(rows) => {
                let mut count: usize = 0;
                let mut i: usize = 0;
                proof {
                    reveal(Seq::filter);
                }
                while i < rows.len()
                    invariant
                        i <= rows@.len(),
                        count <= i,
                        count == rows@.take(i as int).filter(
                            keyed_by::<OrderMedicine>(offer_id@),
                        ).len(),
                    decreases rows@.len() - i,
                {
                    proof {
                        reveal(Seq::filter);
                        assert(rows@.take(i as int + 1).drop_last() =~= rows@.take(i as int));
                    }
                    if rows[i].has_key(offer_id) {
                        count += 1;
                    }
                    i += 1;
                }
                proof {
                    assert(rows@.take(i as int) =~= rows@);
                }
                Ok(count)
            },
        }
    }

    /// Looks up the provider with the identifier `id`: the first row that carries
    /// it. `NotFound` when no row does, `StoreFault` when the relation cannot be
    /// read.
    pub fn provider(&self, id: &String) -> (found: Result<&Provider, StoreError>)
        ensures
            match found {
                Ok(row) => self@.provider(id@) == Ok::<Provider, StoreError>(*row),
                Err(e) => self@.provider(id@) == Err::<Provider, StoreError>(e),
            },
    {
        match &self.providers {
            None => Err(StoreError::StoreFault),
            Some(rows) => match position_of(rows, id) {
                Some(i) => Ok(&rows[i]),
                None => Err(StoreError::NotFound),
            },
        }
    }
}

} // verus!
