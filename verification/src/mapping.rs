//! The recommendations that have been worked out so far, one entry for each
//! medicine in stock, kept in the order in which the medicines were first entered.

use crate::services::provider::MedicineMapRecord;
use crate::store::{first_keyed, lemma_first_keyed, position_of, Keyed, KeyedRow};
use vstd::prelude::*;

verus! {

/// What is recorded for one medicine in stock: its identifier and the offers
/// that are recommended for it.
pub struct Listing {
    pub medicine_id: Seq<char>,
    pub records: Seq<MedicineMapRecord>,
}

impl Keyed for Listing {
    open spec fn key(&self) -> Seq<char> {
        self.medicine_id
    }
}

/// One entry of a `MedicineMap`.
#[derive(Debug, PartialEq, Eq)]
pub struct MedicineMapEntry {
    pub medicine_id: String,
    pub records: Vec<MedicineMapRecord>,
}

impl View for MedicineMapEntry {
    type V = Listing;

    open spec fn view(&self) -> Listing {
        Listing { medicine_id: self.medicine_id@, records: self.records@ }
    }
}

impl Keyed for MedicineMapEntry {
    open spec fn key(&self) -> Seq<char> {
        self.medicine_id@
    }
}

impl KeyedRow for MedicineMapEntry {
    fn has_key(&self, id: &String) -> (same: bool) {
        self.medicine_id == *id
    }
}

/// The entries as they are recorded.
pub open spec fn listings(entries: Seq<MedicineMapEntry>) -> Seq<Listing> {
    Seq::new(entries.len(), |i: int| entries[i]@)
}

/// No identifier has two entries.
pub open spec fn distinct_keys(entries: Seq<Listing>) -> bool {
    forall|i: int, j: int|
        0 <= i < j < entries.len() ==> (#[trigger] entries[i]).medicine_id != (
        #[trigger] entries[j]).medicine_id
}

/// The entries after `entry` has been entered: it takes the place of the entry
/// with the same identifier, or comes last when there is none.
pub open spec fn put(entries: Seq<Listing>, entry: Listing) -> Seq<Listing> {
    match first_keyed(entries, entry.medicine_id) {
        Some(i) => entries.update(i, entry),
        None => entries.push(entry),
    }
}

/// Entering an entry leaves no identifier with two entries.
pub proof fn lemma_put_keeps_distinct(entries: Seq<Listing>, entry: Listing)
    requires
        distinct_keys(entries),
    ensures
        distinct_keys(put(entries, entry)),
{
    lemma_first_keyed(entries, entry.medicine_id);
    let after = put(entries, entry);
    assert forall|i: int, j: int| 0 <= i < j < after.len() implies (#[trigger] after[i]).medicine_id
        != (#[trigger] after[j]).medicine_id by {
        match first_keyed(entries, entry.medicine_id) {
            Some(at) => {
                assert(after[i].medicine_id == entries[i].medicine_id);
                assert(after[j].medicine_id == entries[j].medicine_id);
            },
            None => {
                if j < entries.len() {
                    assert(after[i] == entries[i]);
                    assert(after[j] == entries[j]);
                } else {
                    assert(after[i] == entries[i]);
                    assert(entries[i].key() != entry.medicine_id);
                }
            },
        }
    }
}

/// The first entry of the rows with a key stands where the first of their
/// listings with that key stands.
pub proof fn lemma_first_keyed_listings(entries: Seq<MedicineMapEntry>, id: Seq<char>)
    ensures
        first_keyed(listings(entries), id) == first_keyed(entries, id),
    decreases entries.len(),
{
    if entries.len() > 0 {
        assert(listings(entries)[0] == entries[0]@);
        assert(listings(entries).drop_first() =~= listings(entries.drop_first()));
        lemma_first_keyed_listings(entries.drop_first(), id);
    }
}

/// A map from the identifiers of medicines in stock to the offers recommended
/// for them. No identifier has two entries, and the entries stand in the order
/// in which their identifiers were first entered.
#[derive(Debug, PartialEq, Eq)]
pub struct MedicineMap {
    entries: Vec<MedicineMapEntry>,
}

impl View for MedicineMap {
    type V = Seq<Listing>;

    closed spec fn view(&self) -> Seq<Listing> {
        listings(self.entries@)
    }
}

impl MedicineMap {
    #[verifier::type_invariant]
    spec fn no_identifier_twice(&self) -> bool {
        distinct_keys(listings(self.entries@))
    }

    /// A map without entries.
    pub fn new() -> (map: Self)
        ensures
            map@ == Seq::<Listing>::empty(),
    {
        let map = MedicineMap { entries: Vec::new() };
        assert(listings(map.entries@) =~= Seq::<Listing>::empty());
        map
    }

    /// The number of entries.
    pub fn len(&self) -> (n: usize)
        ensures
            n == self@.len(),
    {
        self.entries.len()
    }

    /// Enters `records` for `medicine_id`. An entry that the identifier already has
    /// is replaced where it stands; otherwise the new entry comes last.
    pub fn insert(&mut self, medicine_id: String, records: Vec<MedicineMapRecord>)
        ensures
            final(self)@ == put(
                old(self)@,
                Listing { medicine_id: medicine_id@, records: records@ },
            ),
    {
        proof {
            use_type_invariant(&*self);
            lemma_first_keyed_listings(self.entries@, medicine_id@);
            lemma_put_keeps_distinct(
                listings(self.entries@),
                Listing { medicine_id: medicine_id@, records: records@ },
            );
        }
        let ghost before = self.entries@;
        let mut entries: Vec<MedicineMapEntry> = Vec::new();
        std::mem::swap(&mut entries, &mut self.entries);
        let found = position_of(&entries, &medicine_id);
        let entry = MedicineMapEntry { medicine_id, records };
        match found {
            Some(i) => {
                entries.set(i, entry);
                assert(listings(entries@) =~= listings(before).update(i as int, entry@));
            },
            None => {
                entries.push(entry);
                assert(listings(entries@) =~= listings(before).push(entry@));
            },
        }
        self.entries = entries;
    }

    /// The offers recorded for `medicine_id`, if it has an entry.
    pub fn get(&self, medicine_id: &str) -> (found: Option<&Vec<MedicineMapRecord>>)
        ensures
            match found {
                Some(records) => first_keyed(self@, medicine_id@) matches Some(i) && self@[i].records
                    == records@,
                None => first_keyed(self@, medicine_id@) is None,
            },
    {
        let key = medicine_id.to_owned();
        proof {
            lemma_first_keyed_listings(self.entries@, medicine_id@);
        }
        match position_of(&self.entries, &key) {
            Some(i) => Some(&self.entries[i].records),
            None => None,
        }
    }

    /// The entries in their order. No identifier has two of them.
    pub fn entries(&self) -> (entries: &Vec<MedicineMapEntry>)
        ensures
            listings(entries@) == self@,
            distinct_keys(self@),
    {
        proof {
            use_type_invariant(self);
        }
        &self.entries
    }
}

} // verus!
