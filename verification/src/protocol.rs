//! The report worked out one question at a time, for a store that cannot be held
//! in memory: a run asks the store one question, is handed the answer, and then
//! either asks the next question or is done. Whoever drives the run puts the
//! questions to the store; the run decides what to ask and what to make of the
//! answers.

use crate::error::StoreError;
use crate::handlers::provider::{
    copy_of, identifiers, ids_of, replenishment, replenishments, MedicineMatchingRecord,
    Replenishment,
};
use crate::mapping::{put, Listing, MedicineMap};
use crate::models::{Medicine, MedicineFromProvider, MedicineToMedicineFromProviderRecord, Provider};
use crate::services::provider::{
    quantity_to_order, recommendation, texts, MedicineMapRecord, MedicineMapRecordProvider,
};
use crate::sorting::{sort_by_name, sorted_by_name};
use crate::store::{listed, Database, Tables};
use vstd::prelude::*;

verus! {

/// A question to the store.
#[derive(Debug, PartialEq, Eq)]
pub enum Request {
    /// Which medicines in stock are at their alert threshold or below it?
    NearLowMedicines,
    /// Which medicine in stock has this identifier?
    Medicine(String),
    /// Which links start from the medicine in stock with this identifier?
    Links(String),
    /// Which offer has this identifier?
    Offer(String),
    /// How many outstanding order lines name the offer with this identifier?
    OpenOrders(String),
    /// Which provider has this identifier?
    Provider(String),
}

/// What a question asks, with its identifier as a text.
pub enum Asked {
    NearLowMedicines,
    Medicine(Seq<char>),
    Links(Seq<char>),
    Offer(Seq<char>),
    OpenOrders(Seq<char>),
    Provider(Seq<char>),
}

impl View for Request {
    type V = Asked;

    open spec fn view(&self) -> Asked {
        match self {
            Request::NearLowMedicines => Asked::NearLowMedicines,
            Request::Medicine(id) => Asked::Medicine(id@),
            Request::Links(id) => Asked::Links(id@),
            Request::Offer(id) => Asked::Offer(id@),
            Request::OpenOrders(id) => Asked::OpenOrders(id@),
            Request::Provider(id) => Asked::Provider(id@),
        }
    }
}

/// The store's answer to a question, of the same kind as the question.
#[derive(Debug, PartialEq, Eq)]
pub enum Reply {
    NearLowMedicines(Result<Vec<Medicine>, StoreError>),
    Medicine(Result<Medicine, StoreError>),
    Links(Result<Vec<MedicineToMedicineFromProviderRecord>, StoreError>),
    Offer(Result<MedicineFromProvider, StoreError>),
    OpenOrders(Result<u64, StoreError>),
    Provider(Result<Provider, StoreError>),
}

impl Reply {
    /// What the reply says of the medicines that run low. A reply of another
    /// kind says nothing of them, which is a fault.
    pub open spec fn near_low(self) -> Result<Seq<Medicine>, StoreError> {
        match self {
            Reply::NearLowMedicines(found) => listed(found),
            _ => Err(StoreError::StoreFault),
        }
    }

    /// What the reply says of a medicine in stock.
    pub open spec fn medicine(self) -> Result<Medicine, StoreError> {
        match self {
            Reply::Medicine(found) => found,
            _ => Err(StoreError::StoreFault),
        }
    }

    /// What the reply says of the links of a medicine.
    pub open spec fn links(self) -> Result<Seq<MedicineToMedicineFromProviderRecord>, StoreError> {
        match self {
            Reply::Links(found) => listed(found),
            _ => Err(StoreError::StoreFault),
        }
    }

    /// What the reply says of an offer.
    pub open spec fn offer(self) -> Result<MedicineFromProvider, StoreError> {
        match self {
            Reply::Offer(found) => found,
            _ => Err(StoreError::StoreFault),
        }
    }

    /// What the reply says of the number of outstanding orders.
    pub open spec fn open_orders(self) -> Result<u64, StoreError> {
        match self {
            Reply::OpenOrders(found) => found,
            _ => Err(StoreError::StoreFault),
        }
    }

    /// What the reply says of a provider's name.
    pub open spec fn provider_name(self) -> Result<String, StoreError> {
        match self {
            Reply::Provider(Ok(provider)) => Ok(provider.name),
            Reply::Provider(Err(e)) => Err(e),
            _ => Err(StoreError::StoreFault),
        }
    }

    fn into_near_low(self) -> (found: Result<Vec<Medicine>, StoreError>)
        ensures
            listed(found) == self.near_low(),
    {
        match self {
            Reply::NearLowMedicines(found) => found,
            _ => Err(StoreError::StoreFault),
        }
    }

    fn into_medicine(self) -> (found: Result<Medicine, StoreError>)
        ensures
            found == self.medicine(),
    {
        match self {
            Reply::Medicine(found) => found,
            _ => Err(StoreError::StoreFault),
        }
    }

    fn into_links(self) -> (found: Result<Vec<MedicineToMedicineFromProviderRecord>, StoreError>)
        ensures
            listed(found) == self.links(),
    {
        match self {
            Reply::Links(found) => found,
            _ => Err(StoreError::StoreFault),
        }
    }

    fn into_offer(self) -> (found: Result<MedicineFromProvider, StoreError>)
        ensures
            found == self.offer(),
    {
        match self {
            Reply::Offer(found) => found,
            _ => Err(StoreError::StoreFault),
        }
    }

    fn into_open_orders(self) -> (found: Result<u64, StoreError>)
        ensures
            found == self.open_orders(),
    {
        match self {
            Reply::OpenOrders(found) => found,
            _ => Err(StoreError::StoreFault),
        }
    }

    fn into_provider_name(self) -> (found: Result<String, StoreError>)
        ensures
            found == self.provider_name(),
    {
        match self {
            Reply::Provider(Ok(provider)) => Ok(provider.name),
            Reply::Provider(Err(e)) => Err(e),
            _ => Err(StoreError::StoreFault),
        }
    }
}

/// `reply` is what the store `tables` answers to the question `asked`: it is of
/// the question's kind and says what the store holds. Of a provider it need
/// only say the name.
pub open spec fn answers(tables: Tables, asked: Asked, reply: Reply) -> bool {
    match asked {
        Asked::NearLowMedicines => reply is NearLowMedicines && reply.near_low()
            == tables.near_low_medicines(),
        Asked::Medicine(id) => reply is Medicine && reply.medicine() == tables.medicine(id),
        Asked::Links(id) => reply is Links && reply.links() == tables.links_of(id),
        Asked::Offer(id) => reply is Offer && reply.offer() == tables.offer(id),
        Asked::OpenOrders(id) => reply is OpenOrders && (match tables.open_orders(id) {
            Ok(count) => reply.open_orders() matches Ok(said) && said == count,
            Err(e) => reply.open_orders() == Err::<u64, StoreError>(e),
        }),
        Asked::Provider(id) => reply is Provider && (match tables.provider(id) {
            Ok(provider) => reply.provider_name() == Ok::<String, StoreError>(provider.name),
            Err(e) => reply.provider_name() == Err::<String, StoreError>(e),
        }),
    }
}

impl Database {
    /// Answers a question from what the store holds. Where the answer is a
    /// provider, it is the store's row, column by column.
    pub fn answer(&self, request: &Request) -> (reply: Reply)
        ensures
            answers(self@, request@, reply),
            reply matches Reply::Provider(Ok(row)) ==> request matches Request::Provider(id)
                && self@.provider(id@) matches Ok(held) && row.same_as(held),
    {
        match request {
            Request::NearLowMedicines => Reply::NearLowMedicines(self.near_low_medicines()),
            Request::Medicine(id) => Reply::Medicine(self.medicine(id)),
            Request::Links(id) => Reply::Links(self.links_of(id)),
            Request::Offer(id) => Reply::Offer(self.offer(id)),
            Request::OpenOrders(id) => Reply::OpenOrders(
                match self.open_orders(id) {
                    Ok(count) => Ok(count as u64),
                    Err(e) => Err(e),
                },
            ),
            Request::Provider(id) => Reply::Provider(
                match self.provider(id) {
                    Ok(provider) => Ok(provider.clone()),
                    Err(e) => Err(e),
                },
            ),
        }
    }
}

/// Which answer a run is waiting for.
#[derive(Debug, PartialEq, Eq)]
pub enum Phase {
    /// The medicines that run low.
    Scanning,
    /// The current medicine, to make sure that it exists.
    Checking,
    /// The links of the current medicine.
    Linking,
    /// The offer that the current link leads to.
    Fetching,
    /// The number of outstanding orders for `offer`, which the current link leads to.
    Counting { offer: MedicineFromProvider },
    /// The provider of the current matching offer.
    Naming,
    /// The current medicine, for its quantities; the provider of the current
    /// matching offer is called `provider_name`.
    Stocking { provider_name: String },
    /// The medicine of the current entry of the map, for its name and minimum.
    Heading,
}

/// What a run has worked out so far, and where it stands in its lists.
pub struct WorkState {
    /// The medicines that run low, by their identifiers.
    pub ids: Seq<String>,
    /// Which of them is the current medicine.
    pub at: int,
    /// The links of the current medicine.
    pub links: Seq<MedicineToMedicineFromProviderRecord>,
    /// Which of them is the current link.
    pub link: int,
    /// The offers that match the current medicine, as far as its links have been gone through.
    pub offers: Seq<MedicineFromProvider>,
    /// Which of them is the current matching offer.
    pub offer: int,
    /// The recommendations for the current medicine, as far as its offers have been gone through.
    pub records: Seq<MedicineMapRecord>,
    /// The map of recommendations of the medicines before the current one.
    pub mapping: Seq<Listing>,
    /// Which entry of the map is the current one.
    pub entry: int,
    /// The report entries of the entries of the map before the current one.
    pub matches: Seq<Replenishment>,
    /// The identifiers of the medicines that were passed over because of a failure.
    pub skipped: Seq<Seq<char>>,
}

/// A run between two questions: what it is waiting for, and what it has worked out.
pub struct RunState {
    pub phase: Phase,
    pub work: WorkState,
}

/// What a run comes to when it is handed an answer: the next question, or the end.
pub enum Outcome {
    /// The run goes on in this state and asks this question.
    Ask(RunState, Asked),
    /// The run is over, with the report or with the fault that ended it, and
    /// with the identifiers of the medicines that were passed over because of a
    /// failure.
    Done(Result<Seq<Replenishment>, StoreError>, Seq<Seq<char>>),
}

impl WorkState {
    /// The identifier of the current medicine.
    pub open spec fn id(self) -> Seq<char> {
        self.ids[self.at]@
    }

    /// Goes on with the current entry of the map: asks for its medicine, or, when
    /// the map has been gone through, ends with the report in the order of its
    /// names.
    pub open spec fn next_entry(self) -> Outcome {
        if self.entry < self.mapping.len() {
            Outcome::Ask(
                RunState { phase: Phase::Heading, work: self },
                Asked::Medicine(self.mapping[self.entry].medicine_id),
            )
        } else {
            Outcome::Done(Ok(sorted_by_name(self.matches)), self.skipped)
        }
    }

    /// Goes on with the current medicine: asks for it, or, when all medicines
    /// have been gone through, turns to the map.
    pub open spec fn next_medicine(self) -> Outcome {
        if self.at < self.ids.len() {
            Outcome::Ask(RunState { phase: Phase::Checking, work: self }, Asked::Medicine(self.id()))
        } else {
            (WorkState { entry: 0, matches: Seq::empty(), ..self }).next_entry()
        }
    }

    /// Leaves the current medicine, for which there is nothing to recommend, and
    /// goes on with the one after it.
    pub open spec fn leave(self) -> Outcome {
        (WorkState { at: self.at + 1, ..self }).next_medicine()
    }

    /// Passes over the current medicine because of a failure, notes its
    /// identifier, and goes on with the one after it.
    pub open spec fn skip(self) -> Outcome {
        (WorkState { at: self.at + 1, skipped: self.skipped.push(self.id()), ..self }).next_medicine()
    }

    /// Goes on with the current link: asks for the offer it leads to, or, when
    /// the links have been gone through, turns to the offers that match. A
    /// medicine that no offer matches is left.
    pub open spec fn next_link(self) -> Outcome {
        if self.link < self.links.len() {
            Outcome::Ask(
                RunState { phase: Phase::Fetching, work: self },
                Asked::Offer(self.links[self.link].medicine_from_provider_id@),
            )
        } else if self.offers.len() > 0 {
            (WorkState { records: Seq::empty(), offer: 0, ..self }).next_offer()
        } else {
            self.leave()
        }
    }

    /// Goes on with the current matching offer: asks for its provider, or, when
    /// the offers have been gone through, enters the recommendations in the map
    /// and goes on with the next medicine.
    pub open spec fn next_offer(self) -> Outcome {
        if self.offer < self.offers.len() {
            Outcome::Ask(
                RunState { phase: Phase::Naming, work: self },
                Asked::Provider(self.offers[self.offer].provider_id@),
            )
        } else {
            (WorkState {
                mapping: put(
                    self.mapping,
                    Listing { medicine_id: self.id(), records: self.records },
                ),
                records: Seq::empty(),
                at: self.at + 1,
                ..self
            }).next_medicine()
        }
    }
}

impl RunState {
    /// A run that has just begun: it has asked for the medicines that run low.
    pub open spec fn initial() -> RunState {
        RunState {
            phase: Phase::Scanning,
            work: WorkState {
                ids: Seq::empty(),
                at: 0,
                links: Seq::empty(),
                link: 0,
                offers: Seq::empty(),
                offer: 0,
                records: Seq::empty(),
                mapping: Seq::empty(),
                entry: 0,
                matches: Seq::empty(),
                skipped: Seq::empty(),
            },
        }
    }

    /// The run stands within its lists wherever it is waiting for an answer
    /// about one of their items.
    pub open spec fn well_formed(self) -> bool {
        let work = self.work;
        match self.phase {
            Phase::Scanning => true,
            Phase::Checking | Phase::Linking => 0 <= work.at < work.ids.len(),
            Phase::Fetching | Phase::Counting { .. } => 0 <= work.at < work.ids.len() && 0
                <= work.link < work.links.len(),
            Phase::Naming | Phase::Stocking { .. } => 0 <= work.at < work.ids.len() && 0
                <= work.offer < work.offers.len(),
            Phase::Heading => 0 <= work.entry < work.mapping.len(),
        }
    }

    /// The question that the run has asked and is waiting to have answered.
    pub open spec fn asked(self) -> Asked {
        let work = self.work;
        match self.phase {
            Phase::Scanning => Asked::NearLowMedicines,
            Phase::Checking => Asked::Medicine(work.id()),
            Phase::Linking => Asked::Links(work.id()),
            Phase::Fetching => Asked::Offer(work.links[work.link].medicine_from_provider_id@),
            Phase::Counting { offer } => Asked::OpenOrders(offer.id@),
            Phase::Naming => Asked::Provider(work.offers[work.offer].provider_id@),
            Phase::Stocking { .. } => Asked::Medicine(work.id()),
            Phase::Heading => Asked::Medicine(work.mapping[work.entry].medicine_id),
        }
    }

    /// What the run comes to when it is handed `reply`.
    ///
    /// A failure to scan for the medicines that run low ends the run with that
    /// failure. Any other failure, and any reply of another kind than the
    /// question, makes the run pass over the medicine it is at and note its
    /// identifier: over the current medicine with all that was worked out for
    /// it, or, when the report is written, over the current entry of the map.
    pub open spec fn step(self, reply: Reply) -> Outcome {
        let work = self.work;
        match self.phase {
            Phase::Scanning => match reply.near_low() {
                Ok(rows) => (WorkState {
                    ids: ids_of(rows),
                    at: 0,
                    mapping: Seq::empty(),
                    skipped: Seq::empty(),
                    ..work
                }).next_medicine(),
                Err(e) => Outcome::Done(Err(e), Seq::empty()),
            },
            Phase::Checking => match reply.medicine() {
                Ok(_) => Outcome::Ask(
                    RunState { phase: Phase::Linking, work },
                    Asked::Links(work.id()),
                ),
                Err(_) => work.skip(),
            },
            Phase::Linking => match reply.links() {
                Ok(rows) => (WorkState {
                    links: rows,
                    link: 0,
                    offers: Seq::empty(),
                    ..work
                }).next_link(),
                Err(_) => work.skip(),
            },
            Phase::Fetching => match reply.offer() {
                Ok(offer) => Outcome::Ask(
                    RunState { phase: Phase::Counting { offer }, work },
                    Asked::OpenOrders(offer.id@),
                ),
                Err(_) => work.skip(),
            },
            Phase::Counting { offer } => match reply.open_orders() {
                Ok(count) => (WorkState {
                    offers: if count == 0 {
                        work.offers.push(offer)
                    } else {
                        work.offers
                    },
                    link: work.link + 1,
                    ..work
                }).next_link(),
                Err(_) => work.skip(),
            },
            Phase::Naming => match reply.provider_name() {
                Ok(provider_name) => Outcome::Ask(
                    RunState { phase: Phase::Stocking { provider_name }, work },
                    Asked::Medicine(work.id()),
                ),
                Err(_) => work.skip(),
            },
            Phase::Stocking { provider_name } => match reply.medicine() {
                Ok(item) => (WorkState {
                    records: work.records.push(
                        recommendation(item, work.offers[work.offer], provider_name),
                    ),
                    offer: work.offer + 1,
                    ..work
                }).next_offer(),
                Err(_) => work.skip(),
            },
            Phase::Heading => match reply.medicine() {
                Ok(item) => (WorkState {
                    matches: work.matches.push(
                        replenishment(item, work.mapping[work.entry].records),
                    ),
                    entry: work.entry + 1,
                    ..work
                }).next_entry(),
                Err(_) => (WorkState {
                    skipped: work.skipped.push(work.mapping[work.entry].medicine_id),
                    entry: work.entry + 1,
                    ..work
                }).next_entry(),
            },
        }
    }
}

/// What a run has worked out so far.
struct Work {
    ids: Vec<String>,
    at: usize,
    links: Vec<MedicineToMedicineFromProviderRecord>,
    link: usize,
    offers: Vec<MedicineFromProvider>,
    offer: usize,
    records: Vec<MedicineMapRecord>,
    mapping: MedicineMap,
    entry: usize,
    matches: Vec<MedicineMatchingRecord>,
    skipped: Vec<String>,
}

impl View for Work {
    type V = WorkState;

    closed spec fn view(&self) -> WorkState {
        WorkState {
            ids: self.ids@,
            at: self.at as int,
            links: self.links@,
            link: self.link as int,
            offers: self.offers@,
            offer: self.offer as int,
            records: self.records@,
            mapping: self.mapping@,
            entry: self.entry as int,
            matches: replenishments(self.matches@),
            skipped: texts(self.skipped@),
        }
    }
}

/// A run between two questions.
pub struct Run {
    phase: Phase,
    work: Work,
}

impl View for Run {
    type V = RunState;

    closed spec fn view(&self) -> RunState {
        RunState { phase: self.phase, work: self.work@ }
    }
}

/// What comes after an answer: the run to go on with and its next question, or
/// the end of the run, with the report and with the identifiers of the
/// medicines that were passed over because of a failure.
pub enum Progress {
    Ask(Run, Request),
    Done(Result<Vec<MedicineMatchingRecord>, StoreError>, Vec<String>),
}

impl View for Progress {
    type V = Outcome;

    open spec fn view(&self) -> Outcome {
        match self {
            Progress::Ask(run, request) => Outcome::Ask(run@, request@),
            Progress::Done(Ok(matches), skipped) => Outcome::Done(
                Ok(replenishments(matches@)),
                texts(skipped@),
            ),
            Progress::Done(Err(e), skipped) => Outcome::Done(Err(*e), texts(skipped@)),
        }
    }
}

impl Work {
    /// Goes on with the current entry of the map, or ends the run with the report.
    fn next_entry(self) -> (progress: Progress)
        requires
            self.entry <= self.mapping@.len(),
        ensures
            progress@ == self@.next_entry(),
    {
        if self.entry < self.mapping.len() {
            let request = Request::Medicine(
                self.mapping.entries()[self.entry].medicine_id.clone(),
            );
            Progress::Ask(Run { phase: Phase::Heading, work: self }, request)
        } else {
            let mut matches = self.matches;
            sort_by_name(&mut matches);
            Progress::Done(Ok(matches), self.skipped)
        }
    }

    /// Goes on with the current medicine, or turns to the map.
    fn next_medicine(self) -> (progress: Progress)
        requires
            self.at <= self.ids@.len(),
        ensures
            progress@ == self@.next_medicine(),
    {
        if self.at < self.ids.len() {
            let request = Request::Medicine(self.ids[self.at].clone());
            Progress::Ask(Run { phase: Phase::Checking, work: self }, request)
        } else {
            let turned = Work { entry: 0, matches: Vec::new(), ..self };
            proof {
                assert(replenishments(turned.matches@) =~= Seq::<Replenishment>::empty());
            }
            turned.next_entry()
        }
    }

    /// Leaves the current medicine, for which there is nothing to recommend.
    fn leave(self) -> (progress: Progress)
        requires
            self.at < self.ids@.len(),
        ensures
            progress@ == self@.leave(),
    {
        proof {
            assert(self.ids@.len() == self.ids.len());
        }
        (Work { at: self.at + 1, ..self }).next_medicine()
    }

    /// Passes over the current medicine because of a failure.
    fn skip(self) -> (progress: Progress)
        requires
            self.at < self.ids@.len(),
        ensures
            progress@ == self@.skip(),
    {
        proof {
            assert(self.ids@.len() == self.ids.len());
        }
        let ghost noted = texts(self.skipped@);
        let mut skipped = self.skipped;
        skipped.push(self.ids[self.at].clone());
        proof {
            assert(texts(skipped@) =~= noted.push(self.ids@[self.at as int]@));
        }
        (Work { skipped, at: self.at + 1, ..self }).next_medicine()
    }

    /// Goes on with the current link, or turns to the offers that match.
    fn next_link(self) -> (progress: Progress)
        requires
            self.at < self.ids@.len(),
            self.link <= self.links@.len(),
        ensures
            progress@ == self@.next_link(),
    {
        if self.link < self.links.len() {
            let request = Request::Offer(self.links[self.link].medicine_from_provider_id.clone());
            Progress::Ask(Run { phase: Phase::Fetching, work: self }, request)
        } else if self.offers.len() > 0 {
            (Work { records: Vec::new(), offer: 0, ..self }).next_offer()
        } else {
            self.leave()
        }
    }

    /// Goes on with the current matching offer, or enters the recommendations
    /// of the current medicine in the map.
    fn next_offer(self) -> (progress: Progress)
        requires
            self.at < self.ids@.len(),
            self.offer <= self.offers@.len(),
        ensures
            progress@ == self@.next_offer(),
    {
        if self.offer < self.offers.len() {
            let request = Request::Provider(self.offers[self.offer].provider_id.clone());
            Progress::Ask(Run { phase: Phase::Naming, work: self }, request)
        } else {
            proof {
                assert(self.ids@.len() == self.ids.len());
            }
            let mut mapping = self.mapping;
            mapping.insert(self.ids[self.at].clone(), self.records);
            (Work { mapping, records: Vec::new(), at: self.at + 1, ..self }).next_medicine()
        }
    }
}

impl Run {
    #[verifier::type_invariant]
    spec fn stands_within_its_lists(&self) -> bool {
        self@.well_formed()
    }

    /// Begins a run. The first question is for the medicines that run low.
    pub fn start() -> (begun: (Run, Request))
        ensures
            begun.0@ == RunState::initial(),
            begun.1@ == RunState::initial().asked(),
    {
        let work = Work {
            ids: Vec::new(),
            at: 0,
            links: Vec::new(),
            link: 0,
            offers: Vec::new(),
            offer: 0,
            records: Vec::new(),
            mapping: MedicineMap::new(),
            entry: 0,
            matches: Vec::new(),
            skipped: Vec::new(),
        };
        proof {
            assert(work@.matches =~= Seq::<Replenishment>::empty());
            assert(work@.skipped =~= Seq::<Seq<char>>::empty());
        }
        (Run { phase: Phase::Scanning, work }, Request::NearLowMedicines)
    }

    /// Hands the run the answer to the question it has asked, and gives what
    /// comes after: the next question, or the end of the run with its report.
    pub fn advance(self, reply: Reply) -> (progress: Progress)
        ensures
            progress@ == self@.step(reply),
            progress matches Progress::Ask(next, request) ==> next@.well_formed() && request@
                == next@.asked(),
    {
        proof {
            use_type_invariant(&self);
        }
        let Run { phase, work } = self;
        let progress = match phase {
            Phase::Scanning => match reply.into_near_low() {
                Ok(rows) => {
                    let begun = Work {
                        ids: identifiers(&rows),
                        at: 0,
                        mapping: MedicineMap::new(),
                        skipped: Vec::new(),
                        ..work
                    };
                    proof {
                        assert(texts(begun.skipped@) =~= Seq::<Seq<char>>::empty());
                    }
                    begun.next_medicine()
                },
                Err(e) => {
                    let skipped: Vec<String> = Vec::new();
                    proof {
                        assert(texts(skipped@) =~= Seq::<Seq<char>>::empty());
                    }
                    Progress::Done(Err(e), skipped)
                },
            },
            Phase::Checking => match reply.into_medicine() {
                Ok(_) => {
                    let request = Request::Links(work.ids[work.at].clone());
                    Progress::Ask(Run { phase: Phase::Linking, work }, request)
                },
                Err(_) => work.skip(),
            },
            Phase::Linking => match reply.into_links() {
                Ok(rows) => (Work { links: rows, link: 0, offers: Vec::new(), ..work }).next_link(),
                Err(_) => work.skip(),
            },
            Phase::Fetching => match reply.into_offer() {
                Ok(offer) => {
                    let request = Request::OpenOrders(offer.id.clone());
                    Progress::Ask(Run { phase: Phase::Counting { offer }, work }, request)
                },
                Err(_) => work.skip(),
            },
            Phase::Counting { offer } => match reply.into_open_orders() {
                Ok(order_count) => {
                    proof {
                        assert(work.links@.len() == work.links.len());
                    }
                    let mut offers = work.offers;
                    if order_count == 0 {
                        offers.push(offer);
                    }
                    (Work { offers, link: work.link + 1, ..work }).next_link()
                },
                Err(_) => work.skip(),
            },
            Phase::Naming => match reply.into_provider_name() {
                Ok(provider_name) => {
                    let request = Request::Medicine(work.ids[work.at].clone());
                    Progress::Ask(Run { phase: Phase::Stocking { provider_name }, work }, request)
                },
                Err(_) => work.skip(),
            },
            Phase::Stocking { provider_name } => match reply.into_medicine() {
                Ok(medicine_in_stock) => {
                    proof {
                        assert(work.offers@.len() == work.offers.len());
                    }
                    let medicine = work.offers[work.offer].clone();
                    let quantity = quantity_to_order(&medicine_in_stock, &medicine);
                    let mut records = work.records;
                    records.push(
                        MedicineMapRecord {
                            medicine,
                            provider: MedicineMapRecordProvider { name: provider_name },
                            quantity_to_order: quantity,
                        },
                    );
                    (Work { records, offer: work.offer + 1, ..work }).next_offer()
                },
                Err(_) => work.skip(),
            },
            Phase::Heading => {
                let entries = work.mapping.entries();
                proof {
                    assert(entries@.len() == entries.len());
                }
                match reply.into_medicine() {
                    Ok(medicine) => {
                        let record = MedicineMatchingRecord {
                            name: medicine.name,
                            stock_min: medicine.min,
                            provider_medicines: copy_of(&entries[work.entry].records),
                        };
                        let ghost before = replenishments(work.matches@);
                        let mut matches = work.matches;
                        proof {
                            assert(replenishments(matches@.push(record)) =~= before.push(record@));
                        }
                        matches.push(record);
                        (Work { matches, entry: work.entry + 1, ..work }).next_entry()
                    },
                    Err(_) => {
                        let id = entries[work.entry].medicine_id.clone();
                        let ghost noted = texts(work.skipped@);
                        let mut skipped = work.skipped;
                        proof {
                            assert(texts(skipped@.push(id)) =~= noted.push(id@));
                        }
                        skipped.push(id);
                        (Work { skipped, entry: work.entry + 1, ..work }).next_entry()
                    },
                }
            },
        };
        proof {
            if let Progress::Ask(next, _) = &progress {
                use_type_invariant(next);
            }
        }
        progress
    }
}

} // verus!
