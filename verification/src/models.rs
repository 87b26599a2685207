//! The rows of the data store: medicines in stock, providers, the medicines that
//! providers offer, the links between the two kinds of medicine, and the orders
//! that are outstanding.

use vstd::prelude::*;

verus! {

/// `chrono::NaiveDate`, a calendar date. The rows carry it through as it is:
/// nothing is claimed of it, and nothing here looks inside it.
#[verifier::external_type_specification]
#[verifier::external_body]
pub struct ExNaiveDate(chrono::NaiveDate);

/// A medicine held in stock.
#[derive(Debug, PartialEq, Eq)]
pub struct Medicine {
    pub id: String,
    pub name: String,
    pub cost_price: i32,
    pub selling_price: i32,
    pub quantity: i32,
    pub real: i32,
    pub nomenclature: Option<String>,
    pub location: String,
    pub dci: Option<String>,
    pub family: String,
    pub is_taxed: bool,
    pub min: i32,
    pub max: i32,
    pub alert: i32,
    pub reference: String,
    pub expiration_date: Option<chrono::NaiveDate>,
    pub manufacturation_date: Option<chrono::NaiveDate>,
    pub medicine_type: String,
}

impl Medicine {
    /// The stock has fallen to the alert threshold or below it.
    pub open spec fn near_low(&self) -> bool {
        self.quantity <= self.alert
    }

    /// How many units fit before the stock reaches its maximum; negative when the
    /// stock is already above it.
    pub open spec fn headroom(&self) -> int {
        self.max - self.quantity
    }

    /// Whether the stock has fallen to the alert threshold or below it.
    pub fn is_near_low(&self) -> (low: bool)
        ensures
            low == self.near_low(),
    {
        self.quantity <= self.alert
    }
}

impl Clone for Medicine {
    fn clone(&self) -> (copy: Self)
        ensures
            copy == *self,
    {
        Medicine {
            id: self.id.clone(),
            name: self.name.clone(),
            cost_price: self.cost_price,
            selling_price: self.selling_price,
            quantity: self.quantity,
            real: self.real,
            nomenclature: self.nomenclature.clone(),
            location: self.location.clone(),
            dci: self.dci.clone(),
            family: self.family.clone(),
            is_taxed: self.is_taxed,
            min: self.min,
            max: self.max,
            alert: self.alert,
            reference: self.reference.clone(),
            expiration_date: self.expiration_date,
            manufacturation_date: self.manufacturation_date,
            medicine_type: self.medicine_type.clone(),
        }
    }
}

/// A supplier of medicines.
#[derive(Debug, PartialEq, Eq)]
pub struct Provider {
    pub id: String,
    pub account_number: String,
    pub abridgment: String,
    pub common_account_number: String,
    pub address: String,
    pub complement_adress: Option<String>,
    pub postal_code: Option<i32>,
    pub city: String,
    pub country: String,
    pub telephone: Vec<String>,
    pub telecopie: Option<String>,
    pub email: Option<String>,
    pub contact_name: Option<String>,
    pub rc: Option<String>,
    pub stat: Option<String>,
    pub nif: Option<String>,
    pub cif: Option<String>,
    pub collector: String,
    pub name: String,
    pub min: Option<i32>,
    pub min_quantity: Option<i32>,
}

impl Provider {
    /// The two rows say the same of their provider, column by column.
    pub open spec fn same_as(&self, other: Provider) -> bool {
        &&& self.id == other.id
        &&& self.account_number == other.account_number
        &&& self.abridgment == other.abridgment
        &&& self.common_account_number == other.common_account_number
        &&& self.address == other.address
        &&& self.complement_adress == other.complement_adress
        &&& self.postal_code == other.postal_code
        &&& self.city == other.city
        &&& self.country == other.country
        &&& self.telephone@ == other.telephone@
        &&& self.telecopie == other.telecopie
        &&& self.email == other.email
        &&& self.contact_name == other.contact_name
        &&& self.rc == other.rc
        &&& self.stat == other.stat
        &&& self.nif == other.nif
        &&& self.cif == other.cif
        &&& self.collector == other.collector
        &&& self.name == other.name
        &&& self.min == other.min
        &&& self.min_quantity == other.min_quantity
    }
}

impl Clone for Provider {
    fn clone(&self) -> (copy: Self)
        ensures
            copy.same_as(*self),
    {
        let telephone = self.telephone.clone();
        proof {
            assert(telephone@ =~= self.telephone@);
        }
        Provider {
            id: self.id.clone(),
            account_number: self.account_number.clone(),
            abridgment: self.abridgment.clone(),
            common_account_number: self.common_account_number.clone(),
            address: self.address.clone(),
            complement_adress: self.complement_adress.clone(),
            postal_code: self.postal_code,
            city: self.city.clone(),
            country: self.country.clone(),
            telephone,
            telecopie: self.telecopie.clone(),
            email: self.email.clone(),
            contact_name: self.contact_name.clone(),
            rc: self.rc.clone(),
            stat: self.stat.clone(),
            nif: self.nif.clone(),
            cif: self.cif.clone(),
            collector: self.collector.clone(),
            name: self.name.clone(),
            min: self.min,
            min_quantity: self.min_quantity,
        }
    }
}

/// A medicine as one provider offers it.
#[derive(Debug, PartialEq, Eq)]
pub struct MedicineFromProvider {
    pub id: String,
    pub name: String,
    pub price_with_tax: i32,
    pub price_without_tax: i32,
    pub quantity: i32,
    pub dci: Option<String>,
    pub provider_id: String,
    pub expiration_date: chrono::NaiveDate,
}

impl MedicineFromProvider {
    /// What the data model promises of an offer: the quantity on offer is not negative.
    pub open spec fn well_formed(&self) -> bool {
        0 <= self.quantity
    }
}

impl Clone for MedicineFromProvider {
    fn clone(&self) -> (copy: Self)
        ensures
            copy == *self,
    {
        MedicineFromProvider {
            id: self.id.clone(),
            name: self.name.clone(),
            price_with_tax: self.price_with_tax,
            price_without_tax: self.price_without_tax,
            quantity: self.quantity,
            dci: self.dci.clone(),
            provider_id: self.provider_id.clone(),
            expiration_date: self.expiration_date,
        }
    }
}

/// One row of the many-to-many relation between medicines in stock and medicines
/// on offer.
#[derive(Debug, PartialEq, Eq)]
pub struct MedicineToMedicineFromProviderRecord {
    pub medicine_id: String,
    pub medicine_from_provider_id: String,
}

impl Clone for MedicineToMedicineFromProviderRecord {
    fn clone(&self) -> (copy: Self)
        ensures
            copy == *self,
    {
        MedicineToMedicineFromProviderRecord {
            medicine_id: self.medicine_id.clone(),
            medicine_from_provider_id: self.medicine_from_provider_id.clone(),
        }
    }
}

/// One outstanding order line: it names the offer that was ordered.
#[derive(Debug, PartialEq, Eq)]
pub struct OrderMedicine {
    pub medicine_from_provider_id: String,
}

} // verus!
