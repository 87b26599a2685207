use chrono::NaiveDate;
use sage_pharmacy::models::{Medicine, MedicineFromProvider};
use sage_pharmacy::services::provider::quantity_to_order;

fn stock(quantity: i32, alert: i32, max: i32) -> Medicine {
    Medicine {
        id: String::from("m1"),
        name: String::from("Amoxicillin"),
        cost_price: 100,
        selling_price: 150,
        quantity,
        real: quantity,
        nomenclature: None,
        location: String::from("A1"),
        dci: None,
        family: String::from("antibiotic"),
        is_taxed: false,
        min: 1,
        max,
        alert,
        reference: String::from("ref"),
        expiration_date: None,
        manufacturation_date: None,
        medicine_type: String::from("tablet"),
    }
}

fn offer(quantity: i32) -> MedicineFromProvider {
    MedicineFromProvider {
        id: String::from("o1"),
        name: String::from("Amoxicillin 500"),
        price_with_tax: 120,
        price_without_tax: 100,
        quantity,
        dci: None,
        provider_id: String::from("p1"),
        expiration_date: NaiveDate::from_ymd_opt(2030, 1, 1).unwrap(),
    }
}

#[test]
fn quantity_is_limited_by_headroom() {
    assert_eq!(quantity_to_order(&stock(2, 5, 10), &offer(20)), 8);
}

#[test]
fn quantity_is_limited_by_offer() {
    assert_eq!(quantity_to_order(&stock(2, 5, 10), &offer(3)), 3);
}
