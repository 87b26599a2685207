use chrono::NaiveDate;
use sage_pharmacy::error::StoreError;
use sage_pharmacy::models::{
    Medicine, MedicineFromProvider, MedicineToMedicineFromProviderRecord, OrderMedicine, Provider,
};
use sage_pharmacy::store::{position_of, Database};

fn medicine(id: &str, quantity: i32, alert: i32) -> Medicine {
    Medicine {
        id: String::from(id),
        name: format!("medicine {}", id),
        cost_price: 1,
        selling_price: 2,
        quantity,
        real: 0,
        nomenclature: None,
        location: String::from("shelf"),
        dci: None,
        family: String::from("family"),
        is_taxed: false,
        min: 0,
        max: 10,
        alert,
        reference: String::from("ref"),
        expiration_date: None,
        manufacturation_date: None,
        medicine_type: String::from("tablet"),
    }
}

fn offer(id: &str, provider_id: &str) -> MedicineFromProvider {
    MedicineFromProvider {
        id: String::from(id),
        name: format!("offer {}", id),
        price_with_tax: 12,
        price_without_tax: 10,
        quantity: 5,
        dci: None,
        provider_id: String::from(provider_id),
        expiration_date: NaiveDate::from_ymd_opt(2030, 1, 1).unwrap(),
    }
}

fn provider(id: &str, name: &str) -> Provider {
    Provider {
        id: String::from(id),
        account_number: String::new(),
        abridgment: String::new(),
        common_account_number: String::new(),
        address: String::new(),
        complement_adress: None,
        postal_code: None,
        city: String::new(),
        country: String::new(),
        telephone: vec![String::from("1"), String::from("2")],
        telecopie: None,
        email: None,
        contact_name: None,
        rc: None,
        stat: None,
        nif: None,
        cif: None,
        collector: String::new(),
        name: String::from(name),
        min: None,
        min_quantity: None,
    }
}

fn link(medicine_id: &str, offer_id: &str) -> MedicineToMedicineFromProviderRecord {
    MedicineToMedicineFromProviderRecord {
        medicine_id: String::from(medicine_id),
        medicine_from_provider_id: String::from(offer_id),
    }
}

fn order(offer_id: &str) -> OrderMedicine {
    OrderMedicine { medicine_from_provider_id: String::from(offer_id) }
}

fn sample() -> Database {
    Database {
        medicines: Some(vec![
            medicine("a", 5, 5),
            medicine("b", 6, 5),
            medicine("c", -1, 0),
            medicine("d", 0, -1),
        ]),
        offers: Some(vec![offer("x", "p"), offer("y", "q"), offer("x", "q")]),
        links: Some(vec![link("a", "x"), link("b", "x"), link("a", "y"), link("a", "x")]),
        orders: Some(vec![order("x"), order("y"), order("x")]),
        providers: Some(vec![provider("p", "Pharma One"), provider("q", "Pharma Two")]),
    }
}

fn unreadable() -> Database {
    Database { medicines: None, offers: None, links: None, orders: None, providers: None }
}

#[test]
fn scan_for_low_stock_keeps_the_order_of_the_rows() {
    let low = sample().near_low_medicines().unwrap();
    assert_eq!(low, vec![medicine("a", 5, 5), medicine("c", -1, 0)]);
}

#[test]
fn lookups_give_the_first_row_with_the_identifier() {
    let db = sample();
    assert_eq!(db.medicine(&String::from("d")), Ok(medicine("d", 0, -1)));
    assert_eq!(db.offer(&String::from("x")), Ok(offer("x", "p")));
    assert_eq!(db.offer(&String::from("y")), Ok(offer("y", "q")));
    assert_eq!(db.provider(&String::from("q")), Ok(&provider("q", "Pharma Two")));
}

#[test]
fn lookups_of_unknown_identifiers_are_not_found() {
    let db = sample();
    assert_eq!(db.medicine(&String::from("x")), Err(StoreError::NotFound));
    assert_eq!(db.offer(&String::from("a")), Err(StoreError::NotFound));
    assert_eq!(db.provider(&String::from("Pharma One")), Err(StoreError::NotFound));
}

#[test]
fn links_are_those_of_the_medicine_in_the_order_of_the_rows() {
    let db = sample();
    assert_eq!(
        db.links_of(&String::from("a")),
        Ok(vec![link("a", "x"), link("a", "y"), link("a", "x")])
    );
    assert_eq!(db.links_of(&String::from("b")), Ok(vec![link("b", "x")]));
    assert_eq!(db.links_of(&String::from("x")), Ok(vec![]));
}

#[test]
fn orders_are_counted_by_offer() {
    let db = sample();
    assert_eq!(db.open_orders(&String::from("x")), Ok(2));
    assert_eq!(db.open_orders(&String::from("y")), Ok(1));
    assert_eq!(db.open_orders(&String::from("z")), Ok(0));
}

#[test]
fn unreadable_relations_are_faults() {
    let db = unreadable();
    let id = String::from("a");
    assert_eq!(db.near_low_medicines(), Err(StoreError::StoreFault));
    assert_eq!(db.medicine(&id), Err(StoreError::StoreFault));
    assert_eq!(db.links_of(&id), Err(StoreError::StoreFault));
    assert_eq!(db.offer(&id), Err(StoreError::StoreFault));
    assert_eq!(db.open_orders(&id), Err(StoreError::StoreFault));
    assert_eq!(db.provider(&id), Err(StoreError::StoreFault));
}

#[test]
fn position_is_that_of_the_first_row_with_the_key() {
    let rows = vec![order("x"), order("y"), order("x")];
    assert_eq!(position_of(&rows, &String::from("x")), Some(0));
    assert_eq!(position_of(&rows, &String::from("y")), Some(1));
    assert_eq!(position_of(&rows, &String::from("z")), None);
    assert_eq!(position_of(&Vec::<OrderMedicine>::new(), &String::from("x")), None);
}

#[test]
fn low_stock_is_at_or_below_the_alert_threshold() {
    assert!(medicine("a", 5, 5).is_near_low());
    assert!(medicine("a", 4, 5).is_near_low());
    assert!(!medicine("a", 6, 5).is_near_low());
    assert!(medicine("a", i32::MIN, i32::MIN).is_near_low());
    assert!(!medicine("a", i32::MAX, i32::MIN).is_near_low());
}

#[test]
fn copies_of_rows_are_equal_to_the_rows() {
    let item = medicine("a", 5, 5);
    assert_eq!(item.clone(), item);
    let offered = offer("x", "p");
    assert_eq!(offered.clone(), offered);
    let linked = link("a", "x");
    assert_eq!(linked.clone(), linked);
}
