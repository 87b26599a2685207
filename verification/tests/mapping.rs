use chrono::NaiveDate;
use sage_pharmacy::mapping::MedicineMap;
use sage_pharmacy::models::MedicineFromProvider;
use sage_pharmacy::services::provider::{MedicineMapRecord, MedicineMapRecordProvider};

fn record(offer_id: &str, quantity_to_order: i64) -> MedicineMapRecord {
    MedicineMapRecord {
        medicine: MedicineFromProvider {
            id: String::from(offer_id),
            name: String::from("offer"),
            price_with_tax: 12,
            price_without_tax: 10,
            quantity: 40,
            dci: None,
            provider_id: String::from("p"),
            expiration_date: NaiveDate::from_ymd_opt(2029, 12, 31).unwrap(),
        },
        provider: MedicineMapRecordProvider { name: String::from("Pharma One") },
        quantity_to_order,
    }
}

fn keys(map: &MedicineMap) -> Vec<String> {
    map.entries().iter().map(|entry| entry.medicine_id.clone()).collect()
}

#[test]
fn new_map_is_empty() {
    let map = MedicineMap::new();
    assert_eq!(map.len(), 0);
    assert!(map.entries().is_empty());
    assert!(map.get("a").is_none());
}

#[test]
fn insert_adds_an_entry_at_the_end() {
    let mut map = MedicineMap::new();
    map.insert(String::from("b"), vec![record("x", 1)]);
    map.insert(String::from("a"), vec![record("y", 2), record("z", 3)]);
    assert_eq!(map.len(), 2);
    assert_eq!(keys(&map), vec![String::from("b"), String::from("a")]);
    assert_eq!(map.get("b"), Some(&vec![record("x", 1)]));
    assert_eq!(map.get("a"), Some(&vec![record("y", 2), record("z", 3)]));
    assert_eq!(map.get("c"), None);
}

#[test]
fn insert_replaces_the_entry_of_the_same_identifier() {
    let mut map = MedicineMap::new();
    map.insert(String::from("a"), vec![record("x", 1)]);
    map.insert(String::from("b"), vec![record("y", 2)]);
    map.insert(String::from("a"), vec![record("z", 3)]);
    assert_eq!(map.len(), 2);
    assert_eq!(keys(&map), vec![String::from("a"), String::from("b")]);
    assert_eq!(map.get("a"), Some(&vec![record("z", 3)]));
    assert_eq!(map.get("b"), Some(&vec![record("y", 2)]));
}

#[test]
fn insert_keeps_an_empty_list() {
    let mut map = MedicineMap::new();
    map.insert(String::from("a"), vec![]);
    assert_eq!(map.len(), 1);
    assert_eq!(map.get("a"), Some(&vec![]));
}

#[test]
fn identifiers_are_compared_as_they_are_written() {
    let mut map = MedicineMap::new();
    map.insert(String::from("a"), vec![record("x", 1)]);
    map.insert(String::from("A"), vec![record("y", 2)]);
    map.insert(String::from("a "), vec![record("z", 3)]);
    assert_eq!(map.len(), 3);
    assert_eq!(map.get("A"), Some(&vec![record("y", 2)]));
}
