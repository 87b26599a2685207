use chrono::NaiveDate;
use sage_pharmacy::error::StoreError;
use sage_pharmacy::mapping::MedicineMap;
use sage_pharmacy::models::{
    Medicine, MedicineFromProvider, MedicineToMedicineFromProviderRecord, OrderMedicine, Provider,
};
use sage_pharmacy::services::provider::{quantity_to_order, ProviderService};
use sage_pharmacy::services::stock::StockService;
use sage_pharmacy::store::Database;

fn medicine(id: &str, name: &str, quantity: i32, alert: i32, max: i32) -> Medicine {
    Medicine {
        id: String::from(id),
        name: String::from(name),
        cost_price: 100,
        selling_price: 150,
        quantity,
        real: quantity,
        nomenclature: Some(String::from("nomenclature")),
        location: String::from("shelf"),
        dci: None,
        family: String::from("family"),
        is_taxed: false,
        min: 1,
        max,
        alert,
        reference: String::from("ref"),
        expiration_date: None,
        manufacturation_date: NaiveDate::from_ymd_opt(2024, 2, 29),
        medicine_type: String::from("syrup"),
    }
}

fn offer(id: &str, quantity: i32, provider_id: &str) -> MedicineFromProvider {
    MedicineFromProvider {
        id: String::from(id),
        name: format!("offer {}", id),
        price_with_tax: 120,
        price_without_tax: 100,
        quantity,
        dci: Some(String::from("dci")),
        provider_id: String::from(provider_id),
        expiration_date: NaiveDate::from_ymd_opt(2030, 1, 1).unwrap(),
    }
}

fn provider(id: &str, name: &str) -> Provider {
    Provider {
        id: String::from(id),
        account_number: String::from("401"),
        abridgment: String::from("abr"),
        common_account_number: String::from("40"),
        address: String::from("1 main street"),
        complement_adress: None,
        postal_code: None,
        city: String::from("Toamasina"),
        country: String::from("Madagascar"),
        telephone: vec![],
        telecopie: None,
        email: Some(String::from("contact@example.org")),
        contact_name: None,
        rc: None,
        stat: None,
        nif: None,
        cif: None,
        collector: String::from("collector"),
        name: String::from(name),
        min: Some(1),
        min_quantity: Some(2),
    }
}

fn link(medicine_id: &str, offer_id: &str) -> MedicineToMedicineFromProviderRecord {
    MedicineToMedicineFromProviderRecord {
        medicine_id: String::from(medicine_id),
        medicine_from_provider_id: String::from(offer_id),
    }
}

fn order(offer_id: &str) -> OrderMedicine {
    OrderMedicine { medicine_from_provider_id: String::from(offer_id) }
}

fn sample() -> Database {
    Database {
        medicines: Some(vec![
            medicine("a", "A", 2, 5, 10),
            medicine("b", "B", 9, 3, 10),
            medicine("c", "C", 3, 3, 4),
            medicine("d", "D", 0, 1, 50),
        ]),
        offers: Some(vec![
            offer("x", 20, "p"),
            offer("y", 4, "q"),
            offer("z", 1, "p"),
            offer("w", 6, "nobody"),
        ]),
        links: Some(vec![
            link("a", "x"),
            link("c", "y"),
            link("a", "y"),
            link("a", "z"),
            link("b", "x"),
            link("d", "w"),
        ]),
        orders: Some(vec![order("y")]),
        providers: Some(vec![provider("p", "Pharma One"), provider("q", "Pharma Two")]),
    }
}

fn ids(offers: &[MedicineFromProvider]) -> Vec<String> {
    offers.iter().map(|offer| offer.id.clone()).collect()
}

#[test]
fn near_low_medicines_are_those_at_or_below_alert() {
    let db = sample();
    let stock = StockService::new(&db);
    let low = stock.get_near_low_medicines().unwrap();
    assert_eq!(
        low,
        vec![medicine("a", "A", 2, 5, 10), medicine("c", "C", 3, 3, 4), medicine("d", "D", 0, 1, 50)]
    );
}

#[test]
fn near_low_medicines_of_unreadable_stock_is_a_fault() {
    let mut db = sample();
    db.medicines = None;
    let stock = StockService::new(&db);
    assert_eq!(stock.get_near_low_medicines(), Err(StoreError::StoreFault));
}

#[test]
fn get_medicine_finds_the_row() {
    let db = sample();
    let stock = StockService::new(&db);
    assert_eq!(stock.get_medicine("b"), Ok(medicine("b", "B", 9, 3, 10)));
}

#[test]
fn get_medicine_of_unknown_id_is_not_found() {
    let db = sample();
    let stock = StockService::new(&db);
    assert_eq!(stock.get_medicine("e"), Err(StoreError::NotFound));
    assert_eq!(stock.get_medicine(""), Err(StoreError::NotFound));
    assert_eq!(stock.get_medicine("A"), Err(StoreError::NotFound));
}

#[test]
fn get_medicine_of_unreadable_stock_is_a_fault() {
    let mut db = sample();
    db.medicines = None;
    let stock = StockService::new(&db);
    assert_eq!(stock.get_medicine("a"), Err(StoreError::StoreFault));
}

#[test]
fn get_medicine_takes_the_first_of_two_rows() {
    let mut db = sample();
    db.medicines = Some(vec![medicine("a", "first", 1, 1, 1), medicine("a", "second", 2, 2, 2)]);
    let stock = StockService::new(&db);
    assert_eq!(stock.get_medicine("a").unwrap().name, "first");
}

#[test]
fn matching_medicines_are_linked_and_not_on_order() {
    let db = sample();
    let stock = StockService::new(&db);
    let providers = ProviderService::new(&db, &stock);
    let found = providers.get_matching_medicines(String::from("a")).unwrap();
    assert_eq!(found, vec![offer("x", 20, "p"), offer("z", 1, "p")]);
}

#[test]
fn matching_medicines_may_be_none() {
    let db = sample();
    let stock = StockService::new(&db);
    let providers = ProviderService::new(&db, &stock);
    assert_eq!(providers.get_matching_medicines(String::from("c")), Ok(vec![]));
}

#[test]
fn matching_medicines_do_not_depend_on_the_stock_level() {
    let db = sample();
    let stock = StockService::new(&db);
    let providers = ProviderService::new(&db, &stock);
    let found = providers.get_matching_medicines(String::from("b")).unwrap();
    assert_eq!(ids(&found), vec![String::from("x")]);
}

#[test]
fn matching_medicines_of_unknown_item_is_not_found() {
    let db = sample();
    let stock = StockService::new(&db);
    let providers = ProviderService::new(&db, &stock);
    assert_eq!(providers.get_matching_medicines(String::from("e")), Err(StoreError::NotFound));
}

#[test]
fn matching_medicines_with_dangling_link_is_not_found() {
    let mut db = sample();
    db.links = Some(vec![link("a", "x"), link("a", "gone"), link("a", "z")]);
    let stock = StockService::new(&db);
    let providers = ProviderService::new(&db, &stock);
    assert_eq!(providers.get_matching_medicines(String::from("a")), Err(StoreError::NotFound));
}

#[test]
fn matching_medicines_with_unreadable_relation_is_a_fault() {
    for broken in 0..3 {
        let mut db = sample();
        match broken {
            0 => db.links = None,
            1 => db.offers = None,
            _ => db.orders = None,
        }
        let stock = StockService::new(&db);
        let providers = ProviderService::new(&db, &stock);
        assert_eq!(
            providers.get_matching_medicines(String::from("a")),
            Err(StoreError::StoreFault)
        );
    }
}

#[test]
fn matching_medicines_check_the_item_before_the_links() {
    let mut db = sample();
    db.links = None;
    let stock = StockService::new(&db);
    let providers = ProviderService::new(&db, &stock);
    assert_eq!(providers.get_matching_medicines(String::from("e")), Err(StoreError::NotFound));
}

#[test]
fn matching_medicines_read_the_stock_of_the_stock_service() {
    let db = sample();
    let mut other = sample();
    other.medicines = Some(vec![medicine("e", "E", 0, 0, 0)]);
    other.links = Some(vec![link("e", "x")]);
    let stock = StockService::new(&other);
    let providers = ProviderService::new(&db, &stock);
    assert_eq!(providers.get_matching_medicines(String::from("a")), Err(StoreError::NotFound));
    assert_eq!(providers.get_matching_medicines(String::from("e")), Ok(vec![]));
}

#[test]
fn mapping_one_item_enters_its_recommendations() {
    let db = sample();
    let stock = StockService::new(&db);
    let providers = ProviderService::new(&db, &stock);
    let mut map = MedicineMap::new();
    assert_eq!(providers.map_medicine_to_medicine_from_provider(String::from("a"), &mut map), Ok(()));
    assert_eq!(map.len(), 1);
    let records = map.get("a").unwrap();
    assert_eq!(records.len(), 2);
    assert_eq!(records[0].medicine, offer("x", 20, "p"));
    assert_eq!(records[0].provider.name, "Pharma One");
    assert_eq!(records[0].quantity_to_order, 8);
    assert_eq!(records[1].medicine, offer("z", 1, "p"));
    assert_eq!(records[1].quantity_to_order, 1);
}

#[test]
fn mapping_an_item_without_offers_enters_nothing() {
    let db = sample();
    let stock = StockService::new(&db);
    let providers = ProviderService::new(&db, &stock);
    let mut map = MedicineMap::new();
    assert_eq!(providers.map_medicine_to_medicine_from_provider(String::from("c"), &mut map), Ok(()));
    assert_eq!(map.len(), 0);
    assert!(map.get("c").is_none());
}

#[test]
fn mapping_an_item_with_unknown_provider_fails_and_enters_nothing() {
    let db = sample();
    let stock = StockService::new(&db);
    let providers = ProviderService::new(&db, &stock);
    let mut map = MedicineMap::new();
    assert_eq!(
        providers.map_medicine_to_medicine_from_provider(String::from("d"), &mut map),
        Err(StoreError::NotFound)
    );
    assert_eq!(map.len(), 0);
}

#[test]
fn mapping_an_unknown_item_fails_and_keeps_the_map() {
    let db = sample();
    let stock = StockService::new(&db);
    let providers = ProviderService::new(&db, &stock);
    let mut map = MedicineMap::new();
    providers.map_medicine_to_medicine_from_provider(String::from("a"), &mut map).unwrap();
    assert_eq!(
        providers.map_medicine_to_medicine_from_provider(String::from("e"), &mut map),
        Err(StoreError::NotFound)
    );
    assert_eq!(map.len(), 1);
    assert!(map.get("a").is_some());
}

#[test]
fn mapping_with_unreadable_providers_is_a_fault() {
    let mut db = sample();
    db.providers = None;
    let stock = StockService::new(&db);
    let providers = ProviderService::new(&db, &stock);
    let mut map = MedicineMap::new();
    assert_eq!(
        providers.map_medicine_to_medicine_from_provider(String::from("a"), &mut map),
        Err(StoreError::StoreFault)
    );
    assert_eq!(map.len(), 0);
}

#[test]
fn matching_for_list_passes_over_what_fails() {
    let db = sample();
    let stock = StockService::new(&db);
    let providers = ProviderService::new(&db, &stock);
    let map = providers.get_matching_medicines_for_list(vec![
        String::from("d"),
        String::from("b"),
        String::from("e"),
        String::from("c"),
        String::from("a"),
    ]);
    let entered: Vec<String> =
        map.entries().iter().map(|entry| entry.medicine_id.clone()).collect();
    assert_eq!(entered, vec![String::from("b"), String::from("a")]);
    assert_eq!(map.get("b").unwrap().len(), 1);
    assert_eq!(map.get("b").unwrap()[0].quantity_to_order, 1);
    assert_eq!(map.get("a").unwrap().len(), 2);
}

#[test]
fn matching_for_list_enters_an_item_once() {
    let db = sample();
    let stock = StockService::new(&db);
    let providers = ProviderService::new(&db, &stock);
    let map = providers.get_matching_medicines_for_list(vec![
        String::from("a"),
        String::from("b"),
        String::from("a"),
    ]);
    let entered: Vec<String> =
        map.entries().iter().map(|entry| entry.medicine_id.clone()).collect();
    assert_eq!(entered, vec![String::from("a"), String::from("b")]);
}

#[test]
fn matching_for_empty_list_is_empty() {
    let db = sample();
    let stock = StockService::new(&db);
    let providers = ProviderService::new(&db, &stock);
    assert_eq!(providers.get_matching_medicines_for_list(vec![]).len(), 0);
}

#[test]
fn quantity_is_the_smaller_of_offer_and_headroom() {
    assert_eq!(quantity_to_order(&medicine("a", "A", 2, 5, 10), &offer("x", 20, "p")), 8);
    assert_eq!(quantity_to_order(&medicine("a", "A", 2, 5, 10), &offer("x", 8, "p")), 8);
    assert_eq!(quantity_to_order(&medicine("a", "A", 2, 5, 10), &offer("x", 7, "p")), 7);
    assert_eq!(quantity_to_order(&medicine("a", "A", 2, 5, 10), &offer("x", 0, "p")), 0);
    assert_eq!(quantity_to_order(&medicine("a", "A", 10, 5, 10), &offer("x", 3, "p")), 0);
    assert_eq!(quantity_to_order(&medicine("a", "A", 12, 5, 10), &offer("x", 3, "p")), -2);
}

#[test]
fn quantity_does_not_overflow() {
    assert_eq!(
        quantity_to_order(&medicine("a", "A", i32::MAX, 0, i32::MIN), &offer("x", 3, "p")),
        -4294967295
    );
    assert_eq!(
        quantity_to_order(&medicine("a", "A", i32::MIN, 0, i32::MAX), &offer("x", i32::MAX, "p")),
        2147483647
    );
    assert_eq!(
        quantity_to_order(&medicine("a", "A", -1, 0, i32::MAX), &offer("x", i32::MIN, "p")),
        -2147483648
    );
}

#[test]
fn matching_for_list_names_what_it_passed_over() {
    let db = sample();
    let stock = StockService::new(&db);
    let providers = ProviderService::new(&db, &stock);
    let (map, skipped) = providers.get_matching_medicines_for_list_with_skipped(vec![
        String::from("d"),
        String::from("b"),
        String::from("e"),
        String::from("c"),
        String::from("a"),
        String::from("e"),
    ]);
    let entered: Vec<String> =
        map.entries().iter().map(|entry| entry.medicine_id.clone()).collect();
    assert_eq!(entered, vec![String::from("b"), String::from("a")]);
    assert_eq!(skipped, vec![String::from("d"), String::from("e"), String::from("e")]);
}
