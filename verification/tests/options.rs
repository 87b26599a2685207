use chrono::NaiveDate;
use sage_pharmacy::handlers::provider::MedicineMatchingRecord;
use sage_pharmacy::models::MedicineFromProvider;
use sage_pharmacy::options::ReportOptions;
use sage_pharmacy::services::provider::{MedicineMapRecord, MedicineMapRecordProvider};

fn record(offer_id: &str, quantity_to_order: i64) -> MedicineMapRecord {
    MedicineMapRecord {
        medicine: MedicineFromProvider {
            id: String::from(offer_id),
            name: String::from("offer"),
            price_with_tax: 12,
            price_without_tax: 10,
            quantity: 40,
            dci: None,
            provider_id: String::from("p"),
            expiration_date: NaiveDate::from_ymd_opt(2029, 12, 31).unwrap(),
        },
        provider: MedicineMapRecordProvider { name: String::from("Pharma One") },
        quantity_to_order,
    }
}

fn entry(name: &str, records: Vec<MedicineMapRecord>) -> MedicineMatchingRecord {
    MedicineMatchingRecord { name: String::from(name), stock_min: 3, provider_medicines: records }
}

fn written() -> Vec<MedicineMatchingRecord> {
    vec![
        entry("a", vec![record("x", 0), record("y", 2), record("z", -1), record("w", 1)]),
        entry("b", vec![record("x", 0), record("z", -5)]),
        entry("c", vec![record("x", 7)]),
        entry("d", vec![record("x", i64::MIN)]),
        entry("e", vec![record("y", i64::MAX), record("x", 0)]),
    ]
}

#[test]
fn nothing_is_filtered_unless_asked_for() {
    let options = ReportOptions::default();
    assert!(!options.filter_non_positive_quantities);
    assert_eq!(options.apply(written()), written());
}

#[test]
fn filter_leaves_out_quantities_of_zero_or_less() {
    let options = ReportOptions { filter_non_positive_quantities: true };
    assert_eq!(
        options.apply(written()),
        vec![
            entry("a", vec![record("y", 2), record("w", 1)]),
            entry("c", vec![record("x", 7)]),
            entry("e", vec![record("y", i64::MAX)]),
        ]
    );
}

#[test]
fn filter_keeps_a_report_of_positive_quantities() {
    let options = ReportOptions { filter_non_positive_quantities: true };
    let report = vec![entry("a", vec![record("x", 1)]), entry("b", vec![record("y", 2)])];
    assert_eq!(options.apply(report), vec![
        entry("a", vec![record("x", 1)]),
        entry("b", vec![record("y", 2)]),
    ]);
}

#[test]
fn filter_of_an_empty_report_is_empty() {
    let options = ReportOptions { filter_non_positive_quantities: true };
    assert_eq!(options.apply(vec![]), vec![]);
    assert_eq!(ReportOptions::default().apply(vec![]), vec![]);
}

#[test]
fn filter_leaves_out_entries_that_were_written_empty() {
    let options = ReportOptions { filter_non_positive_quantities: true };
    assert_eq!(options.apply(vec![entry("a", vec![])]), vec![]);
    assert_eq!(ReportOptions::default().apply(vec![entry("a", vec![])]), vec![entry("a", vec![])]);
}
