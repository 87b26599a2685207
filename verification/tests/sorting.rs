use sage_pharmacy::handlers::provider::MedicineMatchingRecord;
use sage_pharmacy::sorting::sort_by_name;

fn entry(name: &str, stock_min: i32) -> MedicineMatchingRecord {
    MedicineMatchingRecord { name: String::from(name), stock_min, provider_medicines: vec![] }
}

fn labels(entries: &[MedicineMatchingRecord]) -> Vec<(String, i32)> {
    entries.iter().map(|entry| (entry.name.clone(), entry.stock_min)).collect()
}

fn label(name: &str, stock_min: i32) -> (String, i32) {
    (String::from(name), stock_min)
}

#[test]
fn sorting_nothing_gives_nothing() {
    let mut entries: Vec<MedicineMatchingRecord> = vec![];
    sort_by_name(&mut entries);
    assert!(entries.is_empty());
}

#[test]
fn sorting_one_entry_keeps_it() {
    let mut entries = vec![entry("a", 1)];
    sort_by_name(&mut entries);
    assert_eq!(entries, vec![entry("a", 1)]);
}

#[test]
fn sorting_puts_names_in_ascending_order() {
    let mut entries = vec![entry("d", 1), entry("b", 2), entry("e", 3), entry("a", 4), entry("c", 5)];
    sort_by_name(&mut entries);
    assert_eq!(
        labels(&entries),
        vec![label("a", 4), label("b", 2), label("c", 5), label("d", 1), label("e", 3)]
    );
}

#[test]
fn sorting_keeps_sorted_entries() {
    let mut entries = vec![entry("a", 1), entry("b", 2), entry("c", 3)];
    sort_by_name(&mut entries);
    assert_eq!(labels(&entries), vec![label("a", 1), label("b", 2), label("c", 3)]);
}

#[test]
fn sorting_turns_a_descending_list_around() {
    let mut entries = vec![entry("c", 1), entry("b", 2), entry("a", 3)];
    sort_by_name(&mut entries);
    assert_eq!(labels(&entries), vec![label("a", 3), label("b", 2), label("c", 1)]);
}

#[test]
fn sorting_is_stable() {
    let mut entries = vec![
        entry("b", 1),
        entry("a", 2),
        entry("b", 3),
        entry("a", 4),
        entry("b", 5),
        entry("a", 6),
    ];
    sort_by_name(&mut entries);
    assert_eq!(
        labels(&entries),
        vec![label("a", 2), label("a", 4), label("a", 6), label("b", 1), label("b", 3), label("b", 5)]
    );
}

#[test]
fn sorting_agrees_with_the_stable_sort_of_strings() {
    let names = ["pear", "Apple", "apple", "", "fig", "Fig", "apple", "é", "zz", "z", "10", "9"];
    let mut entries: Vec<MedicineMatchingRecord> =
        names.iter().enumerate().map(|(at, name)| entry(name, at as i32)).collect();
    let mut expected = labels(&entries);
    expected.sort_by(|a, b| a.0.cmp(&b.0));
    sort_by_name(&mut entries);
    assert_eq!(labels(&entries), expected);
}
