use fractal_gen::ledger::{Ledger, LedgerRow};

fn row(cdn: &str, origin: &str, name: &str, size: &str) -> LedgerRow {
    LedgerRow {
        cdn_url: cdn.to_string(),
        origin_url: origin.to_string(),
        file_name: name.to_string(),
        size_kib: size.to_string(),
    }
}

fn record(fields: &[&str]) -> Vec<String> {
    fields.iter().map(|f| f.to_string()).collect()
}

#[test]
fn header_names_the_four_columns() {
    assert_eq!(
        LedgerRow::header(),
        row("cdn_url", "origin_url", "file_name", "file_size_kib")
    );
}

#[test]
fn record_of_four_fields_is_a_full_row() {
    assert_eq!(
        LedgerRow::from_record(&record(&["c", "o", "f.png", "12.50"])),
        Some(row("c", "o", "f.png", "12.50"))
    );
}

#[test]
fn shorter_records_leave_columns_empty() {
    assert_eq!(LedgerRow::from_record(&record(&["c", "o"])), Some(row("c", "o", "", "")));
    assert_eq!(LedgerRow::from_record(&record(&["c"])), Some(row("c", "", "", "")));
}

#[test]
fn records_of_other_lengths_are_not_rows() {
    assert_eq!(LedgerRow::from_record(&record(&[])), None);
    assert_eq!(LedgerRow::from_record(&record(&["a", "b", "c"])), None);
    assert_eq!(LedgerRow::from_record(&record(&["a", "b", "c", "d", "e"])), None);
}

#[test]
fn new_ledger_is_empty() {
    let ledger = Ledger::new();
    assert_eq!(ledger.len(), 0);
    assert!(!ledger.contains("a.png"));
    assert!(!ledger.contains(""));
}

#[test]
fn upsert_adds_unknown_file_names_in_order() {
    let mut ledger = Ledger::new();
    assert!(ledger.upsert(row("c1", "o1", "a.png", "1.00")));
    assert!(ledger.upsert(row("c2", "o2", "b.png", "2.00")));
    assert_eq!(ledger.len(), 2);
    assert!(ledger.contains("a.png"));
    assert!(ledger.contains("b.png"));
    assert!(!ledger.contains("c.png"));
    assert_eq!(ledger.rows, vec![row("c1", "o1", "a.png", "1.00"), row("c2", "o2", "b.png", "2.00")]);
}

#[test]
fn upsert_skips_a_recorded_file_name() {
    let mut ledger = Ledger::new();
    assert!(ledger.upsert(row("c1", "o1", "a.png", "1.00")));
    assert!(!ledger.upsert(row("other", "other", "a.png", "9.99")));
    assert_eq!(ledger.rows, vec![row("c1", "o1", "a.png", "1.00")]);
}

#[test]
fn upsert_twice_equals_upsert_once() {
    let mut once = Ledger::new();
    once.upsert(row("c0", "o0", "z.png", "0.10"));
    let mut twice = once.clone();
    let new_row = row("c1", "o1", "a.png", "1.00");
    once.upsert(new_row.clone());
    twice.upsert(new_row.clone());
    twice.upsert(new_row);
    assert_eq!(once, twice);
    assert_eq!(once.len(), 2);
}

#[test]
fn rows_read_from_records_take_part_in_upsert() {
    let mut ledger = Ledger::new();
    for fields in [
        record(&["c1", "o1", "a.png", "1.00"]),
        record(&["legacy"]),
        record(&["x", "y", "z"]),
        record(&["c2", "o2", "a.png", "3.00"]),
    ] {
        if let Some(r) = LedgerRow::from_record(&fields) {
            ledger.upsert(r);
        }
    }
    assert_eq!(
        ledger.rows,
        vec![row("c1", "o1", "a.png", "1.00"), row("legacy", "", "", "")]
    );
}
