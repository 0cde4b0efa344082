use caller_modpath_aggregator::ledger::{Ledger, LexicalLocation};

fn loc(line: u64, col: u64) -> LexicalLocation {
    LexicalLocation { start_line: line, start_col: col, end_line: line, end_col: col + 3 }
}

#[test]
fn recording_same_location_twice_keeps_one_entry() {
    let mut ledger = Ledger::new();
    ledger.record(loc(4, 1), "c".to_string(), "f".to_string());
    ledger.record(loc(4, 1), "c".to_string(), "g".to_string());
    assert_eq!(ledger.len(), 1);
    let entries = ledger.snapshot();
    assert_eq!(entries[0].function_name, "f");
    assert_eq!(entries[0].owner_crate, "c");
}

#[test]
fn recording_distinct_locations_keeps_insertion_order() {
    let mut ledger = Ledger::new();
    ledger.record(loc(1, 0), "c".to_string(), "f1".to_string());
    ledger.record(loc(2, 0), "c".to_string(), "f2".to_string());
    ledger.record(loc(3, 0), "c".to_string(), "f3".to_string());
    assert_eq!(ledger.len(), 3);
    let entries = ledger.snapshot();
    assert_eq!(entries[0].function_name, "f1");
    assert_eq!(entries[1].function_name, "f2");
    assert_eq!(entries[2].function_name, "f3");
}

#[test]
fn locations_differing_in_any_field_are_distinct() {
    let mut ledger = Ledger::new();
    ledger.record(loc(4, 1), "c".to_string(), "f".to_string());
    ledger.record(loc(4, 2), "c".to_string(), "f".to_string());
    assert_eq!(ledger.len(), 2);
}

#[test]
fn empty_ledger_has_no_entries() {
    let ledger = Ledger::new();
    assert_eq!(ledger.len(), 0);
    assert!(ledger.snapshot().is_empty());
}
