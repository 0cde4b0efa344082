use caller_modpath_aggregator::correlate::{correlate, strip_root, CorrelationError};
use caller_modpath_aggregator::ledger::{LedgerEntry, LexicalLocation};

fn entry(line: u64, owner: &str, name: &str) -> LedgerEntry {
    LedgerEntry {
        location: LexicalLocation { start_line: line, start_col: 0, end_line: line, end_col: 8 },
        owner_crate: owner.to_string(),
        function_name: name.to_string(),
    }
}

#[test]
fn three_call_sites_come_back_in_recording_order() {
    let entries = vec![entry(1, "c", "f1"), entry(2, "c", "f2"), entry(3, "c", "f3")];
    let raw = "preamble TOK x \"crate::alpha\" y TOK x \"crate::beta\" y TOK x \"crate::gamma\" y";
    let paths = correlate(&entries, raw, "TOK", "c").unwrap();
    assert_eq!(paths, vec!["alpha::f1", "beta::f2", "gamma::f3"]);
}

#[test]
fn other_crates_entries_are_skipped_but_still_consume_a_segment() {
    let entries = vec![entry(1, "c", "f1"), entry(2, "d", "g"), entry(3, "c", "f2")];
    let raw = "pre TOK a \"crate::alpha\" TOK b \"crate::beta\" TOK c \"crate::gamma\"";
    let for_c = correlate(&entries, raw, "TOK", "c").unwrap();
    assert_eq!(for_c, vec!["alpha::f1", "gamma::f2"]);
    let for_d = correlate(&entries, raw, "TOK", "d").unwrap();
    assert_eq!(for_d, vec!["beta::g"]);
}

#[test]
fn stripping_removes_the_root_module_segment() {
    assert_eq!(strip_root("crate_root::a::b"), Some("a::b".to_string()));
    assert_eq!(strip_root("root::single"), Some("single".to_string()));
    assert_eq!(strip_root("no_separator_here"), None);
}

#[test]
fn a_root_only_literal_with_function_appended() {
    let entries = vec![entry(9, "c", "f")];
    let raw = "pre TOK s \"crate_root::a::b\" t";
    let paths = correlate(&entries, raw, "TOK", "c").unwrap();
    assert_eq!(paths, vec!["a::b::f"]);
}

#[test]
fn a_missing_segment_is_reported_with_its_entry_index() {
    let entries = vec![entry(1, "c", "f1"), entry(2, "c", "f2")];
    let raw = "pre TOK only one segment \"crate::alpha\"";
    let r = correlate(&entries, raw, "TOK", "c");
    assert_eq!(r, Err(CorrelationError::MissingSegment { entry_index: 1 }));
}

#[test]
fn a_literal_without_separator_is_reported_as_malformed() {
    let entries = vec![entry(1, "c", "f1")];
    let raw = "pre TOK segment \"rootonly\" rest";
    let r = correlate(&entries, raw, "TOK", "c");
    assert_eq!(r, Err(CorrelationError::MalformedLiteral { entry_index: 0 }));
}

#[test]
fn correlation_error_message_names_command_and_diagnostics() {
    let e = CorrelationError::MissingSegment { entry_index: 0 };
    let m = e.message("rustc -Z unpretty=expanded main.rs", "error: boom");
    assert_eq!(
        m,
        "Failed to find internal correlation marker; the second compilation pass probably failed. \
         Called as `rustc -Z unpretty=expanded main.rs`. Diagnostics:\nerror: boom"
    );
}

#[test]
fn nested_module_expansion_text_yields_the_full_path() {
    let entries = vec![entry(7, "caller", "baz")];
    let raw = "#![feature(prelude_import)]\nmod foo {\n    mod bar {\n        static caller_modpath_aggregator_UUID_abc123: &str = \"caller::foo::bar\";\n    }\n}\n";
    let paths = correlate(&entries, raw, "abc123", "caller").unwrap();
    assert_eq!(paths, vec!["foo::bar::baz"]);
}

#[test]
fn no_matching_entries_yield_an_empty_result() {
    let entries = vec![entry(1, "d", "g")];
    let raw = "pre TOK seg \"crate::alpha\"";
    let paths = correlate(&entries, raw, "TOK", "c").unwrap();
    assert!(paths.is_empty());
}
