use table_grep::engine::scan_rows;
use table_grep::pattern::Pattern;

fn rows() -> Vec<Vec<String>> {
    vec![
        vec!["Alice".to_string(), "Engineer".to_string()],
        vec!["Bob".to_string(), "Analyst".to_string()],
        vec!["Eve".to_string(), "Engineer".to_string()],
    ]
}

fn re(pattern: &str) -> Pattern {
    Pattern::compile(pattern, false).unwrap()
}

#[test]
fn ordinals_count_every_row_pulled() {
    let outcome = scan_rows(&rows(), &re("Engineer"), &None, false, None, true);
    assert_eq!(outcome.count, 2);
    assert_eq!(outcome.records.len(), 2);
    // The first and third rows match; ordinals are 1-based row positions.
    assert_eq!(outcome.records[0].ordinal, 1);
    assert_eq!(outcome.records[1].ordinal, 3);
    assert_eq!(outcome.records[0].cells[0], "Alice");
    assert_eq!(outcome.records[1].cells[0], "Eve");
}

#[test]
fn limit_stops_the_scan_at_once() {
    let outcome = scan_rows(&rows(), &re("e"), &None, false, Some(1), true);
    assert_eq!(outcome.count, 1);
    assert_eq!(outcome.records.len(), 1);
    assert_eq!(outcome.records[0].ordinal, 1);
}

#[test]
fn limit_zero_still_reports_the_first_match() {
    // The limit is checked only after a match is recorded.
    let outcome = scan_rows(&rows(), &re("Analyst"), &None, false, Some(0), true);
    assert_eq!(outcome.count, 1);
    assert_eq!(outcome.records[0].ordinal, 2);
}

#[test]
fn limit_larger_than_the_match_count_changes_nothing() {
    let outcome = scan_rows(&rows(), &re("Engineer"), &None, false, Some(10), true);
    assert_eq!(outcome.count, 2);
    assert_eq!(outcome.records.len(), 2);
}

#[test]
fn count_only_scan_buffers_nothing() {
    let outcome = scan_rows(&rows(), &re("Engineer"), &None, false, None, false);
    assert_eq!(outcome.count, 2);
    assert!(outcome.records.is_empty());
}

#[test]
fn counting_and_collecting_report_the_same_total() {
    for pat in ["Engineer", "e", "zzz", "A"] {
        let counted = scan_rows(&rows(), &re(pat), &None, false, None, false);
        let collected = scan_rows(&rows(), &re(pat), &None, false, None, true);
        assert_eq!(counted.count, collected.count);
        assert_eq!(collected.records.len(), collected.count);
    }
}

#[test]
fn scanning_twice_yields_identical_records() {
    let a = scan_rows(&rows(), &re("Engineer"), &None, false, None, true);
    let b = scan_rows(&rows(), &re("Engineer"), &None, false, None, true);
    assert_eq!(a.count, b.count);
    assert_eq!(a.records.len(), b.records.len());
    for (x, y) in a.records.iter().zip(b.records.iter()) {
        assert_eq!(x.ordinal, y.ordinal);
        assert_eq!(x.cells, y.cells);
    }
}

#[test]
fn inverted_scan_reports_the_complement() {
    let plain = scan_rows(&rows(), &re("Engineer"), &None, false, None, true);
    let inverted = scan_rows(&rows(), &re("Engineer"), &None, true, None, true);
    assert_eq!(plain.count + inverted.count, rows().len());
    assert_eq!(inverted.records.len(), 1);
    assert_eq!(inverted.records[0].ordinal, 2);
    assert_eq!(inverted.records[0].cells[0], "Bob");
}

#[test]
fn empty_restriction_with_invert_reports_every_row() {
    let empty: Option<Vec<usize>> = Some(Vec::new());
    let outcome = scan_rows(&rows(), &re("anything"), &empty, true, None, true);
    assert_eq!(outcome.count, 3);
    assert_eq!(outcome.records[0].ordinal, 1);
    assert_eq!(outcome.records[1].ordinal, 2);
    assert_eq!(outcome.records[2].ordinal, 3);
}
