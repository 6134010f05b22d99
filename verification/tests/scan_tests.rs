use table_grep::cell::CellValue;
use table_grep::cli::{Cli, OutputFormat};
use table_grep::output::{Event, Printer};
use table_grep::scan::{file_kind, is_supported, scan_cell_rows, scan_csv_data, FileKind, ScanError};

const DATA: &[u8] = b"name,age,role\nAlice,30,Engineer\nBob,25,Analyst\n";

fn base_cli(pattern: &str) -> Cli {
    Cli {
        pattern: pattern.to_string(),
        path: "people.csv".to_string(),
        columns: None,
        ignore_case: false,
        invert: false,
        only_matching: false,
        no_filename: false,
        with_headers: true,
        count: false,
        fixed_strings: false,
        max_count: None,
        no_color: true,
        format: OutputFormat::Csv,
    }
}

#[test]
fn csv_pattern_finds_one_engineer() {
    let cli = base_cli("Eng");
    let pattern = cli.build_regex().unwrap();
    let report = scan_csv_data(DATA, "people.csv", &pattern, &cli).unwrap();
    assert_eq!(report.count, 1);
    assert!(report.warnings.is_empty());
    assert_eq!(report.events.len(), 4);
    assert!(matches!(&report.events[0], Event::FileHeader { filename } if filename == "people.csv"));
    match &report.events[1] {
        Event::HeaderRow { columns } => {
            assert_eq!(columns, &vec!["name".to_string(), "age".to_string(), "role".to_string()]);
        }
        other => panic!("expected a header row, got {:?}", event_name(other)),
    }
    match &report.events[2] {
        Event::MatchRow { ordinal, cells } => {
            assert_eq!(*ordinal, 1);
            assert_eq!(
                cells,
                &vec!["Alice".to_string(), "30".to_string(), "Engineer".to_string()]
            );
        }
        other => panic!("expected a match row, got {:?}", event_name(other)),
    }
    assert!(matches!(&report.events[3], Event::Separator));
}

fn event_name(e: &Event) -> &'static str {
    match e {
        Event::FileHeader { .. } => "FileHeader",
        Event::HeaderRow { .. } => "HeaderRow",
        Event::MatchRow { .. } => "MatchRow",
        Event::OnlyMatchingCell { .. } => "OnlyMatchingCell",
        Event::CountLine { .. } => "CountLine",
        Event::Separator => "Separator",
        Event::TableBlock { .. } => "TableBlock",
    }
}

#[test]
fn csv_digit_pattern_restricted_to_name_matches_nothing() {
    let mut cli = base_cli("3");
    cli.columns = Some(vec!["name".to_string()]);
    let pattern = cli.build_regex().unwrap();
    let report = scan_csv_data(DATA, "people.csv", &pattern, &cli).unwrap();
    assert_eq!(report.count, 0);
    assert!(report.events.is_empty());
    assert!(report.warnings.is_empty());
}

#[test]
fn csv_inverted_pattern_finds_the_analyst() {
    let mut cli = base_cli("Eng");
    cli.invert = true;
    let pattern = cli.build_regex().unwrap();
    let report = scan_csv_data(DATA, "people.csv", &pattern, &cli).unwrap();
    assert_eq!(report.count, 1);
    match &report.events[2] {
        Event::MatchRow { ordinal, cells } => {
            assert_eq!(*ordinal, 2);
            assert_eq!(
                cells,
                &vec!["Bob".to_string(), "25".to_string(), "Analyst".to_string()]
            );
        }
        other => panic!("expected a match row, got {:?}", event_name(other)),
    }
}

#[test]
fn columnar_null_and_value_match_at_their_ordinals() {
    let headers = vec!["n".to_string()];
    let cells = vec![
        vec![CellValue::Int(1)],
        vec![CellValue::Int(2)],
        vec![CellValue::Null],
        vec![CellValue::Int(4)],
        vec![CellValue::Int(42)],
    ];
    let cli = base_cli("42");
    let pattern = cli.build_regex().unwrap();
    let report = scan_cell_rows(&headers, &cells, "data.parquet", &pattern, &cli);
    assert_eq!(report.count, 1);
    match &report.events[2] {
        Event::MatchRow { ordinal, cells } => {
            assert_eq!(*ordinal, 5);
            assert_eq!(cells, &vec!["42".to_string()]);
        }
        other => panic!("expected a match row, got {:?}", event_name(other)),
    }

    let cli_null = base_cli("NULL");
    let pattern_null = cli_null.build_regex().unwrap();
    let report_null = scan_cell_rows(&headers, &cells, "data.parquet", &pattern_null, &cli_null);
    assert_eq!(report_null.count, 1);
    match &report_null.events[2] {
        Event::MatchRow { ordinal, cells } => {
            assert_eq!(*ordinal, 3);
            assert_eq!(cells, &vec!["NULL".to_string()]);
        }
        other => panic!("expected a match row, got {:?}", event_name(other)),
    }
}

#[test]
fn count_mode_emits_one_count_line() {
    let mut cli = base_cli("e");
    cli.count = true;
    let pattern = cli.build_regex().unwrap();
    let report = scan_csv_data(DATA, "people.csv", &pattern, &cli).unwrap();
    assert_eq!(report.count, 1);
    assert_eq!(report.events.len(), 1);
    match &report.events[0] {
        Event::CountLine { filename, count } => {
            assert_eq!(filename, "people.csv");
            assert_eq!(*count, 1);
        }
        other => panic!("expected a count line, got {:?}", event_name(other)),
    }
}

#[test]
fn count_mode_with_no_matches_emits_nothing() {
    let mut cli = base_cli("zzz");
    cli.count = true;
    let pattern = cli.build_regex().unwrap();
    let report = scan_csv_data(DATA, "people.csv", &pattern, &cli).unwrap();
    assert_eq!(report.count, 0);
    assert!(report.events.is_empty());
}

#[test]
fn count_mode_and_streaming_mode_agree_on_the_total() {
    for pat in ["e", "o", "zzz", "Eng", "[0-9]"] {
        let mut counting = base_cli(pat);
        counting.count = true;
        let pattern = counting.build_regex().unwrap();
        let counted = scan_csv_data(DATA, "people.csv", &pattern, &counting).unwrap();

        let streaming = base_cli(pat);
        let streamed = scan_csv_data(DATA, "people.csv", &pattern, &streaming).unwrap();

        let match_rows = streamed
            .events
            .iter()
            .filter(|e| matches!(e, Event::MatchRow { .. }))
            .count();
        assert_eq!(counted.count, streamed.count);
        assert_eq!(match_rows, counted.count);
    }
}

#[test]
fn scanning_twice_yields_identical_events() {
    let cli = base_cli("e");
    let pattern = cli.build_regex().unwrap();
    let a = scan_csv_data(DATA, "people.csv", &pattern, &cli).unwrap();
    let b = scan_csv_data(DATA, "people.csv", &pattern, &cli).unwrap();
    assert_eq!(a.count, b.count);
    assert_eq!(a.events.len(), b.events.len());
    for (x, y) in a.events.iter().zip(b.events.iter()) {
        match (x, y) {
            (
                Event::MatchRow { ordinal: o1, cells: c1 },
                Event::MatchRow { ordinal: o2, cells: c2 },
            ) => {
                assert_eq!(o1, o2);
                assert_eq!(c1, c2);
            }
            _ => assert_eq!(event_name(x), event_name(y)),
        }
    }
}

#[test]
fn only_matching_mode_reports_cells_with_column_names() {
    let mut cli = base_cli("3");
    cli.only_matching = true;
    let pattern = cli.build_regex().unwrap();
    let report = scan_csv_data(DATA, "people.csv", &pattern, &cli).unwrap();
    assert_eq!(report.count, 1);
    assert_eq!(report.events.len(), 2);
    assert!(matches!(&report.events[0], Event::FileHeader { .. }));
    match &report.events[1] {
        Event::OnlyMatchingCell { column, cell } => {
            assert_eq!(column, "age");
            assert_eq!(cell, "30");
        }
        other => panic!("expected an only-matching cell, got {:?}", event_name(other)),
    }
}

#[test]
fn table_mode_buffers_the_whole_file() {
    let mut cli = base_cli("e");
    cli.format = OutputFormat::Table;
    let pattern = cli.build_regex().unwrap();
    let report = scan_csv_data(DATA, "people.csv", &pattern, &cli).unwrap();
    assert_eq!(report.events.len(), 2);
    assert!(matches!(&report.events[0], Event::FileHeader { .. }));
    match &report.events[1] {
        Event::TableBlock { columns, rows, with_headers } => {
            assert_eq!(columns.len(), 3);
            assert_eq!(rows.len(), report.count);
            assert!(*with_headers);
        }
        other => panic!("expected a table block, got {:?}", event_name(other)),
    }
}

#[test]
fn max_count_limits_the_report() {
    let mut cli = base_cli("e");
    cli.max_count = Some(1);
    let pattern = cli.build_regex().unwrap();
    let report = scan_csv_data(DATA, "people.csv", &pattern, &cli).unwrap();
    assert_eq!(report.count, 1);
}

#[test]
fn unknown_columns_warn_and_suppress_all_matches() {
    let mut cli = base_cli("Eng");
    cli.columns = Some(vec!["nope".to_string()]);
    let pattern = cli.build_regex().unwrap();
    let report = scan_csv_data(DATA, "people.csv", &pattern, &cli).unwrap();
    assert_eq!(report.warnings, vec!["nope".to_string()]);
    assert_eq!(report.count, 0);
    assert!(report.events.is_empty());
}

#[test]
fn malformed_csv_is_a_format_error() {
    // A record that is not valid UTF-8 cannot become a textual row.
    let bad = b"a,b\nx,\xff\xfe\n";
    let cli = base_cli("x");
    let pattern = cli.build_regex().unwrap();
    let r = scan_csv_data(bad, "bad.csv", &pattern, &cli);
    assert!(matches!(r, Err(ScanError::Format(_))));
}

#[test]
fn fixed_strings_escapes_the_pattern() {
    let data: &[u8] = b"expr\na(b\nx+y\n";
    let mut cli = base_cli("a(b");
    cli.fixed_strings = true;
    let pattern = cli.build_regex().unwrap();
    let report = scan_csv_data(data, "e.csv", &pattern, &cli).unwrap();
    assert_eq!(report.count, 1);

    // Without escaping, the same text is an invalid expression.
    let mut raw = base_cli("a(b");
    raw.fixed_strings = false;
    assert!(raw.build_regex().is_err());
}

#[test]
fn ignore_case_flag_widens_the_match() {
    let mut cli = base_cli("alice");
    cli.ignore_case = true;
    let pattern = cli.build_regex().unwrap();
    let report = scan_csv_data(DATA, "people.csv", &pattern, &cli).unwrap();
    assert_eq!(report.count, 1);
}

#[test]
fn file_kinds_follow_the_extension() {
    assert_eq!(file_kind("csv"), Some(FileKind::Csv));
    assert_eq!(file_kind("parquet"), Some(FileKind::Columnar));
    assert_eq!(file_kind("txt"), None);
    assert!(is_supported("csv"));
    assert!(is_supported("parquet"));
    assert!(is_supported("pq"));
    assert!(is_supported("parq"));
    assert!(!is_supported("json"));
}

#[test]
fn printer_new_records_the_switches() {
    let p = Printer::new(true, false, OutputFormat::Table);
    assert!(p.use_color);
    assert!(!p.show_filename);
    assert!(matches!(p.format, OutputFormat::Table));
}

#[test]
fn fixed_strings_compiles_the_escaped_text() {
    let mut cli = base_cli("a(b");
    cli.fixed_strings = true;
    let pattern = cli.build_regex().unwrap();
    assert_eq!(pattern.source_text(), regex::escape("a(b"));
}

#[test]
fn flexible_rows_of_uneven_width_are_kept() {
    let data: &[u8] = b"a,b\nshort\nx,y,extra\n";
    let cli = base_cli("short");
    let pattern = cli.build_regex().unwrap();
    let report = scan_csv_data(data, "w.csv", &pattern, &cli).unwrap();
    assert_eq!(report.count, 1);
    let cli2 = base_cli("extra");
    let pattern2 = cli2.build_regex().unwrap();
    let report2 = scan_csv_data(data, "w.csv", &pattern2, &cli2).unwrap();
    assert_eq!(report2.count, 1);
}
