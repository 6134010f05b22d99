//! Per-file search: open a source, resolve the columns once, scan the rows,
//! and aggregate the results into presentation events.
//!
//! Two source adapters feed the same engine: the row-oriented adapter parses
//! CSV bytes, the columnar adapter takes rows of typed cells already
//! decomposed from batches and coerces them to text. Either way the file's
//! outcome is a [`FileReport`]: the match count, the column warnings, and
//! the ordered presentation events.

use vstd::prelude::*;

use crate::cell::{row_to_text, spec_row_text, CellValue};
use crate::cli::Cli;
use crate::csv_source::{open_csv, spec_csv_table};
use crate::engine::{scan_rows, spec_scan, RecordModel};
use crate::matcher::{resolve_column_indices, spec_resolved, spec_unresolved};
use crate::output::{render, spec_render, Event, EventModel};
use crate::pattern::Pattern;
use crate::text::str_eq;

verus! {

/// What can go wrong around one file.
#[derive(Debug)]
pub enum ScanError {
    /// The file could not be read at all.
    Io(String),
    /// A malformed record, a corrupt batch or an unreadable schema.
    Format(String),
    /// An invalid search expression, detected before any file is scanned.
    Pattern(String),
}

/// One file's aggregated outcome: the number of matching rows, the requested
/// column names that resolved to nothing (warned about, never fatal), and
/// the presentation events in output order.
pub struct FileReport {
    pub count: usize,
    pub warnings: Vec<String>,
    pub events: Vec<Event>,
}

/// The column indices a configuration selects against a header: `None` when
/// unrestricted, else the requested names resolved in request order.
pub open spec fn spec_cols_of(
    headers: Seq<Seq<char>>,
    filter: Option<Seq<Seq<char>>>,
) -> Option<Seq<usize>> {
    match filter {
        None => None,
        Some(req) => Some(spec_resolved(headers, req)),
    }
}

/// The names a configuration requests that resolve to nothing.
pub open spec fn spec_warnings_of(
    headers: Seq<Seq<char>>,
    filter: Option<Seq<Seq<char>>>,
) -> Seq<Seq<char>> {
    match filter {
        None => Seq::empty(),
        Some(req) => spec_unresolved(headers, req),
    }
}

/// The records one file's scan reports under a configuration.
pub open spec fn spec_file_scan(
    headers: Seq<Seq<char>>,
    rows: Seq<Seq<Seq<char>>>,
    pattern: Seq<char>,
    ci: bool,
    cli: Cli,
) -> Seq<RecordModel> {
    spec_scan(
        rows,
        pattern,
        ci,
        spec_cols_of(headers, cli.columns.deep_view()),
        cli.invert,
        cli.max_count,
    )
}

/// The presentation events one file produces under a configuration. In
/// count mode nothing is buffered, so the record list handed to rendering
/// is empty; the count is the scan's count either way.
pub open spec fn spec_file_events(
    filename: Seq<char>,
    headers: Seq<Seq<char>>,
    rows: Seq<Seq<Seq<char>>>,
    pattern: Seq<char>,
    ci: bool,
    cli: Cli,
) -> Seq<EventModel> {
    let scan = spec_file_scan(headers, rows, pattern, ci, cli);
    let recs = if cli.count {
        Seq::empty()
    } else {
        scan
    };
    spec_render(
        filename,
        headers,
        recs,
        scan.len() as int,
        pattern,
        ci,
        spec_cols_of(headers, cli.columns.deep_view()),
        cli,
    )
}

/// Scans one file whose header and textual rows are in hand: resolves the
/// columns once, scans every row in order, and renders the events.
fn scan_text_rows(
    headers: &Vec<String>,
    rows: &Vec<Vec<String>>,
    filename: &str,
    pattern: &Pattern,
    cli: &Cli,
) -> (r: FileReport)
    ensures
        r.count == spec_file_scan(
            headers.deep_view(),
            rows.deep_view(),
            pattern.spec_source(),
            pattern.spec_ci(),
            *cli,
        ).len(),
        r.events.deep_view() == spec_file_events(
            filename@,
            headers.deep_view(),
            rows.deep_view(),
            pattern.spec_source(),
            pattern.spec_ci(),
            *cli,
        ),
        r.warnings.deep_view() == spec_warnings_of(headers.deep_view(), cli.columns.deep_view()),
{
    let (col_indices, warnings) = resolve_column_indices(headers, &cli.columns);
    proof {
        match &cli.columns {
            Option::None => {
                assert(col_indices.deep_view() is None);
                assert(warnings.deep_view() =~= Seq::<Seq<char>>::empty());
            },
            Option::Some(req) => {
                assert(col_indices.deep_view() == Some(
                    spec_resolved(headers.deep_view(), req.deep_view()),
                )) by {
                    assert(col_indices.unwrap().deep_view() =~= col_indices.unwrap()@);
                }
            },
        }
        assert(col_indices.deep_view() == spec_cols_of(
            headers.deep_view(),
            cli.columns.deep_view(),
        ));
    }
    let collect = !cli.count;
    let outcome = scan_rows(rows, pattern, &col_indices, cli.invert, cli.max_count, collect);
    let count = outcome.count;
    proof {
        if !collect {
            assert(outcome.records.deep_view() =~= Seq::<RecordModel>::empty());
        }
    }
    let events = render(filename, headers, outcome, pattern, &col_indices, cli);
    FileReport { count, warnings, events }
}

/// Scans one row-oriented file from its bytes.
///
/// The first record is the header; each further record is one row, kept
/// whatever its width. A malformed record aborts this file only, as a
/// format error. The count, warnings and events follow the parsed table.
pub fn scan_csv_data(data: &[u8], filename: &str, pattern: &Pattern, cli: &Cli) -> (r: Result<
    FileReport,
    ScanError,
>)
    ensures
        match spec_csv_table(data@) {
            None => r is Err && (r matches Err(e) ==> e is Format),
            Some(t) => r matches Ok(rep) && {
                &&& rep.count == spec_file_scan(
                    t.0,
                    t.1,
                    pattern.spec_source(),
                    pattern.spec_ci(),
                    *cli,
                ).len()
                &&& rep.events.deep_view() == spec_file_events(
                    filename@,
                    t.0,
                    t.1,
                    pattern.spec_source(),
                    pattern.spec_ci(),
                    *cli,
                )
                &&& rep.warnings.deep_view() == spec_warnings_of(t.0, cli.columns.deep_view())
            },
        },
{
    match open_csv(data) {
        Ok(table) => Ok(scan_text_rows(&table.headers, &table.rows, filename, pattern, cli)),
        Err(e) => Err(ScanError::Format(e)),
    }
}

/// The textual form of rows of typed cells, row by row.
pub open spec fn spec_cell_rows_text(cells: Seq<Seq<CellValue>>) -> Seq<Seq<Seq<char>>> {
    cells.map_values(|r: Seq<CellValue>| spec_row_text(r))
}

/// Scans one columnar file whose schema and decomposed cell rows are in
/// hand: coerces every cell to text, then scans like any other source. The
/// row ordinal is global across all batches the rows came from, one per
/// decomposed row.
pub fn scan_cell_rows(
    headers: &Vec<String>,
    cells: &Vec<Vec<CellValue>>,
    filename: &str,
    pattern: &Pattern,
    cli: &Cli,
) -> (r: FileReport)
    ensures
        r.count == spec_file_scan(
            headers.deep_view(),
            spec_cell_rows_text(cells.deep_view()),
            pattern.spec_source(),
            pattern.spec_ci(),
            *cli,
        ).len(),
        r.events.deep_view() == spec_file_events(
            filename@,
            headers.deep_view(),
            spec_cell_rows_text(cells.deep_view()),
            pattern.spec_source(),
            pattern.spec_ci(),
            *cli,
        ),
        r.warnings.deep_view() == spec_warnings_of(headers.deep_view(), cli.columns.deep_view()),
{
    let ghost cv = cells.deep_view();
    let mut text_rows: Vec<Vec<String>> = Vec::new();
    for i in 0..cells.len()
        invariant
            cv == cells.deep_view(),
            cv.len() == cells@.len(),
            text_rows.deep_view() =~= spec_cell_rows_text(cv).take(i as int),
    {
        let ghost pre = text_rows.deep_view();
        text_rows.push(row_to_text(&cells[i]));
        proof {
            assert(cv[i as int] =~= cells@[i as int]@);
            assert(spec_row_text(cells@[i as int]@) == spec_cell_rows_text(cv)[i as int]);
            assert(text_rows.deep_view() =~= pre.push(spec_cell_rows_text(cv)[i as int]));
            assert(spec_cell_rows_text(cv).take(i + 1int) =~= pre.push(
                spec_cell_rows_text(cv)[i as int],
            ));
        }
    }
    proof {
        assert(spec_cell_rows_text(cv).take(cv.len() as int) =~= spec_cell_rows_text(cv));
    }
    scan_text_rows(headers, &text_rows, filename, pattern, cli)
}

/// The kind of source adapter a file extension selects.
#[derive(Clone, Copy, PartialEq, Eq, Structural, Debug)]
pub enum FileKind {
    /// The row-oriented, self-describing format.
    Csv,
    /// The columnar, batch-oriented format.
    Columnar,
}

/// The adapter for a file extension: `csv` is row-oriented and `parquet`
/// columnar; anything else has no adapter and the file is passed over.
pub fn file_kind(extension: &str) -> (r: Option<FileKind>)
    ensures
        r == Some(FileKind::Csv) <==> extension@ == "csv"@,
        r == Some(FileKind::Columnar) <==> extension@ == "parquet"@,
{
    proof {
        reveal_strlit("csv");
        reveal_strlit("parquet");
        assert("csv"@.len() == 3);
        assert("parquet"@.len() == 7);
        assert("csv"@ != "parquet"@);
    }
    if str_eq(extension, "csv") {
        Some(FileKind::Csv)
    } else if str_eq(extension, "parquet") {
        Some(FileKind::Columnar)
    } else {
        None
    }
}

/// Whether a file extension counts as a supported table file when walking a
/// directory. The two short forms are accepted by the walk even though only
/// `csv` and `parquet` select an adapter.
pub fn is_supported(extension: &str) -> (r: bool)
    ensures
        r == (extension@ == "csv"@ || extension@ == "parquet"@ || extension@ == "pq"@
            || extension@ == "parq"@),
{
    str_eq(extension, "csv") || str_eq(extension, "parquet") || str_eq(extension, "pq") || str_eq(
        extension,
        "parq",
    )
}

} // verus!
