//! Result aggregation: turning one file's scan into presentation events.
//!
//! The library does not print. For each file it produces an ordered list of
//! [`Event`]s — the file header, a header row, match rows, only-matching
//! cells, a count line, a separator, or a whole buffered table — and a
//! presentation sink outside the library owns all formatting and coloring.
//! A file with zero matches produces no events at all: no header, no
//! separator, no count line, no body.

use vstd::prelude::*;

use crate::cli::{Cli, OutputFormat};
use crate::engine::{clone_string_vec, MatchRecord, RecordModel, ScanOutcome};
use crate::pattern::{regex_accepts, Pattern};

verus! {

/// One presentation event, in output order.
pub enum Event {
    /// Announces the file the following events belong to.
    FileHeader { filename: String },
    /// The column names, when the caller asked for headers.
    HeaderRow { columns: Vec<String> },
    /// One matching row with its 1-based ordinal.
    MatchRow { ordinal: usize, cells: Vec<String> },
    /// One matching cell with its column name, in only-matching mode.
    OnlyMatchingCell { column: String, cell: String },
    /// The per-file total in count mode.
    CountLine { filename: String, count: usize },
    /// Closes a streamed block of match rows.
    Separator,
    /// A whole buffered file for table rendering, which must see the full
    /// row set to size its columns.
    TableBlock { columns: Vec<String>, rows: Vec<MatchRecord>, with_headers: bool },
}

/// The mathematical form of one presentation event.
#[verifier::ext_equal]
pub ghost enum EventModel {
    FileHeader { filename: Seq<char> },
    HeaderRow { columns: Seq<Seq<char>> },
    MatchRow { ordinal: int, cells: Seq<Seq<char>> },
    OnlyMatchingCell { column: Seq<char>, cell: Seq<char> },
    CountLine { filename: Seq<char>, count: int },
    Separator,
    TableBlock { columns: Seq<Seq<char>>, rows: Seq<RecordModel>, with_headers: bool },
}

impl DeepView for Event {
    type V = EventModel;

    open spec fn deep_view(&self) -> EventModel {
        match self {
            Event::FileHeader { filename } => EventModel::FileHeader { filename: filename@ },
            Event::HeaderRow { columns } => EventModel::HeaderRow { columns: columns.deep_view() },
            Event::MatchRow { ordinal, cells } => EventModel::MatchRow {
                ordinal: *ordinal as int,
                cells: cells.deep_view(),
            },
            Event::OnlyMatchingCell { column, cell } => EventModel::OnlyMatchingCell {
                column: column@,
                cell: cell@,
            },
            Event::CountLine { filename, count } => EventModel::CountLine {
                filename: filename@,
                count: *count as int,
            },
            Event::Separator => EventModel::Separator,
            Event::TableBlock { columns, rows, with_headers } => EventModel::TableBlock {
                columns: columns.deep_view(),
                rows: rows.deep_view(),
                with_headers: *with_headers,
            },
        }
    }
}

/// The column name used when reporting a cell: the header entry at the
/// index, or a placeholder when the row is wider than the header.
pub open spec fn spec_col_name(headers: Seq<Seq<char>>, i: int) -> Seq<char> {
    if 0 <= i < headers.len() {
        headers[i]
    } else {
        "?"@
    }
}

/// The cell positions only-matching mode examines: the restriction when one
/// is set, else every position of the row.
pub open spec fn spec_index_list(cols: Option<Seq<usize>>, row_len: int) -> Seq<int> {
    match cols {
        Some(ix) => ix.map_values(|u: usize| u as int),
        None => Seq::new(row_len as nat, |i: int| i),
    }
}

/// The only-matching events of one row: one event per examined cell the
/// pattern matches, in examination order; out-of-range positions are
/// skipped.
pub open spec fn spec_only_cell_events(
    headers: Seq<Seq<char>>,
    row: Seq<Seq<char>>,
    pattern: Seq<char>,
    ci: bool,
    ixs: Seq<int>,
) -> Seq<EventModel>
    decreases ixs.len(),
{
    if ixs.len() == 0 {
        Seq::empty()
    } else {
        let rest = spec_only_cell_events(headers, row, pattern, ci, ixs.drop_last());
        let i = ixs.last();
        if 0 <= i < row.len() && regex_accepts(pattern, ci, row[i]) {
            rest.push(
                EventModel::OnlyMatchingCell { column: spec_col_name(headers, i), cell: row[i] },
            )
        } else {
            rest
        }
    }
}

/// The only-matching events of a whole scan, record by record.
pub open spec fn spec_only_events(
    headers: Seq<Seq<char>>,
    recs: Seq<RecordModel>,
    pattern: Seq<char>,
    ci: bool,
    cols: Option<Seq<usize>>,
) -> Seq<EventModel>
    decreases recs.len(),
{
    if recs.len() == 0 {
        Seq::empty()
    } else {
        spec_only_events(headers, recs.drop_last(), pattern, ci, cols) + spec_only_cell_events(
            headers,
            recs.last().cells,
            pattern,
            ci,
            spec_index_list(cols, recs.last().cells.len() as int),
        )
    }
}

/// One match-row event per record, in record order.
pub open spec fn spec_stream_events(recs: Seq<RecordModel>) -> Seq<EventModel> {
    recs.map_values(|r: RecordModel| EventModel::MatchRow { ordinal: r.ordinal, cells: r.cells })
}

/// The events one file's scan produces.
///
/// Count mode yields exactly one count line when the count is positive and
/// nothing otherwise. Only-matching mode yields the file header and the
/// matching cells. The streaming format yields the file header, the header
/// row when asked for, one match row per record, and a separator. The table
/// format yields the file header and one buffered table block. In every
/// mode, a scan with no matches yields no events.
pub open spec fn spec_render(
    filename: Seq<char>,
    headers: Seq<Seq<char>>,
    recs: Seq<RecordModel>,
    count: int,
    pattern: Seq<char>,
    ci: bool,
    cols: Option<Seq<usize>>,
    cli: Cli,
) -> Seq<EventModel> {
    if cli.count {
        if count > 0 {
            seq![EventModel::CountLine { filename, count }]
        } else {
            Seq::empty()
        }
    } else if recs.len() == 0 {
        Seq::empty()
    } else if cli.only_matching {
        seq![EventModel::FileHeader { filename }] + spec_only_events(
            headers,
            recs,
            pattern,
            ci,
            cols,
        )
    } else if cli.format == OutputFormat::Csv {
        seq![EventModel::FileHeader { filename }] + (if cli.with_headers {
            seq![EventModel::HeaderRow { columns: headers }]
        } else {
            Seq::empty()
        }) + spec_stream_events(recs) + seq![EventModel::Separator]
    } else {
        seq![
            EventModel::FileHeader { filename },
            EventModel::TableBlock { columns: headers, rows: recs, with_headers: cli.with_headers },
        ]
    }
}

/// Appends the only-matching events of one row.
fn push_only_cell_events(
    headers: &Vec<String>,
    row: &Vec<String>,
    pattern: &Pattern,
    col_indices: &Option<Vec<usize>>,
    evs: &mut Vec<Event>,
)
    ensures
        final(evs).deep_view() == old(evs).deep_view() + spec_only_cell_events(
            headers.deep_view(),
            row.deep_view(),
            pattern.spec_source(),
            pattern.spec_ci(),
            spec_index_list(col_indices.deep_view(), row.deep_view().len() as int),
        ),
{
    let ghost hv = headers.deep_view();
    let ghost rv = row.deep_view();
    let ghost src = pattern.spec_source();
    let ghost ci = pattern.spec_ci();
    let ghost base = evs.deep_view();
    match col_indices {
        None => {
            let ghost ixs = spec_index_list(None, rv.len() as int);
            for j in 0..row.len()
                invariant
                    hv == headers.deep_view(),
                    rv == row.deep_view(),
                    src == pattern.spec_source(),
                    ci == pattern.spec_ci(),
                    ixs == spec_index_list(None, rv.len() as int),
                    rv.len() == row@.len(),
                    evs.deep_view() =~= base + spec_only_cell_events(
                        hv,
                        rv,
                        src,
                        ci,
                        ixs.take(j as int),
                    ),
            {
                proof {
                    assert(ixs.take(j + 1int).drop_last() =~= ixs.take(j as int));
                    assert(ixs.take(j + 1int).last() == j as int);
                    assert(rv[j as int] == row@[j as int]@);
                }
                let ghost pre = evs.deep_view();
                if pattern.is_match(row[j].as_str()) {
                    let column = col_name(headers, j);
                    evs.push(Event::OnlyMatchingCell { column, cell: row[j].clone() });
                    proof {
                        assert(evs.deep_view() =~= pre.push(
                            EventModel::OnlyMatchingCell {
                                column: spec_col_name(hv, j as int),
                                cell: rv[j as int],
                            },
                        ));
                    }
                }
                proof {
                    assert(evs.deep_view() =~= base + spec_only_cell_events(
                        hv,
                        rv,
                        src,
                        ci,
                        ixs.take(j + 1int),
                    ));
                }
            }
            proof {
                assert(ixs.take(ixs.len() as int) =~= ixs);
            }
        },
        Some(ix) => {
            let ghost ixs = spec_index_list(Some(ix@), rv.len() as int);
            proof {
                assert(ix.deep_view() =~= ix@);
                assert(col_indices.deep_view() == Some(ix@));
                assert(ixs.len() == ix@.len());
            }
            for k in 0..ix.len()
                invariant
                    hv == headers.deep_view(),
                    rv == row.deep_view(),
                    src == pattern.spec_source(),
                    ci == pattern.spec_ci(),
                    ixs == spec_index_list(Some(ix@), rv.len() as int),
                    ixs.len() == ix@.len(),
                    rv.len() == row@.len(),
                    evs.deep_view() =~= base + spec_only_cell_events(
                        hv,
                        rv,
                        src,
                        ci,
                        ixs.take(k as int),
                    ),
            {
                proof {
                    assert(ixs.take(k + 1int).drop_last() =~= ixs.take(k as int));
                    assert(ixs.take(k + 1int).last() == ix@[k as int] as int);
                }
                let ghost pre = evs.deep_view();
                let i = ix[k];
                if i < row.len() {
                    proof {
                        assert(rv[i as int] == row@[i as int]@);
                    }
                    if pattern.is_match(row[i].as_str()) {
                        let column = col_name(headers, i);
                        evs.push(Event::OnlyMatchingCell { column, cell: row[i].clone() });
                        proof {
                            assert(evs.deep_view() =~= pre.push(
                                EventModel::OnlyMatchingCell {
                                    column: spec_col_name(hv, i as int),
                                    cell: rv[i as int],
                                },
                            ));
                        }
                    }
                }
                proof {
                    assert(evs.deep_view() =~= base + spec_only_cell_events(
                        hv,
                        rv,
                        src,
                        ci,
                        ixs.take(k + 1int),
                    ));
                }
            }
            proof {
                assert(ixs.take(ixs.len() as int) =~= ixs);
            }
        },
    }
}

/// The column name at an index, or a placeholder past the header's end.
fn col_name(headers: &Vec<String>, i: usize) -> (r: String)
    ensures
        r@ == spec_col_name(headers.deep_view(), i as int),
{
    if i < headers.len() {
        proof {
            assert(headers.deep_view()[i as int] == headers@[i as int]@);
        }
        headers[i].clone()
    } else {
        "?".to_owned()
    }
}

/// Renders one file's scan into presentation events.
///
/// The caller passes the same pattern and column restriction the scan ran
/// with; only-matching mode re-examines the recorded cells with them.
pub fn render(
    filename: &str,
    headers: &Vec<String>,
    outcome: ScanOutcome,
    pattern: &Pattern,
    col_indices: &Option<Vec<usize>>,
    cli: &Cli,
) -> (evs: Vec<Event>)
    ensures
        evs.deep_view() == spec_render(
            filename@,
            headers.deep_view(),
            outcome.records.deep_view(),
            outcome.count as int,
            pattern.spec_source(),
            pattern.spec_ci(),
            col_indices.deep_view(),
            *cli,
        ),
{
    let ghost hv = headers.deep_view();
    let ghost src = pattern.spec_source();
    let ghost ci = pattern.spec_ci();
    let ghost cols = col_indices.deep_view();
    let ghost rm = outcome.records.deep_view();
    let mut evs: Vec<Event> = Vec::new();
    if cli.count {
        if outcome.count > 0 {
            evs.push(Event::CountLine { filename: filename.to_owned(), count: outcome.count });
        }
        proof {
            if outcome.count > 0 {
                assert(evs.deep_view() =~= spec_render(
                    filename@,
                    hv,
                    rm,
                    outcome.count as int,
                    src,
                    ci,
                    cols,
                    *cli,
                ));
            } else {
                assert(evs.deep_view() =~= spec_render(
                    filename@,
                    hv,
                    rm,
                    outcome.count as int,
                    src,
                    ci,
                    cols,
                    *cli,
                ));
            }
        }
        return evs;
    }
    let records = outcome.records;
    if records.len() == 0 {
        proof {
            assert(evs.deep_view() =~= spec_render(
                filename@,
                hv,
                rm,
                outcome.count as int,
                src,
                ci,
                cols,
                *cli,
            ));
        }
        return evs;
    }
    evs.push(Event::FileHeader { filename: filename.to_owned() });
    if cli.only_matching {
        let ghost base = evs.deep_view();
        for r in 0..records.len()
            invariant
                hv == headers.deep_view(),
                src == pattern.spec_source(),
                ci == pattern.spec_ci(),
                cols == col_indices.deep_view(),
                rm == records.deep_view(),
                rm.len() == records@.len(),
                base == seq![EventModel::FileHeader { filename: filename@ }],
                evs.deep_view() =~= base + spec_only_events(
                    hv,
                    rm.take(r as int),
                    src,
                    ci,
                    cols,
                ),
        {
            proof {
                assert(rm.take(r + 1int).drop_last() =~= rm.take(r as int));
                assert(rm.take(r + 1int).last() == rm[r as int]);
                assert(rm[r as int] == records@[r as int].deep_view());
            }
            let ghost pre = evs.deep_view();
            push_only_cell_events(headers, &records[r].cells, pattern, col_indices, &mut evs);
            proof {
                assert(evs.deep_view() =~= base + spec_only_events(
                    hv,
                    rm.take(r + 1int),
                    src,
                    ci,
                    cols,
                ));
            }
        }
        proof {
            assert(rm.take(rm.len() as int) =~= rm);
            assert(evs.deep_view() =~= spec_render(
                filename@,
                hv,
                rm,
                outcome.count as int,
                src,
                ci,
                cols,
                *cli,
            ));
        }
        return evs;
    }
    match cli.format {
        OutputFormat::Csv => {
            if cli.with_headers {
                let columns = clone_string_vec(headers);
                proof {
                    assert(columns.deep_view() =~= hv);
                }
                evs.push(Event::HeaderRow { columns });
            }
            let ghost base = evs.deep_view();
            proof {
                if cli.with_headers {
                    assert(base =~= seq![
                        EventModel::FileHeader { filename: filename@ },
                        EventModel::HeaderRow { columns: hv },
                    ]);
                    assert(base =~= seq![EventModel::FileHeader { filename: filename@ }] + seq![
                        EventModel::HeaderRow { columns: hv },
                    ]);
                } else {
                    assert(base =~= seq![EventModel::FileHeader { filename: filename@ }]);
                }
            }
            let mut r: usize = 0;
            while r < records.len()
                invariant
                    r <= records.len(),
                    rm == records.deep_view(),
                    rm.len() == records@.len(),
                    evs.deep_view() =~= base + spec_stream_events(rm.take(r as int)),
                decreases records@.len() - r,
            {
                let ghost pre = evs.deep_view();
                let cells = clone_string_vec(&records[r].cells);
                let ordinal = records[r].ordinal;
                evs.push(Event::MatchRow { ordinal, cells });
                proof {
                    assert(rm[r as int] == records@[r as int].deep_view());
                    assert(evs.deep_view() =~= pre.push(
                        EventModel::MatchRow {
                            ordinal: rm[r as int].ordinal,
                            cells: rm[r as int].cells,
                        },
                    ));
                    assert(spec_stream_events(rm.take(r + 1int)) =~= spec_stream_events(
                        rm.take(r as int),
                    ).push(
                        EventModel::MatchRow {
                            ordinal: rm[r as int].ordinal,
                            cells: rm[r as int].cells,
                        },
                    ));
                }
                r = r + 1;
            }
            evs.push(Event::Separator);
            proof {
                assert(rm.take(rm.len() as int) =~= rm);
                assert(evs.deep_view() =~= base + spec_stream_events(rm) + seq![
                    EventModel::Separator,
                ]);
                assert(base + spec_stream_events(rm) + seq![EventModel::Separator] =~= spec_render(
                    filename@,
                    hv,
                    rm,
                    outcome.count as int,
                    src,
                    ci,
                    cols,
                    *cli,
                ));
                assert(evs.deep_view() =~= spec_render(
                    filename@,
                    hv,
                    rm,
                    outcome.count as int,
                    src,
                    ci,
                    cols,
                    *cli,
                ));
            }
        },
        OutputFormat::Table => {
            evs.push(
                Event::TableBlock {
                    columns: clone_string_vec(headers),
                    rows: records,
                    with_headers: cli.with_headers,
                },
            );
            proof {
                assert(evs.deep_view() =~= spec_render(
                    filename@,
                    hv,
                    rm,
                    outcome.count as int,
                    src,
                    ci,
                    cols,
                    *cli,
                ));
            }
        },
    }
    evs
}

/// How many match-row events a list of events holds.
pub open spec fn spec_match_row_count(evs: Seq<EventModel>) -> int
    decreases evs.len(),
{
    if evs.len() == 0 {
        0
    } else {
        spec_match_row_count(evs.drop_last()) + (if evs.last() is MatchRow {
            1int
        } else {
            0int
        })
    }
}

/// Match-row counting distributes over concatenation.
proof fn lemma_match_row_count_concat(a: Seq<EventModel>, b: Seq<EventModel>)
    ensures
        spec_match_row_count(a + b) == spec_match_row_count(a) + spec_match_row_count(b),
    decreases b.len(),
{
    if b.len() == 0 {
        assert(a + b =~= a);
    } else {
        lemma_match_row_count_concat(a, b.drop_last());
        assert((a + b).drop_last() =~= a + b.drop_last());
        assert((a + b).last() == b.last());
    }
}

/// Every record yields exactly one match-row event.
proof fn lemma_stream_events_count(recs: Seq<RecordModel>)
    ensures
        spec_match_row_count(spec_stream_events(recs)) == recs.len(),
    decreases recs.len(),
{
    if recs.len() > 0 {
        lemma_stream_events_count(recs.drop_last());
        assert(spec_stream_events(recs).drop_last() =~= spec_stream_events(recs.drop_last()));
        assert(spec_stream_events(recs).last() is MatchRow);
    } else {
        assert(spec_stream_events(recs) =~= Seq::<EventModel>::empty());
    }
}

/// Count mode and streaming mode agree on the total: over the same scan, the
/// count line of a counting run (when any match exists) reports exactly as
/// many matches as the streaming run emits match-row events.
pub proof fn lemma_count_agrees_with_stream(
    filename: Seq<char>,
    headers: Seq<Seq<char>>,
    scan: Seq<RecordModel>,
    crecs: Seq<RecordModel>,
    pattern: Seq<char>,
    ci: bool,
    cols: Option<Seq<usize>>,
    counting: Cli,
    streaming: Cli,
)
    requires
        counting.count,
        !streaming.count,
        !streaming.only_matching,
        streaming.format == OutputFormat::Csv,
    ensures
        spec_match_row_count(
            spec_render(
                filename,
                headers,
                scan,
                scan.len() as int,
                pattern,
                ci,
                cols,
                streaming,
            ),
        ) == scan.len(),
        scan.len() > 0 ==> spec_render(
            filename,
            headers,
            crecs,
            scan.len() as int,
            pattern,
            ci,
            cols,
            counting,
        ) == seq![EventModel::CountLine { filename, count: scan.len() as int }],
        scan.len() == 0 ==> spec_render(
            filename,
            headers,
            crecs,
            scan.len() as int,
            pattern,
            ci,
            cols,
            counting,
        ) == Seq::<EventModel>::empty(),
{
    let stream = spec_render(filename, headers, scan, scan.len() as int, pattern, ci, cols, streaming);
    if scan.len() == 0 {
        assert(spec_match_row_count(stream) == 0);
    } else {
        let head = seq![EventModel::FileHeader { filename }] + (if streaming.with_headers {
            seq![EventModel::HeaderRow { columns: headers }]
        } else {
            Seq::<EventModel>::empty()
        });
        let mid = spec_stream_events(scan);
        let tail = seq![EventModel::Separator];
        assert(stream =~= head + mid + tail);
        lemma_match_row_count_concat(head + mid, tail);
        lemma_match_row_count_concat(head, mid);
        lemma_stream_events_count(scan);
        assert(spec_match_row_count(head) == 0) by {
            assert(spec_match_row_count(Seq::<EventModel>::empty()) == 0);
            if streaming.with_headers {
                let h0 = seq![EventModel::FileHeader { filename }];
                let h1 = seq![EventModel::HeaderRow { columns: headers }];
                lemma_match_row_count_concat(h0, h1);
                assert(h0.drop_last() =~= Seq::<EventModel>::empty());
                assert(h1.drop_last() =~= Seq::<EventModel>::empty());
                assert(spec_match_row_count(h0) == 0);
                assert(spec_match_row_count(h1) == 0);
                assert(head == h0 + h1);
            } else {
                assert(head =~= seq![EventModel::FileHeader { filename }]);
                assert(head.drop_last() =~= Seq::<EventModel>::empty());
            }
        }
        assert(spec_match_row_count(tail) == 0) by {
            assert(spec_match_row_count(Seq::<EventModel>::empty()) == 0);
            assert(tail.drop_last() =~= Seq::<EventModel>::empty());
        }
    }
}

/// A presentation sink's switches: whether to color, whether to announce
/// filenames, and which format to render.
pub struct Printer {
    pub use_color: bool,
    pub show_filename: bool,
    pub format: OutputFormat,
}

impl Printer {
    /// Bundles the presentation switches for one run.
    pub fn new(use_color: bool, show_filename: bool, format: OutputFormat) -> (p: Printer)
        ensures
            p.use_color == use_color,
            p.show_filename == show_filename,
            p.format == format,
    {
        Printer { use_color, show_filename, format }
    }
}

} // verus!
