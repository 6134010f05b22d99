//! The row-oriented source adapter: parsing CSV bytes into a header and rows.
//!
//! The adapter hands the whole parse to the `csv` crate, in flexible mode:
//! a record with a different field count than the header is kept, never
//! rejected. The first record is the header and is excluded from the row
//! stream. What the parse yields for given bytes is named by the
//! uninterpreted function [`spec_csv_table`]; a malformed record surfaces as
//! a format error that aborts the file.

use vstd::prelude::*;

verus! {

/// What parsing the given bytes as flexible-mode CSV yields: the header and
/// the data rows in file order, or nothing when some record is malformed.
/// The result depends on the bytes alone.
pub uninterp spec fn spec_csv_table(data: Seq<u8>) -> Option<(Seq<Seq<char>>, Seq<Seq<Seq<char>>>)>;

/// A parsed row-oriented file: the header and the data rows, in file order.
pub struct CsvTable {
    pub headers: Vec<String>,
    pub rows: Vec<Vec<String>>,
}

/// Relies on `csv::Reader` (built by `csv::ReaderBuilder` in flexible mode):
/// the first record is the header, each further record one data row; a
/// malformed record is an error. The parse is a function of the bytes alone.
#[verifier::external_body]
fn parse_csv_bytes(data: &[u8]) -> (r: Result<(Vec<String>, Vec<Vec<String>>), String>)
    ensures
        match r {
            Ok(t) => spec_csv_table(data@) == Some((t.0.deep_view(), t.1.deep_view())),
            Err(_) => spec_csv_table(data@) is None,
        },
{
    let mut rdr = csv::ReaderBuilder::new().flexible(true).from_reader(data);
    let headers: Vec<String> = match rdr.headers() {
        Ok(h) => h.iter().map(|f| f.to_string()).collect(),
        Err(e) => return Err(e.to_string()),
    };
    let mut rows: Vec<Vec<String>> = Vec::new();
    for record in rdr.records() {
        match record {
            Ok(rec) => rows.push(rec.iter().map(|f| f.to_string()).collect()),
            Err(e) => return Err(e.to_string()),
        }
    }
    Ok((headers, rows))
}

/// Opens a row-oriented file from its bytes: the header resolved up front,
/// then the data rows. A malformed record anywhere yields the parse error's
/// text and aborts this file only.
pub fn open_csv(data: &[u8]) -> (r: Result<CsvTable, String>)
    ensures
        match r {
            Ok(t) => spec_csv_table(data@) == Some((t.headers.deep_view(), t.rows.deep_view())),
            Err(_) => spec_csv_table(data@) is None,
        },
{
    match parse_csv_bytes(data) {
        Ok((headers, rows)) => Ok(CsvTable { headers, rows }),
        Err(e) => Err(e),
    }
}

} // verus!
