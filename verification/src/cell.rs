//! Coercion of typed columnar cells to text.
//!
//! A columnar source yields typed scalar cells. The library holds each cell
//! as a [`CellValue`]: a closed enumeration with one variant per supported
//! scalar kind and a placeholder variant for anything else. Coercion to text
//! never fails; every cell becomes matchable text.
//!
//! Floating-point cells are the one exception to holding the value itself:
//! the library does not hold floats, so the source renders them to their
//! base-10 text before handing the cell over, and coercion passes that text
//! through unchanged.

use vstd::prelude::*;

use crate::text::{i64_to_string, push_char, spec_digits, spec_int_text, u64_to_string};

verus! {

/// One typed columnar cell, as the matching engine holds it.
pub enum CellValue {
    /// A null cell of any type.
    Null,
    /// A string cell.
    Text(String),
    /// A signed integer cell of any width up to 64 bits.
    Int(i64),
    /// An unsigned integer cell of any width up to 64 bits.
    UInt(u64),
    /// A boolean cell.
    Bool(bool),
    /// A date cell held as days since the epoch.
    Date32(i32),
    /// A date-time cell held as milliseconds since the epoch.
    Date64(i64),
    /// A cell whose textual form the source rendered itself (floating-point
    /// values, which the library does not hold).
    Rendered(String),
    /// A cell of an unsupported type, carrying the type's name.
    Unsupported(String),
}

impl DeepView for CellValue {
    type V = CellValue;

    open spec fn deep_view(&self) -> CellValue {
        *self
    }
}

/// What `arrow::temporal_conversions::date32_to_datetime` followed by
/// calendar-date rendering produces for a day count, when convertible.
pub uninterp spec fn spec_date32_text(days: int) -> Option<Seq<char>>;

/// What `arrow::temporal_conversions::date64_to_datetime` followed by
/// date-time rendering produces for a millisecond count, when convertible.
pub uninterp spec fn spec_date64_text(millis: int) -> Option<Seq<char>>;

/// Relies on `arrow::temporal_conversions::date32_to_datetime`: renders a day
/// count as a calendar date when the count is convertible; the result depends
/// on the count alone.
#[verifier::external_body]
fn render_date32(days: i32) -> (r: Option<String>)
    ensures
        match r {
            Some(s) => spec_date32_text(days as int) == Some(s@),
            None => spec_date32_text(days as int) is None,
        },
{
    match arrow::temporal_conversions::date32_to_datetime(days) {
        Some(d) => Some(d.date().to_string()),
        None => None,
    }
}

/// Relies on `arrow::temporal_conversions::date64_to_datetime`: renders a
/// millisecond count as a date-time when the count is convertible; the result
/// depends on the count alone.
#[verifier::external_body]
fn render_date64(millis: i64) -> (r: Option<String>)
    ensures
        match r {
            Some(s) => spec_date64_text(millis as int) == Some(s@),
            None => spec_date64_text(millis as int) is None,
        },
{
    match arrow::temporal_conversions::date64_to_datetime(millis) {
        Some(d) => Some(d.to_string()),
        None => None,
    }
}

/// The canonical text of one cell.
///
/// Null becomes the literal `NULL`; numbers and booleans their base-10 text;
/// dates their calendar form when convertible, falling back to the raw
/// encoded integer; unsupported types a bracketed type-tag placeholder.
pub open spec fn spec_cell_text(c: CellValue) -> Seq<char> {
    match c {
        CellValue::Null => "NULL"@,
        CellValue::Text(s) => s@,
        CellValue::Int(n) => spec_int_text(n as int),
        CellValue::UInt(n) => spec_digits(n as nat),
        CellValue::Bool(b) => if b {
            "true"@
        } else {
            "false"@
        },
        CellValue::Date32(d) => match spec_date32_text(d as int) {
            Some(s) => s,
            None => spec_int_text(d as int),
        },
        CellValue::Date64(m) => match spec_date64_text(m as int) {
            Some(s) => s,
            None => spec_int_text(m as int),
        },
        CellValue::Rendered(s) => s@,
        CellValue::Unsupported(name) => seq!['<'] + name@ + seq!['>'],
    }
}

/// Coerces one cell to its canonical text. Never fails: every cell becomes
/// matchable text.
pub fn cell_to_text(c: &CellValue) -> (r: String)
    ensures
        r@ == spec_cell_text(*c),
{
    match c {
        CellValue::Null => "NULL".to_owned(),
        CellValue::Text(s) => s.clone(),
        CellValue::Int(n) => i64_to_string(*n),
        CellValue::UInt(n) => u64_to_string(*n),
        CellValue::Bool(b) => if *b {
            "true".to_owned()
        } else {
            "false".to_owned()
        },
        CellValue::Date32(d) => match render_date32(*d) {
            Some(s) => s,
            None => i64_to_string(*d as i64),
        },
        CellValue::Date64(m) => match render_date64(*m) {
            Some(s) => s,
            None => i64_to_string(*m),
        },
        CellValue::Rendered(s) => s.clone(),
        CellValue::Unsupported(name) => {
            let mut s = String::new();
            push_char(&mut s, '<');
            let mut t = s.concat(name.as_str());
            push_char(&mut t, '>');
            proof {
                assert(t@ =~= seq!['<'] + name@ + seq!['>']);
            }
            t
        },
    }
}

/// The text of a whole row of cells, in column order.
pub open spec fn spec_row_text(row: Seq<CellValue>) -> Seq<Seq<char>> {
    row.map_values(|c: CellValue| spec_cell_text(c))
}

/// Coerces a whole row of cells to text, one string per column.
pub fn row_to_text(row: &Vec<CellValue>) -> (r: Vec<String>)
    ensures
        r.deep_view() == spec_row_text(row@),
{
    let mut out: Vec<String> = Vec::new();
    for i in 0..row.len()
        invariant
            out.deep_view() =~= spec_row_text(row@).take(i as int),
    {
        let ghost pre = out.deep_view();
        out.push(cell_to_text(&row[i]));
        proof {
            assert(out.deep_view() =~= pre.push(spec_cell_text(row@[i as int])));
            assert(spec_row_text(row@).take(i + 1int) =~= pre.push(
                spec_row_text(row@)[i as int],
            ));
        }
    }
    proof {
        assert(spec_row_text(row@).take(row@.len() as int) =~= spec_row_text(row@));
    }
    out
}

/// A null cell coerces to exactly the four characters `NULL`.
pub proof fn lemma_null_cell_text()
    ensures
        spec_cell_text(CellValue::Null) == seq!['N', 'U', 'L', 'L'],
{
    reveal_strlit("NULL");
    assert(spec_cell_text(CellValue::Null) =~= seq!['N', 'U', 'L', 'L']);
}

} // verus!
