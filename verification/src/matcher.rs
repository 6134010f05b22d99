//! The row matcher and the column resolver.
//!
//! A row is an ordered sequence of textual cells. A column restriction is
//! either `None` (examine every cell) or an explicit list of indices, derived
//! once per file from user-requested column names resolved against the
//! header. A row matches when the pattern matches at least one examined cell;
//! the final verdict is that raw result XOR the inversion flag.

use vstd::prelude::*;

use crate::pattern::{regex_accepts, Pattern};
use crate::text::str_eq;

verus! {

/// The pattern matches at least one cell of the row.
pub open spec fn spec_any_cell_matches(row: Seq<Seq<char>>, pattern: Seq<char>, ci: bool) -> bool {
    exists|j: int| #![trigger row[j]] 0 <= j < row.len() && regex_accepts(pattern, ci, row[j])
}

/// The pattern matches at least one of the cells at the given indices;
/// out-of-range indices are silently skipped.
pub open spec fn spec_restricted_match(
    row: Seq<Seq<char>>,
    pattern: Seq<char>,
    ci: bool,
    ix: Seq<usize>,
) -> bool {
    exists|k: int| #![trigger ix[k]]
        0 <= k < ix.len() && ix[k] < row.len() && regex_accepts(pattern, ci, row[ix[k] as int])
}

/// The raw match of one row: the pattern matches at least one examined
/// cell. Unrestricted (`None`) examines every cell; a restriction examines
/// exactly the cells at its indices.
pub open spec fn spec_raw_match(
    row: Seq<Seq<char>>,
    pattern: Seq<char>,
    ci: bool,
    cols: Option<Seq<usize>>,
) -> bool {
    match cols {
        None => spec_any_cell_matches(row, pattern, ci),
        Some(ix) => spec_restricted_match(row, pattern, ci, ix),
    }
}

/// The final verdict for one row: the raw match XOR the inversion flag.
pub open spec fn spec_row_match(
    row: Seq<Seq<char>>,
    pattern: Seq<char>,
    ci: bool,
    cols: Option<Seq<usize>>,
    invert: bool,
) -> bool {
    spec_raw_match(row, pattern, ci, cols) != invert
}

/// Decides whether one row matches, honoring a column restriction and the
/// inversion flag.
pub fn row_matches(
    row: &Vec<String>,
    pattern: &Pattern,
    col_indices: &Option<Vec<usize>>,
    invert: bool,
) -> (r: bool)
    ensures
        r == spec_row_match(
            row.deep_view(),
            pattern.spec_source(),
            pattern.spec_ci(),
            col_indices.deep_view(),
            invert,
        ),
{
    let mut raw = false;
    proof {
        assert(row.deep_view().len() == row@.len());
    }
    match col_indices {
        None => {
            for j in 0..row.len()
                invariant
                    raw == exists|t: int|
                        0 <= t < j && regex_accepts(
                            pattern.spec_source(),
                            pattern.spec_ci(),
                            row.deep_view()[t],
                        ),
            {
                if pattern.is_match(row[j].as_str()) {
                    proof {
                        assert(row.deep_view()[j as int] == row@[j as int]@);
                    }
                    raw = true;
                }
            }
        },
        Some(ix) => {
            for k in 0..ix.len()
                invariant
                    raw == exists|t: int|
                        0 <= t < k && ix@[t] < row.len() && regex_accepts(
                            pattern.spec_source(),
                            pattern.spec_ci(),
                            row.deep_view()[ix@[t] as int],
                        ),
            {
                let i = ix[k];
                if i < row.len() {
                    if pattern.is_match(row[i].as_str()) {
                        proof {
                            assert(row.deep_view()[i as int] == row@[i as int]@);
                        }
                        raw = true;
                    }
                }
            }
            proof {
                assert(ix.deep_view() =~= ix@);
                assert(col_indices.deep_view() == Some(ix@));
            }
        },
    }
    if invert {
        !raw
    } else {
        raw
    }
}

/// An inverted match is the negation of the plain match, whatever the row
/// and the column restriction.
pub proof fn lemma_invert_flips(
    row: Seq<Seq<char>>,
    pattern: Seq<char>,
    ci: bool,
    cols: Option<Seq<usize>>,
)
    ensures
        spec_row_match(row, pattern, ci, cols, true) == !spec_row_match(
            row,
            pattern,
            ci,
            cols,
            false,
        ),
{
}

/// A restriction to an empty resolved set examines no cell, so every row
/// yields `false` without inversion and `true` with it.
pub proof fn lemma_empty_restriction(row: Seq<Seq<char>>, pattern: Seq<char>, ci: bool)
    ensures
        !spec_row_match(row, pattern, ci, Some(Seq::<usize>::empty()), false),
        spec_row_match(row, pattern, ci, Some(Seq::<usize>::empty()), true),
{
}

/// The position of the first header cell equal to `name`, if any.
pub open spec fn spec_first_index(headers: Seq<Seq<char>>, name: Seq<char>) -> Option<int> {
    headers.index_of_first(name)
}

/// The indices that a requested list of column names resolves to against a
/// header: for each requested name in order, the position of its first exact
/// match, names with no match omitted. Duplicates are kept and the order of
/// the request is preserved.
pub open spec fn spec_resolved(headers: Seq<Seq<char>>, req: Seq<Seq<char>>) -> Seq<usize>
    decreases req.len(),
{
    if req.len() == 0 {
        Seq::empty()
    } else {
        let rest = spec_resolved(headers, req.drop_last());
        match spec_first_index(headers, req.last()) {
            Some(i) => rest.push(i as usize),
            None => rest,
        }
    }
}

/// The requested names that resolve to no header column, in request order.
pub open spec fn spec_unresolved(headers: Seq<Seq<char>>, req: Seq<Seq<char>>) -> Seq<Seq<char>>
    decreases req.len(),
{
    if req.len() == 0 {
        Seq::empty()
    } else {
        let rest = spec_unresolved(headers, req.drop_last());
        match spec_first_index(headers, req.last()) {
            Some(i) => rest,
            None => rest.push(req.last()),
        }
    }
}

/// Finds the first header cell equal to `name`.
fn first_index(headers: &Vec<String>, name: &String) -> (r: Option<usize>)
    ensures
        match r {
            Some(i) => spec_first_index(headers.deep_view(), name@) == Some(i as int),
            None => spec_first_index(headers.deep_view(), name@) is None,
        },
{
    let ghost hs = headers.deep_view();
    proof {
        hs.index_of_first_ensures(name@);
    }
    for j in 0..headers.len()
        invariant
            forall|t: int| 0 <= t < j ==> headers.deep_view()[t] != name@,
            match spec_first_index(headers.deep_view(), name@) {
                Some(i) => 0 <= i < headers.deep_view().len()
                    && headers.deep_view()[i] == name@
                    && forall|t: int| 0 <= t < i ==> headers.deep_view()[t] != name@,
                None => forall|t: int|
                    0 <= t < headers.deep_view().len() ==> headers.deep_view()[t] != name@,
            },
    {
        if str_eq(headers[j].as_str(), name.as_str()) {
            proof {
                assert(headers.deep_view()[j as int] == name@);
            }
            return Some(j);
        }
        proof {
            assert(headers.deep_view()[j as int] == headers@[j as int]@);
        }
    }
    None
}

/// Resolves a user-requested list of column names against a header.
///
/// `None` as the filter means unrestricted: every column is examined. With a
/// filter, the first result is the ordered list of resolved indices and the
/// second is the list of names that matched no column (to be warned about,
/// never a fatal error). When every requested name is unresolved the result
/// is an empty index set, distinct from unrestricted: no cell will ever be
/// examined.
pub fn resolve_column_indices(headers: &Vec<String>, filter: &Option<Vec<String>>) -> (r: (
    Option<Vec<usize>>,
    Vec<String>,
))
    ensures
        match filter {
            None => r.0 is None && r.1@.len() == 0,
            Some(req) => {
                &&& r.0 is Some
                &&& r.0.unwrap()@ == spec_resolved(headers.deep_view(), req.deep_view())
                &&& r.1.deep_view() == spec_unresolved(headers.deep_view(), req.deep_view())
            },
        },
{
    match filter {
        None => (None, Vec::new()),
        Some(req) => {
            let mut resolved: Vec<usize> = Vec::new();
            let mut missing: Vec<String> = Vec::new();
            for c in 0..req.len()
                invariant
                    resolved@ == spec_resolved(headers.deep_view(), req.deep_view().take(c as int)),
                    missing.deep_view() == spec_unresolved(
                        headers.deep_view(),
                        req.deep_view().take(c as int),
                    ),
            {
                let ghost prefix = req.deep_view().take(c as int);
                let ghost prefix1 = req.deep_view().take(c + 1int);
                proof {
                    assert(prefix1.drop_last() =~= prefix);
                    assert(prefix1.last() == req.deep_view()[c as int]);
                    assert(req.deep_view()[c as int] == req@[c as int]@);
                }
                match first_index(headers, &req[c]) {
                    Some(i) => {
                        resolved.push(i);
                        proof {
                            assert(resolved@ =~= spec_resolved(headers.deep_view(), prefix1));
                        }
                    },
                    None => {
                        missing.push(req[c].clone());
                        proof {
                            assert(missing.deep_view() =~= spec_unresolved(
                                headers.deep_view(),
                                prefix1,
                            ));
                        }
                    },
                }
            }
            proof {
                assert(req.deep_view().take(req.len() as int) =~= req.deep_view());
            }
            (Some(resolved), missing)
        },
    }
}

/// Every resolved index is a valid position in the header it was derived
/// from.
pub proof fn lemma_resolved_indices_valid(headers: Seq<Seq<char>>, req: Seq<Seq<char>>)
    ensures
        forall|t: int| #![trigger spec_resolved(headers, req)[t]]
            0 <= t < spec_resolved(headers, req).len() ==> (spec_resolved(headers, req)[t] as int)
                < headers.len(),
    decreases req.len(),
{
    if req.len() > 0 {
        lemma_resolved_indices_valid(headers, req.drop_last());
        let rest = spec_resolved(headers, req.drop_last());
        match spec_first_index(headers, req.last()) {
            Some(i) => {
                headers.index_of_first_ensures(req.last());
                let whole = rest.push(i as usize);
                assert(spec_resolved(headers, req) == whole);
                assert forall|t: int| 0 <= t < whole.len() implies (whole[t] as int)
                    < headers.len() by {
                    if t < rest.len() {
                        assert(whole[t] == rest[t]);
                    } else {
                        assert(whole[t] == i as usize);
                        if headers.len() <= usize::MAX {
                            assert((i as usize) as int == i);
                        }
                    }
                }
            },
            None => {},
        }
    }
}

} // verus!
