//! The per-file scan: pull rows in order, match each one, and accumulate.
//!
//! The engine walks the rows of one file. Each row gets a 1-based ordinal,
//! counted over every row seen whether it matches or not. Matching rows are
//! tallied and, when the output mode buffers, recorded. When a configured
//! match limit is reached the scan stops at once: no further row is pulled
//! and no further ordinal is given out. The limit is checked only after a
//! match is recorded, so a limit of zero still reports the first match.

use vstd::prelude::*;

use crate::matcher::{row_matches, spec_row_match};
use crate::pattern::Pattern;

verus! {

/// One matched row: its 1-based ordinal within the file and its cells.
pub struct MatchRecord {
    pub ordinal: usize,
    pub cells: Vec<String>,
}

/// The mathematical form of a match record.
#[verifier::ext_equal]
pub ghost struct RecordModel {
    pub ordinal: int,
    pub cells: Seq<Seq<char>>,
}

impl DeepView for MatchRecord {
    type V = RecordModel;

    open spec fn deep_view(&self) -> RecordModel {
        RecordModel { ordinal: self.ordinal as int, cells: self.cells.deep_view() }
    }
}

/// What a scan reports for one file: the number of matching rows and, when
/// the output mode buffers, the match records in row order.
pub struct ScanOutcome {
    pub count: usize,
    pub records: Vec<MatchRecord>,
}

/// The match records among the first `n` rows, in row order, without any
/// limit applied.
pub open spec fn spec_matches_upto(
    rows: Seq<Seq<Seq<char>>>,
    pattern: Seq<char>,
    ci: bool,
    cols: Option<Seq<usize>>,
    invert: bool,
    n: int,
) -> Seq<RecordModel>
    decreases n,
{
    if n <= 0 {
        Seq::empty()
    } else {
        let prev = spec_matches_upto(rows, pattern, ci, cols, invert, n - 1);
        if spec_row_match(rows[n - 1], pattern, ci, cols, invert) {
            prev.push(RecordModel { ordinal: n, cells: rows[n - 1] })
        } else {
            prev
        }
    }
}

/// The match records of the whole row sequence, without any limit.
pub open spec fn spec_all_matches(
    rows: Seq<Seq<Seq<char>>>,
    pattern: Seq<char>,
    ci: bool,
    cols: Option<Seq<usize>>,
    invert: bool,
) -> Seq<RecordModel> {
    spec_matches_upto(rows, pattern, ci, cols, invert, rows.len() as int)
}

/// The number of matches a configured limit lets through. The limit is
/// checked only after a match, so a limit of zero still admits one.
pub open spec fn spec_effective_limit(max: usize) -> int {
    if max == 0 {
        1
    } else {
        max as int
    }
}

/// The records one scan reports: every match in row order, truncated to the
/// effective limit when one is configured.
pub open spec fn spec_scan(
    rows: Seq<Seq<Seq<char>>>,
    pattern: Seq<char>,
    ci: bool,
    cols: Option<Seq<usize>>,
    invert: bool,
    max: Option<usize>,
) -> Seq<RecordModel> {
    let all = spec_all_matches(rows, pattern, ci, cols, invert);
    match max {
        None => all,
        Some(m) => if all.len() > spec_effective_limit(m) {
            all.take(spec_effective_limit(m))
        } else {
            all
        },
    }
}

/// At most one record arises per row.
pub proof fn lemma_matches_upto_len(
    rows: Seq<Seq<Seq<char>>>,
    pattern: Seq<char>,
    ci: bool,
    cols: Option<Seq<usize>>,
    invert: bool,
    n: int,
)
    ensures
        spec_matches_upto(rows, pattern, ci, cols, invert, n).len() <= (if n <= 0 {
            0
        } else {
            n
        }),
    decreases n,
{
    if n > 0 {
        lemma_matches_upto_len(rows, pattern, ci, cols, invert, n - 1);
    }
}

/// Scanning further only appends: the records among the first `n1` rows are
/// a prefix of the records among the first `n2` rows, for `n1 <= n2`.
pub proof fn lemma_matches_upto_prefix(
    rows: Seq<Seq<Seq<char>>>,
    pattern: Seq<char>,
    ci: bool,
    cols: Option<Seq<usize>>,
    invert: bool,
    n1: int,
    n2: int,
)
    requires
        0 <= n1 <= n2,
    ensures
        spec_matches_upto(rows, pattern, ci, cols, invert, n1).len() <= spec_matches_upto(
            rows,
            pattern,
            ci,
            cols,
            invert,
            n2,
        ).len(),
        spec_matches_upto(rows, pattern, ci, cols, invert, n1) == spec_matches_upto(
            rows,
            pattern,
            ci,
            cols,
            invert,
            n2,
        ).take(spec_matches_upto(rows, pattern, ci, cols, invert, n1).len() as int),
    decreases n2 - n1,
{
    let s1 = spec_matches_upto(rows, pattern, ci, cols, invert, n1);
    if n1 == n2 {
        assert(s1.take(s1.len() as int) =~= s1);
    } else {
        lemma_matches_upto_prefix(rows, pattern, ci, cols, invert, n1, n2 - 1);
        let prev = spec_matches_upto(rows, pattern, ci, cols, invert, n2 - 1);
        let s2 = spec_matches_upto(rows, pattern, ci, cols, invert, n2);
        assert(s2.take(s1.len() as int) =~= prev.take(s1.len() as int));
    }
}

/// Scans the rows of one file in order.
///
/// Every row gets the 1-based ordinal of its position; matching rows are
/// counted; with `collect` the match records are kept in row order (an
/// output mode that never looks back leaves `collect` off and buffers
/// nothing). On reaching the configured limit the scan stops at once.
pub fn scan_rows(
    rows: &Vec<Vec<String>>,
    pattern: &Pattern,
    col_indices: &Option<Vec<usize>>,
    invert: bool,
    max_count: Option<usize>,
    collect: bool,
) -> (r: ScanOutcome)
    ensures
        r.count == spec_scan(
            rows.deep_view(),
            pattern.spec_source(),
            pattern.spec_ci(),
            col_indices.deep_view(),
            invert,
            max_count,
        ).len(),
        collect ==> r.records.deep_view() == spec_scan(
            rows.deep_view(),
            pattern.spec_source(),
            pattern.spec_ci(),
            col_indices.deep_view(),
            invert,
            max_count,
        ),
        !collect ==> r.records@.len() == 0,
{
    let ghost rv = rows.deep_view();
    let ghost src = pattern.spec_source();
    let ghost ci = pattern.spec_ci();
    let ghost cols = col_indices.deep_view();
    let ghost target = spec_scan(rv, src, ci, cols, invert, max_count);
    let ghost all = spec_all_matches(rv, src, ci, cols, invert);

    let mut records: Vec<MatchRecord> = Vec::new();
    let mut count: usize = 0;
    let mut i: usize = 0;

    while i < rows.len()
        invariant_except_break
            i <= rows.len(),
            count == spec_matches_upto(rv, src, ci, cols, invert, i as int).len(),
            collect ==> records.deep_view() == spec_matches_upto(
                rv,
                src,
                ci,
                cols,
                invert,
                i as int,
            ),
            !collect ==> records@.len() == 0,
            match max_count {
                Some(m) => count < spec_effective_limit(m),
                None => true,
            },
        invariant
            rv == rows.deep_view(),
            src == pattern.spec_source(),
            ci == pattern.spec_ci(),
            cols == col_indices.deep_view(),
            all == spec_all_matches(rv, src, ci, cols, invert),
            target == spec_scan(rv, src, ci, cols, invert, max_count),
        ensures
            count == target.len(),
            collect ==> records.deep_view() == target,
            !collect ==> records@.len() == 0,
        decreases rows.len() - i,
    {
        let ghost before = spec_matches_upto(rv, src, ci, cols, invert, i as int);
        let ghost after = spec_matches_upto(rv, src, ci, cols, invert, i + 1);
        proof {
            lemma_matches_upto_len(rv, src, ci, cols, invert, i as int);
            assert(rv[i as int] == rows@[i as int].deep_view());
        }
        let matched = row_matches(&rows[i], pattern, col_indices, invert);
        if matched {
            count = count + 1;
            if collect {
                let ghost pre = records.deep_view();
                let cells = clone_string_vec(&rows[i]);
                records.push(MatchRecord { ordinal: i + 1, cells });
                proof {
                    assert(records.deep_view() =~= pre.push(
                        RecordModel { ordinal: i + 1, cells: rv[i as int] },
                    ));
                    assert(records.deep_view() =~= after);
                }
            }
            let mut stop = false;
            if let Some(m) = max_count {
                if count >= m {
                    stop = true;
                }
            }
            if stop {
                proof {
                    let m = max_count.unwrap();
                    assert(count == spec_effective_limit(m));
                    assert(after.len() == spec_effective_limit(m));
                    lemma_matches_upto_prefix(rv, src, ci, cols, invert, i + 1, rv.len() as int);
                    if all.len() > spec_effective_limit(m) {
                        assert(target == all.take(spec_effective_limit(m)));
                        assert(target == after);
                    } else {
                        assert(all.len() == after.len());
                        assert(all.take(after.len() as int) =~= all);
                        assert(target == after);
                    }
                }
                break;
            }
        } else {
            proof {
                assert(after == before);
            }
        }
        i = i + 1;
    }
    ScanOutcome { count, records }
}

/// Copies a row of cells, preserving every cell's text.
pub(crate) fn clone_string_vec(v: &Vec<String>) -> (r: Vec<String>)
    ensures
        r@ == v@,
{
    let mut r: Vec<String> = Vec::new();
    for j in 0..v.len()
        invariant
            r@ =~= v@.take(j as int),
    {
        r.push(v[j].clone());
        proof {
            assert(r@ =~= v@.take(j + 1int));
        }
    }
    proof {
        assert(v@.take(v@.len() as int) =~= v@);
    }
    r
}

/// Row ordinals are faithful: every reported record carries the 1-based
/// position of the row it came from, its cells are that row's cells, and the
/// ordinals grow strictly in report order — the ordinal is counted once per
/// row pulled, independent of match outcome or filtering.
pub proof fn lemma_scan_ordinals(
    rows: Seq<Seq<Seq<char>>>,
    pattern: Seq<char>,
    ci: bool,
    cols: Option<Seq<usize>>,
    invert: bool,
    max: Option<usize>,
)
    ensures
        forall|t: int| #![trigger spec_scan(rows, pattern, ci, cols, invert, max)[t]]
            0 <= t < spec_scan(rows, pattern, ci, cols, invert, max).len() ==> {
                let rec = spec_scan(rows, pattern, ci, cols, invert, max)[t];
                &&& 1 <= rec.ordinal <= rows.len()
                &&& rec.cells == rows[rec.ordinal - 1]
            },
        forall|t1: int, t2: int|
            0 <= t1 < t2 < spec_scan(rows, pattern, ci, cols, invert, max).len() ==> spec_scan(
                rows,
                pattern,
                ci,
                cols,
                invert,
                max,
            )[t1].ordinal < spec_scan(rows, pattern, ci, cols, invert, max)[t2].ordinal,
{
    lemma_matches_upto_ordinals(rows, pattern, ci, cols, invert, rows.len() as int);
}

/// The ordinal facts for an unlimited scan prefix, by induction on the
/// number of rows pulled.
proof fn lemma_matches_upto_ordinals(
    rows: Seq<Seq<Seq<char>>>,
    pattern: Seq<char>,
    ci: bool,
    cols: Option<Seq<usize>>,
    invert: bool,
    n: int,
)
    requires
        n <= rows.len(),
    ensures
        forall|t: int| #![trigger spec_matches_upto(rows, pattern, ci, cols, invert, n)[t]]
            0 <= t < spec_matches_upto(rows, pattern, ci, cols, invert, n).len() ==> {
                let rec = spec_matches_upto(rows, pattern, ci, cols, invert, n)[t];
                &&& 1 <= rec.ordinal <= n
                &&& rec.cells == rows[rec.ordinal - 1]
            },
        forall|t1: int, t2: int|
            0 <= t1 < t2 < spec_matches_upto(rows, pattern, ci, cols, invert, n).len()
                ==> spec_matches_upto(rows, pattern, ci, cols, invert, n)[t1].ordinal
                < spec_matches_upto(rows, pattern, ci, cols, invert, n)[t2].ordinal,
    decreases n,
{
    if n > 0 {
        lemma_matches_upto_ordinals(rows, pattern, ci, cols, invert, n - 1);
        let prev = spec_matches_upto(rows, pattern, ci, cols, invert, n - 1);
        let cur = spec_matches_upto(rows, pattern, ci, cols, invert, n);
        assert forall|t: int| 0 <= t < cur.len() implies {
            let rec = #[trigger] cur[t];
            &&& 1 <= rec.ordinal <= n
            &&& rec.cells == rows[rec.ordinal - 1]
        } by {
            if t < prev.len() {
                assert(cur[t] == prev[t]);
            } else {
                assert(cur[t].ordinal == n);
            }
        }
        assert forall|t1: int, t2: int| 0 <= t1 < t2 < cur.len() implies cur[t1].ordinal
            < cur[t2].ordinal by {
            if t2 < prev.len() {
                assert(cur[t1] == prev[t1]);
                assert(cur[t2] == prev[t2]);
            } else {
                assert(cur[t1] == prev[t1]);
                assert(prev[t1].ordinal <= n - 1);
                assert(cur[t2].ordinal == n);
            }
        }
    }
}

/// Scanning the same rows twice with identical parameters yields identical
/// match records in identical order: the scan result is a function of the
/// rows, the pattern, the restriction, the inversion flag and the limit, and
/// of nothing else.
pub proof fn lemma_scan_deterministic(
    a: Seq<RecordModel>,
    b: Seq<RecordModel>,
    rows: Seq<Seq<Seq<char>>>,
    pattern: Seq<char>,
    ci: bool,
    cols: Option<Seq<usize>>,
    invert: bool,
    max: Option<usize>,
)
    requires
        a == spec_scan(rows, pattern, ci, cols, invert, max),
        b == spec_scan(rows, pattern, ci, cols, invert, max),
    ensures
        a == b,
{
}

} // verus!
