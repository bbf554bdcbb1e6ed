//! The results-table delegate: sort state, the sort/query-rewrite
//! contract, and the local in-memory row-sort fallback.
//!
//! When a consumer requests a re-sort by a column, this layer strips
//! any trailing `ORDER BY` clause (case-insensitive, rightmost
//! occurrence) from the last-executed query text, appends an
//! `ORDER BY "column" direction` clause with embedded quotes doubled,
//! and hands the rewritten query back for re-submission. When no
//! backing query exists, a lexicographic in-memory sort of the cell
//! text is available instead.

use vstd::multiset::Multiset;
use vstd::prelude::*;

use crate::db::QueryResult;
use crate::text::{chars_of, push_char, string_of_chars};

verus! {

/// The sort state of one column: a direction, or no sort at all.
/// A request carrying no direction toggles the current state.
#[derive(Debug, Clone, Copy, PartialEq, Eq, Structural)]
pub enum ColumnSort {
    Ascending,
    Descending,
    Unsorted,
}

/// Case-insensitive equality against one letter given in both cases.
pub open spec fn ci_eq(c: char, upper: char, lower: char) -> bool {
    c == upper || c == lower
}

/// Whether the eight characters at `i` spell `ORDER BY`, matching
/// each letter in either case.
pub open spec fn order_by_at(s: Seq<char>, i: int) -> bool {
    &&& 0 <= i
    &&& i + 8 <= s.len()
    &&& ci_eq(s[i], 'O', 'o')
    &&& ci_eq(s[i + 1], 'R', 'r')
    &&& ci_eq(s[i + 2], 'D', 'd')
    &&& ci_eq(s[i + 3], 'E', 'e')
    &&& ci_eq(s[i + 4], 'R', 'r')
    &&& s[i + 5] == ' '
    &&& ci_eq(s[i + 6], 'B', 'b')
    &&& ci_eq(s[i + 7], 'Y', 'y')
}

/// The rightmost occurrence of `ORDER BY` at or before position `i`.
pub open spec fn last_order_by_from(s: Seq<char>, i: int) -> Option<int>
    decreases i + 1,
{
    if i < 0 {
        None
    } else if order_by_at(s, i) {
        Some(i)
    } else {
        last_order_by_from(s, i - 1)
    }
}

/// The rightmost occurrence of `ORDER BY` in the text, if any.
pub open spec fn last_order_by(s: Seq<char>) -> Option<int> {
    last_order_by_from(s, s.len() - 8)
}

/// ASCII whitespace, as trimmed from a stripped query text.
pub open spec fn is_ws(c: char) -> bool {
    c == ' ' || c == '\t' || c == '\n' || c == '\r'
}

/// The first index at or after `i` that does not hold whitespace.
pub open spec fn trim_lo(s: Seq<char>, i: int) -> int
    decreases s.len() - i,
{
    if 0 <= i < s.len() && is_ws(s[i]) {
        trim_lo(s, i + 1)
    } else {
        i
    }
}

/// The last index at or before `i` whose preceding character is not
/// whitespace.
pub open spec fn trim_hi(s: Seq<char>, i: int) -> int
    decreases i,
{
    if 0 < i <= s.len() && is_ws(s[i - 1]) {
        trim_hi(s, i - 1)
    } else {
        i
    }
}

/// The text with leading and trailing whitespace removed.
pub open spec fn trimmed(s: Seq<char>) -> Seq<char> {
    let lo = trim_lo(s, 0);
    let hi = trim_hi(s, s.len() as int);
    if lo <= hi {
        s.subrange(lo, hi)
    } else {
        Seq::empty()
    }
}

/// The text with each embedded double-quote character doubled, so it
/// can stand inside a quoted identifier.
pub open spec fn escape_quotes(s: Seq<char>) -> Seq<char>
    decreases s.len(),
{
    if s.len() == 0 {
        Seq::empty()
    } else {
        escape_quotes(s.drop_last()) + (if s.last() == '"' {
            seq!['"', '"']
        } else {
            seq![s.last()]
        })
    }
}

/// The last-executed query with its trailing `ORDER BY` clause
/// stripped: the text before the rightmost occurrence, trimmed; or
/// the text unchanged when there is no occurrence.
pub open spec fn stripped_base(q: Seq<char>) -> Seq<char> {
    match last_order_by(q) {
        Some(i) => trimmed(q.take(i)),
        None => q,
    }
}

/// The rewritten query of the sort contract: the stripped base, then
/// an `ORDER BY` clause naming the column as a quoted identifier with
/// embedded quotes doubled, then the direction keyword.
pub open spec fn sorted_query(q: Seq<char>, column: Seq<char>, ascending: bool) -> Seq<char> {
    stripped_base(q) + " ORDER BY \""@ + escape_quotes(column) + "\" "@ + (if ascending {
        "ASC"@
    } else {
        "DESC"@
    })
}

/// Checks the eight characters at `i` for `ORDER BY` in either case.
fn order_by_check(v: &Vec<char>, i: usize) -> (r: bool)
    requires
        i + 8 <= v@.len(),
    ensures
        r == order_by_at(v@, i as int),
{
    let n = v.len();
    (v[i] == 'O' || v[i] == 'o') && (v[i + 1] == 'R' || v[i + 1] == 'r') && (v[i + 2] == 'D'
        || v[i + 2] == 'd') && (v[i + 3] == 'E' || v[i + 3] == 'e') && (v[i + 4] == 'R' || v[i + 4]
        == 'r') && (v[i + 5] == ' ') && (v[i + 6] == 'B' || v[i + 6] == 'b') && (v[i + 7] == 'Y'
        || v[i + 7] == 'y')
}

/// Finds the rightmost `ORDER BY` occurrence in the text, if any.
fn find_last_order_by(v: &Vec<char>) -> (r: Option<usize>)
    ensures
        match r {
            Some(i) => last_order_by(v@) == Some(i as int) && i + 8 <= v@.len(),
            None => last_order_by(v@) is None,
        },
{
    let n = v.len();
    if n < 8 {
        assert(last_order_by_from(v@, v@.len() - 8) is None);
        return None;
    }
    let mut i: usize = n - 8;
    loop
        invariant
            i + 8 <= n,
            n == v@.len(),
            last_order_by(v@) == last_order_by_from(v@, i as int),
        decreases i,
    {
        if order_by_check(v, i) {
            return Some(i);
        }
        if i == 0 {
            assert(last_order_by_from(v@, 0) == last_order_by_from(v@, -1));
            assert(last_order_by_from(v@, -1) is None);
            return None;
        }
        assert(last_order_by_from(v@, i as int) == last_order_by_from(v@, i - 1));
        i = i - 1;
    }
}

/// Whitespace test on one character.
fn ws_check(c: char) -> (r: bool)
    ensures
        r == is_ws(c),
{
    c == ' ' || c == '\t' || c == '\n' || c == '\r'
}

/// The bounds of the text once leading and trailing whitespace is
/// dropped, as computed by the trim specification.
fn trim_bounds(v: &Vec<char>, upto: usize) -> (r: (usize, usize))
    requires
        upto <= v@.len(),
    ensures
        r.0 == trim_lo(v@.take(upto as int), 0),
        r.1 == trim_hi(v@.take(upto as int), upto as int),
        r.0 <= upto,
        r.1 <= upto,
{
    let ghost s = v@.take(upto as int);
    let mut lo: usize = 0;
    while lo < upto && ws_check(v[lo])
        invariant
            lo <= upto,
            upto <= v@.len(),
            s == v@.take(upto as int),
            trim_lo(s, 0) == trim_lo(s, lo as int),
        decreases upto - lo,
    {
        lo = lo + 1;
    }
    assert(trim_lo(s, lo as int) == lo as int);
    let mut hi: usize = upto;
    while hi > 0 && ws_check(v[hi - 1])
        invariant
            hi <= upto,
            upto <= v@.len(),
            s == v@.take(upto as int),
            trim_hi(s, upto as int) == trim_hi(s, hi as int),
        decreases hi,
    {
        hi = hi - 1;
    }
    assert(trim_hi(s, hi as int) == hi as int);
    (lo, hi)
}

/// Rewrites the last-executed query to order by the named column:
/// strips any trailing `ORDER BY` clause, then appends one for the
/// column with embedded quotes doubled and the requested direction.
pub fn rewrite_query_for_sort(base_query: &str, column: &str, ascending: bool) -> (r: String)
    ensures
        r@ == sorted_query(base_query@, column@, ascending),
{
    let v = chars_of(base_query);
    let base: Vec<char>;
    match find_last_order_by(&v) {
        Some(i) => {
            let (lo, hi) = trim_bounds(&v, i);
            let mut cleaned: Vec<char> = Vec::new();
            let mut k: usize = lo;
            while k < hi
                invariant
                    lo <= k,
                    k <= hi || hi < lo,
                    hi < lo ==> k == lo,
                    hi <= v@.len(),
                    cleaned@ == v@.subrange(lo as int, k as int),
                decreases hi - k,
            {
                cleaned.push(v[k]);
                assert(cleaned@ =~= v@.subrange(lo as int, k + 1 as int));
                k = k + 1;
            }
            proof {
                if lo <= hi {
                    assert(cleaned@ =~= v@.take(i as int).subrange(
                        trim_lo(v@.take(i as int), 0),
                        trim_hi(v@.take(i as int), i as int),
                    ));
                } else {
                    assert(cleaned@ =~= Seq::<char>::empty());
                }
            }
            assert(cleaned@ == stripped_base(v@));
            base = cleaned;
        },
        None => {
            assert(v@ == stripped_base(v@));
            base = v;
        },
    }
    let mut r = string_of_chars(&base);
    r.append(" ORDER BY \"");
    let col = chars_of(column);
    let mut k: usize = 0;
    while k < col.len()
        invariant
            k <= col@.len(),
            r@ == stripped_base(base_query@) + " ORDER BY \""@ + escape_quotes(
                col@.take(k as int),
            ),
            col@ == column@,
        decreases col@.len() - k,
    {
        let c = col[k];
        if c == '"' {
            push_char(&mut r, '"');
            push_char(&mut r, '"');
        } else {
            push_char(&mut r, c);
        }
        proof {
            assert(col@.take(k + 1 as int).drop_last() =~= col@.take(k as int));
            assert(r@ =~= stripped_base(base_query@) + " ORDER BY \""@ + escape_quotes(
                col@.take(k + 1 as int),
            ));
        }
        k = k + 1;
    }
    assert(col@.take(col@.len() as int) =~= col@);
    r.append("\" ");
    if ascending {
        r.append("ASC");
    } else {
        r.append("DESC");
    }
    assert(r@ =~= sorted_query(base_query@, column@, ascending));
    r
}

/// The first index among the column names whose text equals `name`.
pub open spec fn index_of_from(cols: Seq<String>, name: Seq<char>, i: int) -> Option<int>
    decreases cols.len() - i,
{
    if i < 0 || i >= cols.len() {
        None
    } else if cols[i]@ == name {
        Some(i)
    } else {
        index_of_from(cols, name, i + 1)
    }
}

/// The first index among the column names whose text equals `name`.
pub open spec fn first_index_of(cols: Seq<String>, name: Seq<char>) -> Option<int> {
    index_of_from(cols, name, 0)
}

/// A direction-less sort request toggles: it descends exactly when
/// the same column is currently sorted ascending.
pub open spec fn toggled_ascending(
    current_col: Option<usize>,
    current_order: ColumnSort,
    col_ix: usize,
) -> bool {
    !(current_col == Some(col_ix) && current_order == ColumnSort::Ascending)
}

/// The direction a sort request resolves to: an explicit direction is
/// kept, and a request without one toggles the current state.
pub open spec fn resolved_ascending(
    current_col: Option<usize>,
    current_order: ColumnSort,
    col_ix: usize,
    requested: ColumnSort,
) -> bool {
    match requested {
        ColumnSort::Ascending => true,
        ColumnSort::Descending => false,
        ColumnSort::Unsorted => toggled_ascending(current_col, current_order, col_ix),
    }
}

/// Lexicographic order on text: by character code point, with a
/// prefix ordered before every extension of it.
pub open spec fn str_le(a: Seq<char>, b: Seq<char>) -> bool
    decreases a.len(),
{
    if a.len() == 0 {
        true
    } else if b.len() == 0 {
        false
    } else if a[0] == b[0] {
        str_le(a.skip(1), b.skip(1))
    } else {
        (a[0] as u32) < (b[0] as u32)
    }
}

/// The lexicographic order is total.
pub proof fn lemma_str_le_total(a: Seq<char>, b: Seq<char>)
    ensures
        str_le(a, b) || str_le(b, a),
    decreases a.len(),
{
    if a.len() > 0 && b.len() > 0 {
        if a[0] == b[0] {
            lemma_str_le_total(a.skip(1), b.skip(1));
        } else {
            vstd::utf8::char_u32_cast(a[0], a[0] as u32);
            vstd::utf8::char_u32_cast(b[0], b[0] as u32);
        }
    }
}

/// The lexicographic order is transitive.
pub proof fn lemma_str_le_trans(a: Seq<char>, b: Seq<char>, c: Seq<char>)
    requires
        str_le(a, b),
        str_le(b, c),
    ensures
        str_le(a, c),
    decreases a.len(),
{
    if a.len() == 0 || b.len() == 0 || c.len() == 0 {
    } else if a[0] == b[0] && b[0] == c[0] {
        lemma_str_le_trans(a.skip(1), b.skip(1), c.skip(1));
    }
}

/// Order between two rows at the sort column, under a direction.
pub open spec fn row_le(a: Seq<String>, b: Seq<String>, col: int, ascending: bool) -> bool {
    if ascending {
        str_le(a[col]@, b[col]@)
    } else {
        str_le(b[col]@, a[col]@)
    }
}

/// Whether the rows are sorted at the column under the direction.
pub open spec fn rows_sorted(rows: Seq<Vec<String>>, col: int, ascending: bool) -> bool {
    forall|i: int, j: int|
        0 <= i < j < rows.len() ==> row_le((#[trigger] rows[i])@, (#[trigger] rows[j])@, col, ascending)
}

/// Every row has exactly `width` cells.
pub open spec fn rows_wf(rows: Seq<Vec<String>>, width: nat) -> bool {
    forall|k: int| 0 <= k < rows.len() ==> (#[trigger] rows[k])@.len() == width
}

/// Compares two strings in the lexicographic order.
fn lex_le(a: &String, b: &String) -> (r: bool)
    ensures
        r == str_le(a@, b@),
{
    let av = chars_of(a.as_str());
    let bv = chars_of(b.as_str());
    let n = av.len();
    let m = bv.len();
    let mut i: usize = 0;
    proof {
        assert(av@.skip(0) =~= av@);
        assert(bv@.skip(0) =~= bv@);
    }
    loop
        invariant
            i <= n,
            i <= m,
            n == av@.len(),
            m == bv@.len(),
            av@ == a@,
            bv@ == b@,
            str_le(a@, b@) == str_le(av@.skip(i as int), bv@.skip(i as int)),
        decreases n - i,
    {
        if i >= n {
            assert(av@.skip(i as int).len() == 0);
            return true;
        }
        if i >= m {
            assert(bv@.skip(i as int).len() == 0);
            assert(av@.skip(i as int).len() > 0);
            return false;
        }
        let ca = av[i];
        let cb = bv[i];
        assert(av@.skip(i as int)[0] == av@[i as int]);
        assert(bv@.skip(i as int)[0] == bv@[i as int]);
        if ca == cb {
            proof {
                assert(av@.skip(i as int).skip(1) =~= av@.skip(i + 1));
                assert(bv@.skip(i as int).skip(1) =~= bv@.skip(i + 1));
            }
            i = i + 1;
        } else {
            assert(str_le(av@.skip(i as int), bv@.skip(i as int)) == ((ca as u32) < (cb as u32)));
            return (ca as u32) < (cb as u32);
        }
    }
}

/// Compares two rows at the sort column under a direction.
fn row_le_check(a: &Vec<String>, b: &Vec<String>, col_ix: usize, ascending: bool) -> (r: bool)
    requires
        col_ix < a@.len(),
        col_ix < b@.len(),
    ensures
        r == row_le(a@, b@, col_ix as int, ascending),
{
    if ascending {
        lex_le(&a[col_ix], &b[col_ix])
    } else {
        lex_le(&b[col_ix], &a[col_ix])
    }
}

/// Finds the first column whose name equals `name`.
fn find_column_index(cols: &Vec<String>, name: &String) -> (r: Option<usize>)
    ensures
        match first_index_of(cols@, name@) {
            None => r is None,
            Some(i) => r == Some(i as usize),
        },
{
    let mut i: usize = 0;
    while i < cols.len()
        invariant
            i <= cols@.len(),
            first_index_of(cols@, name@) == index_of_from(cols@, name@, i as int),
        decreases cols@.len() - i,
    {
        if cols[i] == *name {
            assert(index_of_from(cols@, name@, i as int) == Some(i as int));
            return Some(i);
        }
        assert(index_of_from(cols@, name@, i as int) == index_of_from(cols@, name@, i + 1));
        i = i + 1;
    }
    assert(index_of_from(cols@, name@, cols@.len() as int) is None);
    None
}

/// The sort state and result snapshot behind one rendered results
/// table.
pub struct QueryResultsDelegate {
    pub results: QueryResult,
    pub current_sort_col: Option<usize>,
    pub current_sort_order: ColumnSort,
}

impl QueryResultsDelegate {
    /// A delegate over one result snapshot, initially sorted by the
    /// first column matching the remembered sort column, if any.
    pub fn new(results: QueryResult, sort_column: Option<String>, sort_ascending: bool) -> (r:
        QueryResultsDelegate)
        ensures
            r.results == results,
            match sort_column {
                None => r.current_sort_col is None,
                Some(c) => match first_index_of(results.columns@, c@) {
                    None => r.current_sort_col is None,
                    Some(i) => r.current_sort_col == Some(i as usize),
                },
            },
            r.current_sort_order == if r.current_sort_col is Some {
                if sort_ascending {
                    ColumnSort::Ascending
                } else {
                    ColumnSort::Descending
                }
            } else {
                ColumnSort::Unsorted
            },
    {
        let sort_col_index: Option<usize> = match &sort_column {
            None => None,
            Some(c) => find_column_index(&results.columns, c),
        };
        let sort_order = if sort_ascending {
            ColumnSort::Ascending
        } else {
            ColumnSort::Descending
        };
        QueryResultsDelegate {
            results,
            current_sort_col: sort_col_index,
            current_sort_order: if sort_col_index.is_some() {
                sort_order
            } else {
                ColumnSort::Unsorted
            },
        }
    }

    /// The number of columns of the rendered table.
    pub fn columns_count(&self) -> (r: usize)
        ensures
            r == self.results.columns@.len(),
    {
        self.results.columns.len()
    }

    /// The number of rows of the rendered table.
    pub fn rows_count(&self) -> (r: usize)
        ensures
            r == self.results.rows@.len(),
    {
        self.results.rows.len()
    }

    /// The text shown in one cell of the rendered table: the stored
    /// string, or empty when the position lies outside the snapshot.
    pub fn cell_text(&self, row_ix: usize, col_ix: usize) -> (r: String)
        ensures
            r@ == if row_ix < self.results.rows@.len() && col_ix < (
            self.results.rows@[row_ix as int])@.len() {
                ((self.results.rows@[row_ix as int])@[col_ix as int])@
            } else {
                Seq::<char>::empty()
            },
    {
        if row_ix < self.results.rows.len() {
            let row = &self.results.rows[row_ix];
            if col_ix < row.len() {
                row[col_ix].clone()
            } else {
                String::new()
            }
        } else {
            String::new()
        }
    }

    /// Applies a sort request against the last-executed query text:
    /// records the resolved sort state and hands back the rewritten
    /// query to re-submit, or nothing when there is no backing query
    /// to rewrite. A request naming a column outside the result
    /// changes nothing.
    pub fn perform_sort(
        &mut self,
        col_ix: usize,
        requested: ColumnSort,
        base_query: Option<&str>,
    ) -> (r: Option<String>)
        ensures
            col_ix >= old(self).results.columns@.len() ==> *final(self) == *old(self) && r is None,
            col_ix < old(self).results.columns@.len() ==> {
                let asc = resolved_ascending(
                    old(self).current_sort_col,
                    old(self).current_sort_order,
                    col_ix,
                    requested,
                );
                &&& final(self).results == old(self).results
                &&& final(self).current_sort_col == Some(col_ix)
                &&& final(self).current_sort_order == if asc {
                    ColumnSort::Ascending
                } else {
                    ColumnSort::Descending
                }
                &&& match base_query {
                    None => r is None,
                    Some(q) => r is Some && r->0@ == sorted_query(
                        q@,
                        old(self).results.columns@[col_ix as int]@,
                        asc,
                    ),
                }
            },
    {
        if col_ix >= self.results.columns.len() {
            return None;
        }
        let ascending = match requested {
            ColumnSort::Ascending => true,
            ColumnSort::Descending => false,
            ColumnSort::Unsorted => {
                let same_col = match self.current_sort_col {
                    Some(c) => c == col_ix,
                    None => false,
                };
                !(same_col && self.current_sort_order == ColumnSort::Ascending)
            },
        };
        self.current_sort_col = Some(col_ix);
        self.current_sort_order = if ascending {
            ColumnSort::Ascending
        } else {
            ColumnSort::Descending
        };
        match base_query {
            None => None,
            Some(q) => Some(rewrite_query_for_sort(q, self.results.columns[col_ix].as_str(), ascending)),
        }
    }

    /// The local in-memory row-sort fallback, for when no live
    /// connection or backing query exists: reorders the rows by
    /// lexicographic comparison of the cell text at the column. The
    /// rows are a permutation of the old ones and end up sorted in
    /// the requested direction; a direction-less request is a no-op,
    /// since only a fresh query execution resets the order.
    pub fn sort_rows(&mut self, col_ix: usize, requested: ColumnSort)
        requires
            col_ix < old(self).results.columns@.len(),
            rows_wf(old(self).results.rows@, old(self).results.columns@.len()),
        ensures
            final(self).results.columns == old(self).results.columns,
            final(self).results.rows@.to_multiset() == old(self).results.rows@.to_multiset(),
            final(self).results.rows@.len() == old(self).results.rows@.len(),
            rows_wf(final(self).results.rows@, final(self).results.columns@.len()),
            requested is Unsorted ==> *final(self) == *old(self),
            !(requested is Unsorted) ==> rows_sorted(
                final(self).results.rows@,
                col_ix as int,
                requested is Ascending,
            ) && final(self).current_sort_col == Some(col_ix) && final(self).current_sort_order
                == requested,
    {
        if let ColumnSort::Unsorted = requested {
            return;
        }
        let ascending = match requested {
            ColumnSort::Ascending => true,
            _ => false,
        };
        let ghost orig = self.results.rows@;
        let ghost width = self.results.columns@.len();
        let mut sorted_rows: Vec<Vec<String>> = Vec::new();
        proof {
            broadcast use vstd::seq_lib::group_to_multiset_ensures;

            assert(Seq::<Vec<String>>::empty().to_multiset() =~= Multiset::empty());
            assert(sorted_rows@.to_multiset().add(self.results.rows@.to_multiset())
                =~= orig.to_multiset());
        }
        while self.results.rows.len() > 0
            invariant
                col_ix < width,
                width == self.results.columns@.len(),
                self.results.columns == old(self).results.columns,
                rows_wf(sorted_rows@, width),
                rows_wf(self.results.rows@, width),
                sorted_rows@.to_multiset().add(self.results.rows@.to_multiset())
                    == orig.to_multiset(),
                sorted_rows@.len() + self.results.rows@.len() == orig.len(),
                rows_sorted(sorted_rows@, col_ix as int, ascending),
            decreases self.results.rows@.len(),
        {
            let ghost rem = self.results.rows@;
            let row = self.results.rows.remove(0);
            let mut k: usize = 0;
            while k < sorted_rows.len() && row_le_check(&sorted_rows[k], &row, col_ix, ascending)
                invariant
                    k <= sorted_rows@.len(),
                    col_ix < width,
                    col_ix < row@.len(),
                    rows_wf(sorted_rows@, width),
                    forall|m: int|
                        0 <= m < k ==> row_le(
                            (#[trigger] sorted_rows@[m])@,
                            row@,
                            col_ix as int,
                            ascending,
                        ),
                decreases sorted_rows@.len() - k,
            {
                k = k + 1;
            }
            let ghost before = sorted_rows@;
            let ghost kk = k as int;
            sorted_rows.insert(k, row);
            proof {
                broadcast use vstd::seq_lib::group_to_multiset_ensures;
                broadcast use vstd::multiset::group_multiset_axioms;

                // The multiset is preserved: one row moved over.
                vstd::seq_lib::to_multiset_insert(before, kk, row);
                assert(rem.remove(0) =~= self.results.rows@);
                vstd::seq_lib::to_multiset_remove(rem, 0);
                assert(rem[0] == row);
                assert(sorted_rows@.to_multiset().add(self.results.rows@.to_multiset())
                    =~= orig.to_multiset());
                // The inserted sequence stays sorted: everything
                // before the slot is at most the row, and the row is
                // at most everything from the slot on.
                if kk < before.len() {
                    assert(!row_le(before[kk]@, row@, col_ix as int, ascending));
                    lemma_row_le_total(before[kk]@, row@, col_ix as int, ascending);
                }
                assert forall|i: int, j: int| 0 <= i < j < sorted_rows@.len() implies row_le(
                    (#[trigger] sorted_rows@[i])@,
                    (#[trigger] sorted_rows@[j])@,
                    col_ix as int,
                    ascending,
                ) by {
                    if j < kk {
                    } else if i < kk && j == kk {
                    } else if i < kk && j > kk {
                        assert(sorted_rows@[j] == before[j - 1]);
                    } else if i == kk && j > kk {
                        assert(sorted_rows@[j] == before[j - 1]);
                        if j - 1 > kk {
                            lemma_row_le_trans(
                                row@,
                                before[kk]@,
                                before[j - 1]@,
                                col_ix as int,
                                ascending,
                            );
                        }
                    } else {
                        assert(sorted_rows@[i] == before[i - 1]);
                        assert(sorted_rows@[j] == before[j - 1]);
                    }
                }
            }
        }
        proof {
            broadcast use vstd::multiset::group_multiset_axioms;

            assert(self.results.rows@.to_multiset() =~= Multiset::empty());
            assert(sorted_rows@.to_multiset().add(self.results.rows@.to_multiset())
                =~= sorted_rows@.to_multiset());
        }
        self.results.rows = sorted_rows;
        self.current_sort_col = Some(col_ix);
        self.current_sort_order = requested;
    }
}

/// Order between rows is total at any column both rows have.
pub proof fn lemma_row_le_total(a: Seq<String>, b: Seq<String>, col: int, ascending: bool)
    ensures
        row_le(a, b, col, ascending) || row_le(b, a, col, ascending),
{
    lemma_str_le_total(a[col]@, b[col]@);
}

/// Order between rows is transitive at any column.
pub proof fn lemma_row_le_trans(a: Seq<String>, b: Seq<String>, c: Seq<String>, col: int, ascending: bool)
    requires
        row_le(a, b, col, ascending),
        row_le(b, c, col, ascending),
    ensures
        row_le(a, c, col, ascending),
{
    if ascending {
        lemma_str_le_trans(a[col]@, b[col]@, c[col]@);
    } else {
        lemma_str_le_trans(c[col]@, b[col]@, a[col]@);
    }
}

} // verus!
