//! Spreadsheet planning: cleaning a model's JSON answer, checking which
//! columns a formula refers to, naming the sheet, and laying out the header
//! and formula cells of a generated table, plus the cells of a Markdown table
//! exported to a workbook.
use crate::text::{
    append_chars, append_str, contains_chars, decimal, join, lines, lines_str, occurs_at,
    occurs_at_exec, push_char, push_decimal, split_chars, split_on, split_str, split_str_chars,
    string_of, string_of_range, to_chars, trim, trim_range, trim_start, trim_start_index, views,
    contains_seq, lemma_split_on_nonempty, lemma_split_str_nonempty, str_views, trim_char,
    trim_end_char, trim_start_char,
};
use vstd::prelude::*;

verus! {

/// One column of a planned table.
pub struct ColumnSpec {
    pub header: String,
    /// `"input"` for a cell the user fills, `"formula"` for a computed one.
    pub kind: String,
    /// The formula, with `{row}` standing for the row number.
    pub formula: Option<String>,
}

/// A planned table.
pub struct SheetSpec {
    pub title: String,
    pub columns: Vec<ColumnSpec>,
    pub row_count: usize,
}

/// A formula to write into one cell.
pub struct FormulaCell {
    pub row: u32,
    pub col: usize,
    pub text: String,
}

/// What to write into a generated sheet.
pub struct SheetPlan {
    /// Header of column `i`, written in row 0.
    pub headers: Vec<String>,
    pub formulas: Vec<FormulaCell>,
}

/// A text cell of an exported table.
pub struct TextCell {
    pub row: usize,
    pub col: usize,
    pub text: String,
}

// ---------------------------------------------------------------------
// Specifications
// ---------------------------------------------------------------------

/// Row count used when a plan names none.
pub open spec fn spec_default_row_count() -> nat {
    15
}

/// `s` without the prefix `p`, if it starts with it.
pub open spec fn strip_prefix(s: Seq<char>, p: Seq<char>) -> Option<Seq<char>> {
    if occurs_at(s, p, 0) {
        Some(s.skip(p.len() as int))
    } else {
        None
    }
}

/// `s` without the suffix `p`, if it ends with it.
pub open spec fn strip_suffix(s: Seq<char>, p: Seq<char>) -> Option<Seq<char>> {
    if p.len() <= s.len() && occurs_at(s, p, s.len() - p.len()) {
        Some(s.take(s.len() - p.len()))
    } else {
        None
    }
}

/// Three backticks.
pub open spec fn fence() -> Seq<char> {
    seq!['`', '`', '`']
}

/// Three backticks and `json`.
pub open spec fn json_fence() -> Seq<char> {
    seq!['`', '`', '`', 'j', 's', 'o', 'n']
}

/// The answer with a surrounding Markdown code fence removed.
pub open spec fn unfenced(s: Seq<char>) -> Seq<char> {
    let a = trim(s);
    let b = match strip_prefix(a, json_fence()) {
        Some(x) => x,
        None => match strip_prefix(a, fence()) {
            Some(x) => x,
            None => a,
        },
    };
    let c = match strip_suffix(b, fence()) {
        Some(x) => x,
        None => b,
    };
    trim(c)
}

/// ASCII capital letter.
pub open spec fn is_upper(c: char) -> bool {
    'A' <= c && c <= 'Z'
}

/// Column index of a run of capital letters (`A` is 0, `Z` 25, `AA` 26).
pub open spec fn col_value(letters: Seq<char>) -> int
    decreases letters.len(),
{
    if letters.len() == 0 {
        -1
    } else {
        (col_value(letters.drop_last()) + 1) * 26 + ((letters.last() as u32) - 65)
    }
}

/// `{row}`.
pub open spec fn row_marker() -> Seq<char> {
    seq!['{', 'r', 'o', 'w', '}']
}

/// Whether what follows position `j` makes the letters before it a cell
/// reference: `{row}` or a digit.
pub open spec fn ref_follows(s: Seq<char>, j: int) -> bool {
    occurs_at(s, row_marker(), j) || (j < s.len() && '0' <= s[j] && s[j] <= '9')
}

/// `s[a..b]` is a maximal run of capital letters followed by a row number:
/// a cell reference.
pub open spec fn is_ref_run(s: Seq<char>, a: int, b: int) -> bool {
    &&& 0 <= a < b <= s.len()
    &&& forall|k: int| a <= k < b ==> is_upper(#[trigger] s[k])
    &&& (a == 0 || !is_upper(s[a - 1]))
    &&& (b == s.len() || !is_upper(s[b]))
    &&& ref_follows(s, b)
}

/// Every cell reference of the formula has a column index that fits the
/// machine integers the computation uses.
pub open spec fn refs_fit(s: Seq<char>) -> bool {
    forall|a: int, b: int|
        is_ref_run(s, a, b) ==> #[trigger] col_value(s.subrange(a, b)) <= i64::MAX && col_value(
            s.subrange(a, b),
        ) <= usize::MAX
}

/// The largest column index the formula refers to, if it refers to any.
pub open spec fn max_ref_is(s: Seq<char>, r: Option<usize>) -> bool {
    match r {
        None => forall|a: int, b: int| !is_ref_run(s, a, b),
        Some(v) => (exists|a: int, b: int|
            is_ref_run(s, a, b) && #[trigger] col_value(s.subrange(a, b)) == v) && forall|
            a: int,
            b: int,
        | is_ref_run(s, a, b) ==> #[trigger] col_value(s.subrange(a, b)) <= v,
    }
}

/// Characters Excel does not allow in a sheet name.
pub open spec fn is_forbidden_in_sheet_name(c: char) -> bool {
    c == '[' || c == ']' || c == ':' || c == '*' || c == '?' || c == '/' || c == '\\'
}

/// The title without the forbidden characters.
pub open spec fn without_forbidden(s: Seq<char>) -> Seq<char>
    decreases s.len(),
{
    if s.len() == 0 {
        s
    } else {
        let r = without_forbidden(s.drop_last());
        if is_forbidden_in_sheet_name(s.last()) {
            r
        } else {
            r.push(s.last())
        }
    }
}

/// `Tablo`.
pub open spec fn default_sheet_name() -> Seq<char> {
    seq!['T', 'a', 'b', 'l', 'o']
}

/// A valid sheet name for the title: forbidden characters dropped, at most
/// 31 characters, `Tablo` when nothing is left.
pub open spec fn sheet_name(title: Seq<char>) -> Seq<char> {
    let c = without_forbidden(title);
    if c.len() > 31 {
        c.take(31)
    } else if c.len() == 0 {
        default_sheet_name()
    } else {
        c
    }
}

/// `str::replace(from, to)`.
pub open spec fn replace_all(s: Seq<char>, from: Seq<char>, to: Seq<char>) -> Seq<char> {
    join(split_str(s, from), to)
}

/// The number of data rows actually written.
pub open spec fn clamped_rows(n: nat) -> nat {
    if n < 1 {
        1
    } else if n > 500 {
        500
    } else {
        n
    }
}

/// `"formula"`.
pub open spec fn formula_kind() -> Seq<char> {
    seq!['f', 'o', 'r', 'm', 'u', 'l', 'a']
}

/// Whether a column gets formulas: it is a formula column whose formula
/// refers to no column beyond the table.
pub open spec fn writes_formula(c: ColumnSpec, ncols: nat) -> bool {
    &&& c.kind@ == formula_kind()
    &&& c.formula is Some
    &&& forall|a: int, b: int|
        is_ref_run(c.formula->0@, a, b) ==> #[trigger] col_value(c.formula->0@.subrange(a, b))
            < ncols
}

/// The formula of a column for one sheet row (numbered as Excel shows it).
pub open spec fn resolved(c: ColumnSpec, excel_row: nat) -> Seq<char> {
    replace_all(c.formula->0@, row_marker(), decimal(excel_row))
}

/// The formula cells of the plan, row by row and left to right within a
/// row, for the first `rows` data rows.
pub open spec fn planned_formulas(cols: Seq<ColumnSpec>, rows: nat) -> Seq<(nat, nat, Seq<char>)>
    decreases rows,
{
    if rows == 0 {
        Seq::empty()
    } else {
        planned_formulas(cols, (rows - 1) as nat) + row_formulas(cols, rows, cols.len())
    }
}

/// The formula cells of data row `row` (sheet row index), among the first
/// `k` columns.
pub open spec fn row_formulas(cols: Seq<ColumnSpec>, row: nat, k: nat) -> Seq<(nat, nat, Seq<char>)>
    decreases k,
{
    if k == 0 {
        Seq::empty()
    } else {
        let prev = row_formulas(cols, row, (k - 1) as nat);
        let c = cols[k - 1];
        if writes_formula(c, cols.len()) {
            prev.push((row, (k - 1) as nat, resolved(c, row + 1)))
        } else {
            prev
        }
    }
}

/// The headers of the columns.
pub open spec fn headers_of(cols: Seq<ColumnSpec>) -> Seq<Seq<char>> {
    cols.map_values(|c: ColumnSpec| c.header@)
}

/// The formula cells as plain values.
pub open spec fn cell_views(v: Seq<FormulaCell>) -> Seq<(nat, nat, Seq<char>)> {
    v.map_values(|c: FormulaCell| (c.row as nat, c.col as nat, c.text@))
}

/// Every formula of a formula column has cell references that fit (the
/// formulas of other columns are never read).
pub open spec fn formulas_fit(cols: Seq<ColumnSpec>) -> bool {
    forall|i: int|
        0 <= i < cols.len() && (#[trigger] cols[i]).kind@ == formula_kind() && cols[i].formula is Some
            ==> refs_fit(cols[i].formula->0@)
}

/// `"---"`.
pub open spec fn rule_marker() -> Seq<char> {
    seq!['-', '-', '-']
}

/// Whether a line belongs to a Markdown table.
pub open spec fn is_table_line(l: Seq<char>) -> bool {
    let t = trim_start(l);
    t.len() > 0 && t[0] == '|'
}

/// The table lines among `ls`, in order.
pub open spec fn table_lines(ls: Seq<Seq<char>>) -> Seq<Seq<char>>
    decreases ls.len(),
{
    if ls.len() == 0 {
        ls
    } else {
        let r = table_lines(ls.drop_last());
        if is_table_line(ls.last()) {
            r.push(ls.last())
        } else {
            r
        }
    }
}

/// The trimmed cells of a table row.
pub open spec fn row_cells(line: Seq<char>) -> Seq<Seq<char>> {
    split_on(trim_char(trim(line), '|'), '|').map_values(|x: Seq<char>| trim(x))
}

/// The cells of row `r` of the table as `(row, column, text)`.
pub open spec fn cells_of_row(r: nat, cells: Seq<Seq<char>>) -> Seq<(nat, nat, Seq<char>)> {
    Seq::new(cells.len(), |c: int| (r, c as nat, cells[c]))
}

/// Cells for the first `k` lines: separator rows (holding `---`) are left
/// out, the others keep their line index as row.
pub open spec fn table_cells(tl: Seq<Seq<char>>, k: nat) -> Seq<(nat, nat, Seq<char>)>
    decreases k,
{
    if k == 0 {
        Seq::empty()
    } else {
        let prev = table_cells(tl, (k - 1) as nat);
        let line = tl[k - 1];
        if contains_seq(line, rule_marker()) {
            prev
        } else {
            prev + cells_of_row((k - 1) as nat, row_cells(line))
        }
    }
}

/// The cells an exported text becomes: a Markdown table (two table lines or
/// more) cell by cell, otherwise one line per row in the first column.
pub open spec fn content_cells(content: Seq<char>) -> Seq<(nat, nat, Seq<char>)> {
    let tl = table_lines(lines(content));
    if tl.len() >= 2 {
        table_cells(tl, tl.len())
    } else {
        Seq::new(lines(content).len(), |r: int| (r as nat, 0nat, lines(content)[r]))
    }
}

/// The text cells as plain values.
pub open spec fn text_cell_views(v: Seq<TextCell>) -> Seq<(nat, nat, Seq<char>)> {
    v.map_values(|c: TextCell| (c.row as nat, c.col as nat, c.text@))
}

// ---------------------------------------------------------------------
// Executable functions
// ---------------------------------------------------------------------

/// Number of data rows a generated sheet gets when its plan names none.
pub fn default_row_count() -> (n: usize)
    ensures
        n == spec_default_row_count(),
{
    15
}

/// Removes a Markdown code fence (```` ```json ```` or ```` ``` ````) around
/// a model's answer, and the white space around it.
pub fn strip_markdown_fences(s: &str) -> (r: String)
    ensures
        r@ == unfenced(s@),
{
    let v = to_chars(s);
    let (a0, b0) = trim_range(&v, 0, v.len());
    proof {
        assert(v@.subrange(0, v.len() as int) =~= v@);
    }
    let jf: Vec<char> = vec!['`', '`', '`', 'j', 's', 'o', 'n'];
    let f: Vec<char> = vec!['`', '`', '`'];
    let ghost a_seq = v@.subrange(a0 as int, b0 as int);
    proof {
        assert(jf@ =~= json_fence());
        assert(f@ =~= fence());
    }
    let mut a = a0;
    let w = string_of_range(&v, a0, b0);
    let wv = to_chars(w.as_str());
    if occurs_at_exec(&wv, &jf, 0) {
        a = a0 + 7;
        proof {
            assert(a_seq.skip(7) =~= v@.subrange(a as int, b0 as int));
        }
    } else if occurs_at_exec(&wv, &f, 0) {
        a = a0 + 3;
        proof {
            assert(a_seq.skip(3) =~= v@.subrange(a as int, b0 as int));
        }
    }
    let mut b = b0;
    let ghost b_seq = v@.subrange(a as int, b0 as int);
    let x = string_of_range(&v, a, b0);
    let xv = to_chars(x.as_str());
    if xv.len() >= 3 && occurs_at_exec(&xv, &f, xv.len() - 3) {
        b = b0 - 3;
        proof {
            assert(b_seq.take(b_seq.len() - 3) =~= v@.subrange(a as int, b as int));
        }
    }
    let (c, d) = trim_range(&v, a, b);
    string_of_range(&v, c, d)
}

/// Whether every cell reference of the formula has a column index small
/// enough to be computed (a formula must pass this before
/// `max_referenced_column_index` is called on it).
pub fn formula_refs_fit(formula: &str) -> (r: bool)
    ensures
        r == refs_fit(formula@),
{
    let v = to_chars(formula);
    let mut i: usize = 0;
    while i < v.len()
        invariant
            i <= v.len(),
            v@ == formula@,
            forall|a: int, b: int|
                is_ref_run(v@, a, b) && b <= i ==> #[trigger] col_value(v@.subrange(a, b))
                    <= i64::MAX && col_value(v@.subrange(a, b)) <= usize::MAX,
            i == 0 || i == v.len() || !is_upper(v@[i - 1]) || !is_upper(v@[i as int]),
        decreases v.len() - i,
    {
        if is_upper_exec(v[i]) {
            let start = i;
            let j = run_end(&v, i);
            if ref_follows_exec(&v, j) {
                match letters_value(&v, start, j) {
                    Some(x) => {
                        if x > 9223372036854775807 || x > usize::MAX as u128 {
                            proof {
                                lemma_run_at(v@, start as int, j as int);
                                assert(is_ref_run(v@, start as int, j as int));
                                assert(col_value(v@.subrange(start as int, j as int)) == x);
                            }
                            return false;
                        }
                    },
                    None => {
                        proof {
                            lemma_run_at(v@, start as int, j as int);
                            assert(is_ref_run(v@, start as int, j as int));
                            assert(col_value(v@.subrange(start as int, j as int)) > i64::MAX);
                        }
                        return false;
                    },
                }
            }
            proof {
                lemma_runs_before(v@, i as int, j as int);
            }
            i = j;
        } else {
            proof {
                lemma_runs_step(v@, i as int);
            }
            i = i + 1;
        }
    }
    proof {
        lemma_runs_end(v@);
    }
    true
}

/// Largest column index that a formula refers to (`A` is 0, `AA` is 26),
/// counting a run of capital letters as a reference only when `{row}` or a
/// digit follows it, so that function names such as `SUM` do not count.
pub fn max_referenced_column_index(formula: &str) -> (r: Option<usize>)
    requires
        refs_fit(formula@),
    ensures
        max_ref_is(formula@, r),
{
    let v = to_chars(formula);
    let mut max_idx: Option<usize> = None;
    let mut i: usize = 0;
    while i < v.len()
        invariant
            i <= v.len(),
            v@ == formula@,
            refs_fit(v@),
            i == 0 || i == v.len() || !is_upper(v@[i - 1]) || !is_upper(v@[i as int]),
            match max_idx {
                None => forall|a: int, b: int| is_ref_run(v@, a, b) ==> b > i,
                Some(m) => (exists|a: int, b: int|
                    is_ref_run(v@, a, b) && b <= i && #[trigger] col_value(v@.subrange(a, b))
                        == m) && forall|a: int, b: int|
                    is_ref_run(v@, a, b) && b <= i ==> #[trigger] col_value(v@.subrange(a, b))
                        <= m,
            },
        decreases v.len() - i,
    {
        if is_upper_exec(v[i]) {
            let start = i;
            let j = run_end(&v, i);
            proof {
                lemma_runs_before(v@, i as int, j as int);
            }
            if ref_follows_exec(&v, j) {
                proof {
                    lemma_run_at(v@, start as int, j as int);
                    assert(is_ref_run(v@, start as int, j as int));
                }
                let x = match letters_value(&v, start, j) {
                    Some(x) => x,
                    None => {
                        assert(false);
                        0
                    },
                };
                let idx = x as usize;
                let ghost cv = col_value(v@.subrange(start as int, j as int));
                max_idx = match max_idx {
                    None => Some(idx),
                    Some(m) => if idx > m {
                        Some(idx)
                    } else {
                        Some(m)
                    },
                };
            }
            i = j;
        } else {
            proof {
                lemma_runs_step(v@, i as int);
            }
            i = i + 1;
        }
    }
    proof {
        lemma_runs_end(v@);
    }
    max_idx
}

/// ASCII capital letter.
fn is_upper_exec(c: char) -> (r: bool)
    ensures
        r == is_upper(c),
{
    'A' <= c && c <= 'Z'
}

/// End of the run of capital letters starting at `i`.
fn run_end(v: &Vec<char>, i: usize) -> (j: usize)
    requires
        i < v.len(),
        is_upper(v@[i as int]),
    ensures
        i < j <= v.len(),
        forall|k: int| i <= k < j ==> is_upper(#[trigger] v@[k]),
        j == v.len() || !is_upper(v@[j as int]),
{
    let mut j = i + 1;
    while j < v.len() && is_upper_exec(v[j])
        invariant
            i < j <= v.len(),
            forall|k: int| i <= k < j ==> is_upper(#[trigger] v@[k]),
        decreases v.len() - j,
    {
        j = j + 1;
    }
    j
}

/// Whether `{row}` or a digit follows position `j`.
fn ref_follows_exec(v: &Vec<char>, j: usize) -> (r: bool)
    requires
        j <= v.len(),
    ensures
        r == ref_follows(v@, j as int),
{
    let marker: Vec<char> = vec!['{', 'r', 'o', 'w', '}'];
    proof {
        assert(marker@ =~= row_marker());
    }
    if occurs_at_exec(v, &marker, j) {
        return true;
    }
    j < v.len() && '0' <= v[j] && v[j] <= '9'
}

/// Column index of the letters `v[a..b]`, or `None` when it is too large to
/// be computed.
fn letters_value(v: &Vec<char>, a: usize, b: usize) -> (r: Option<u128>)
    requires
        a < b <= v.len(),
        forall|k: int| a <= k < b ==> is_upper(#[trigger] v@[k]),
    ensures
        match r {
            Some(x) => x as int == col_value(v@.subrange(a as int, b as int)),
            None => col_value(v@.subrange(a as int, b as int)) > i64::MAX,
        },
{
    // `w` is the index plus one, which stays non-negative.
    let mut w: u128 = 0;
    let mut k = a;
    proof {
        assert(v@.subrange(a as int, a as int) =~= Seq::<char>::empty());
    }
    while k < b
        invariant
            a <= k <= b <= v.len(),
            forall|t: int| a <= t < b ==> is_upper(#[trigger] v@[t]),
            w as int == col_value(v@.subrange(a as int, k as int)) + 1,
            w <= 0x8000_0000_0000_0000u128,
            k == a || w >= 1,
        decreases b - k,
    {
        let d = (v[k] as u32 - 65) as u128;
        proof {
            let s = v@.subrange(a as int, k + 1);
            assert(s.drop_last() =~= v@.subrange(a as int, k as int));
            assert(is_upper(v@[k as int]));
        }
        let next = w * 26 + d;
        proof {
            lemma_col_value_monotone(v@, a as int, k + 1, b as int);
        }
        if next > 0x7FFF_FFFF_FFFF_FFFFu128 {
            return None;
        }
        w = next + 1;
        k = k + 1;
    }
    if w == 0 {
        return None;
    }
    Some(w - 1)
}

/// Longer runs of letters have larger column indices.
proof fn lemma_col_value_monotone(v: Seq<char>, a: int, k: int, b: int)
    requires
        0 <= a <= k <= b <= v.len(),
        forall|t: int| a <= t < b ==> is_upper(#[trigger] v[t]),
    ensures
        col_value(v.subrange(a, k)) <= col_value(v.subrange(a, b)),
    decreases b - k,
{
    if k < b {
        lemma_col_value_monotone(v, a, k + 1, b);
        let s = v.subrange(a, k + 1);
        let x = v.subrange(a, k);
        assert(s.len() == k + 1 - a);
        assert(s.drop_last() =~= x);
        assert(s.last() == v[k]);
        assert(is_upper(v[k]));
        lemma_col_value_lower(v, a, k);
        assert(col_value(s) == (col_value(x) + 1) * 26 + ((v[k] as u32) - 65));
    }
}

/// Column indices of capital letters are at least -1.
proof fn lemma_col_value_lower(v: Seq<char>, a: int, k: int)
    requires
        0 <= a <= k <= v.len(),
        forall|t: int| a <= t < k ==> is_upper(#[trigger] v[t]),
    ensures
        col_value(v.subrange(a, k)) >= -1,
    decreases k - a,
{
    if k > a {
        lemma_col_value_lower(v, a, k - 1);
        let s = v.subrange(a, k);
        assert(s.drop_last() =~= v.subrange(a, k - 1));
        assert(s.last() == v[k - 1]);
        assert(is_upper(v[k - 1]));
    }
}

/// The run `v[a..b]` found by the scan, starting at a run boundary.
proof fn lemma_run_at(v: Seq<char>, a: int, b: int)
    requires
        0 <= a < b <= v.len(),
        forall|k: int| a <= k < b ==> is_upper(#[trigger] v[k]),
        b == v.len() || !is_upper(v[b]),
        a == 0 || !is_upper(v[a - 1]) || !is_upper(v[a]),
    ensures
        a == 0 || !is_upper(v[a - 1]),
{
}

/// Runs ending before the scanned run end are those before it or this one.
proof fn lemma_runs_before(v: Seq<char>, i: int, j: int)
    requires
        0 <= i < j <= v.len(),
        forall|k: int| i <= k < j ==> is_upper(#[trigger] v[k]),
        j == v.len() || !is_upper(v[j]),
        i == 0 || !is_upper(v[i - 1]) || !is_upper(v[i]),
    ensures
        forall|a: int, b: int|
            is_ref_run(v, a, b) && b <= j ==> b <= i || (a == i && b == j),
{
    assert forall|a: int, b: int| is_ref_run(v, a, b) && b <= j implies b <= i || (a == i && b
        == j) by {
        if b > i {
            if a < i {
                assert(is_upper(v[i - 1]));
                assert(is_upper(v[i]));
            }
            if a > i {
                assert(is_upper(v[a - 1]));
            }
            if b < j {
                assert(is_upper(v[b]));
            }
        }
    }
}

/// Skipping a character that is not a capital letter passes no run end.
proof fn lemma_runs_step(v: Seq<char>, i: int)
    requires
        0 <= i < v.len(),
        !is_upper(v[i]),
    ensures
        forall|a: int, b: int| is_ref_run(v, a, b) && b <= i + 1 ==> b <= i,
        !is_upper(v[i]),
{
    assert forall|a: int, b: int| is_ref_run(v, a, b) && b <= i + 1 implies b <= i by {
        if b == i + 1 {
            assert(is_upper(v[i]));
        }
    }
}

/// Every run ends within the text.
proof fn lemma_runs_end(v: Seq<char>)
    ensures
        forall|a: int, b: int| is_ref_run(v, a, b) ==> b <= v.len(),
{
}

/// A sheet name Excel accepts, made from the table title: the characters
/// `[]:*?/\` are dropped, the rest cut to 31 characters, and `Tablo` used
/// when nothing is left.
pub fn truncate_sheet_name(title: &str) -> (r: String)
    ensures
        r@ == sheet_name(title@),
{
    let v = to_chars(title);
    let mut kept: Vec<char> = Vec::new();
    let mut i: usize = 0;
    proof {
        assert(v@.take(0) =~= Seq::<char>::empty());
    }
    while i < v.len()
        invariant
            i <= v.len(),
            kept@ == without_forbidden(v@.take(i as int)),
        decreases v.len() - i,
    {
        let c = v[i];
        proof {
            assert(v@.take(i + 1).drop_last() =~= v@.take(i as int));
            assert(v@.take(i + 1).last() == c);
        }
        if !(c == '[' || c == ']' || c == ':' || c == '*' || c == '?' || c == '/' || c == '\\') {
            kept.push(c);
        }
        i = i + 1;
    }
    proof {
        assert(v@.take(v.len() as int) =~= v@);
    }
    if kept.len() > 31 {
        string_of_range(&kept, 0, 31)
    } else if kept.len() == 0 {
        let d: Vec<char> = vec!['T', 'a', 'b', 'l', 'o'];
        proof {
            assert(d@ =~= default_sheet_name());
        }
        string_of(&d)
    } else {
        string_of(&kept)
    }
}

/// `str::replace(from, to)` for a non-empty pattern.
pub fn replace_str(s: &Vec<char>, from: &Vec<char>, to: &Vec<char>) -> (r: String)
    requires
        from.len() > 0,
    ensures
        r@ == replace_all(s@, from@, to@),
{
    let parts = split_str_chars(s, from);
    proof {
        lemma_split_str_nonempty(s@, from@);
    }
    let mut out = String::new();
    let mut i: usize = 0;
    while i < parts.len()
        invariant
            i <= parts.len(),
            views(parts@) == split_str(s@, from@),
            out@ == join(views(parts@).take(i as int), to@),
        decreases parts.len() - i,
    {
        let ghost before = out@;
        if i > 0 {
            append_chars(&mut out, to);
        }
        append_chars(&mut out, &parts[i]);
        proof {
            let t = views(parts@).take(i + 1);
            assert(t.drop_last() =~= views(parts@).take(i as int));
            assert(t.last() == parts@[i as int]@);
            if i == 0 {
                assert(t =~= seq![parts@[0]@]);
                assert(views(parts@).take(0) =~= Seq::<Seq<char>>::empty());
            }
        }
        i = i + 1;
    }
    proof {
        assert(views(parts@).take(parts.len() as int) =~= views(parts@));
    }
    out
}

/// The cells of a generated table: the column headers in the first row and,
/// for each of the `row_count` data rows (kept between 1 and 500), the
/// formula of every formula column with `{row}` replaced by the row number
/// Excel shows; formulas that refer to a column beyond the table are left
/// out. A plan without columns is refused.
pub fn plan_sheet(columns: &Vec<ColumnSpec>, row_count: usize) -> (r: Result<SheetPlan, String>)
    requires
        formulas_fit(columns@),
    ensures
        match r {
            Ok(p) => columns@.len() > 0 && str_views(p.headers@) == headers_of(columns@) && cell_views(p.formulas@) == planned_formulas(
                columns@,
                clamped_rows(row_count as nat),
            ),
            Err(e) => columns@.len() == 0 && e@ == "Model hiç sütun üretmedi."@,
        },
{
    if columns.len() == 0 {
        return Err("Model hiç sütun üretmedi.".to_owned());
    }
    let mut headers: Vec<String> = Vec::new();
    let mut i: usize = 0;
    while i < columns.len()
        invariant
            i <= columns.len(),
            str_views(headers@) == headers_of(columns@.take(i as int)),
        decreases columns.len() - i,
    {
        let ghost before = headers@;
        let h = columns[i].header.clone();
        assert(h@ == columns@[i as int].header@);
        headers.push(h);
        proof {
            assert(headers@ == before.push(h));
            assert(columns@.take(i + 1) =~= columns@.take(i as int).push(columns@[i as int]));
            assert(str_views(headers@) =~= str_views(before).push(h@));
            assert(headers_of(columns@.take(i + 1)) =~= headers_of(columns@.take(i as int)).push(
                h@,
            ));
        }
        i = i + 1;
    }
    proof {
        assert(columns@.take(columns.len() as int) =~= columns@);
    }
    let rows: usize = if row_count < 1 {
        1
    } else if row_count > 500 {
        500
    } else {
        row_count
    };
    let marker: Vec<char> = vec!['{', 'r', 'o', 'w', '}'];
    proof {
        assert(marker@ =~= row_marker());
    }
    let mut formulas: Vec<FormulaCell> = Vec::new();
    let mut r: usize = 0;
    while r < rows
        invariant
            r <= rows <= 500,
            marker@ == row_marker(),
            formulas_fit(columns@),
            cell_views(formulas@) == planned_formulas(columns@, r as nat),
        decreases rows - r,
    {
        let row = (r + 1) as u32;
        let excel_row = row + 1;
        let mut rowdigits = String::new();
        push_decimal(&mut rowdigits, excel_row as u64);
        let rd = to_chars(rowdigits.as_str());
        let ghost before = cell_views(formulas@);
        let mut col: usize = 0;
        while col < columns.len()
            invariant
                col <= columns.len(),
                row == r + 1,
                excel_row == row + 1,
                rd@ == decimal(excel_row as nat),
                marker@ == row_marker(),
                formulas_fit(columns@),
                cell_views(formulas@) == before + row_formulas(columns@, row as nat, col as nat),
            decreases columns.len() - col,
        {
            let c = &columns[col];
            let ghost prev = cell_views(formulas@);
            let kind = to_chars(c.kind.as_str());
            let fk: Vec<char> = vec!['f', 'o', 'r', 'm', 'u', 'l', 'a'];
            proof {
                assert(fk@ =~= formula_kind());
            }
            let mut wrote = false;
            if crate::text::chars_eq(&kind, &fk) {
                match &c.formula {
                    Some(f) => {
                        proof {
                            assert(columns@[col as int].formula is Some);
                        }
                        let out_of_range = match max_referenced_column_index(f.as_str()) {
                            Some(idx) => idx >= columns.len(),
                            None => false,
                        };
                        if !out_of_range {
                            let fv = to_chars(f.as_str());
                            let text = replace_str(&fv, &marker, &rd);
                            formulas.push(FormulaCell { row, col, text });
                            wrote = true;
                        }
                    },
                    None => {},
                }
            }
            proof {
                let cs = columns@[col as int];
                if wrote {
                    assert(writes_formula(cs, columns@.len()));
                    assert(cell_views(formulas@) =~= prev.push(
                        (row as nat, col as nat, resolved(cs, (row + 1) as nat)),
                    ));
                } else {
                    if cs.kind@ == formula_kind() && cs.formula is Some {
                        let f = cs.formula->0@;
                        assert(!writes_formula(cs, columns@.len())) by {
                            let mi = choose|a: int, b: int|
                                is_ref_run(f, a, b) && #[trigger] col_value(f.subrange(a, b))
                                    >= columns@.len();
                        }
                    }
                    assert(cell_views(formulas@) =~= prev);
                }
            }
            col = col + 1;
        }
        r = r + 1;
    }
    Ok(SheetPlan { headers, formulas })
}

/// Bounds of `trim_matches(c)` applied to `v[lo..hi]`.
fn trim_char_range(v: &Vec<char>, lo: usize, hi: usize, c: char) -> (r: (usize, usize))
    requires
        lo <= hi <= v.len(),
    ensures
        lo <= r.0 <= r.1 <= hi,
        v@.subrange(r.0 as int, r.1 as int) == trim_char(v@.subrange(lo as int, hi as int), c),
{
    let mut a = lo;
    while a < hi && v[a] == c
        invariant
            lo <= a <= hi <= v.len(),
            trim_start_char(v@.subrange(lo as int, hi as int), c) == trim_start_char(
                v@.subrange(a as int, hi as int),
                c,
            ),
        decreases hi - a,
    {
        assert(v@.subrange(a as int, hi as int).drop_first() =~= v@.subrange(a + 1, hi as int));
        a = a + 1;
    }
    let mut b = hi;
    while b > a && v[b - 1] == c
        invariant
            lo <= a <= b <= hi <= v.len(),
            trim_end_char(v@.subrange(a as int, hi as int), c) == trim_end_char(
                v@.subrange(a as int, b as int),
                c,
            ),
        decreases b - a,
    {
        assert(v@.subrange(a as int, b as int).drop_last() =~= v@.subrange(a as int, b - 1));
        b = b - 1;
    }
    (a, b)
}

/// The trimmed cells of one table row, placed in row `row`.
fn push_row_cells(out: &mut Vec<TextCell>, line: &Vec<char>, row: usize)
    ensures
        text_cell_views(final(out)@) == text_cell_views(old(out)@) + cells_of_row(
            row as nat,
            row_cells(line@),
        ),
{
    let (a, b) = trim_range(line, 0, line.len());
    proof {
        assert(line@.subrange(0, line.len() as int) =~= line@);
    }
    let (c, d) = trim_char_range(line, a, b, '|');
    let inner = string_of_range(line, c, d);
    let iv = to_chars(inner.as_str());
    let parts = split_chars(&iv, '|');
    let ghost cells = row_cells(line@);
    proof {
        assert(views(parts@) == split_on(trim_char(trim(line@), '|'), '|'));
    }
    let ghost o0 = text_cell_views(out@);
    let mut k: usize = 0;
    while k < parts.len()
        invariant
            k <= parts.len(),
            views(parts@) == split_on(trim_char(trim(line@), '|'), '|'),
            cells == row_cells(line@),
            text_cell_views(out@) == o0 + cells_of_row(row as nat, cells).take(k as int),
        decreases parts.len() - k,
    {
        let ghost before = text_cell_views(out@);
        let t = crate::text::trim_chars(&parts[k]);
        proof {
            assert(cells[k as int] == trim(parts@[k as int]@));
        }
        out.push(TextCell { row, col: k, text: t });
        proof {
            assert(cells_of_row(row as nat, cells).take(k + 1) =~= cells_of_row(
                row as nat,
                cells,
            ).take(k as int).push((row as nat, k as nat, cells[k as int])));
            assert(text_cell_views(out@) =~= before.push((row as nat, k as nat, cells[k as int])));
        }
        k = k + 1;
    }
    proof {
        assert(cells_of_row(row as nat, cells).take(parts.len() as int) =~= cells_of_row(
            row as nat,
            cells,
        ));
    }
}

/// The cells an exported text becomes: when it holds a Markdown table (at
/// least two lines starting with `|`), the table's cells with separator rows
/// left out; otherwise each line in the first column of its own row.
pub fn content_to_cells(content: &str) -> (r: Vec<TextCell>)
    ensures
        text_cell_views(r@) == content_cells(content@),
{
    let ls = lines_str(content);
    let mut tl: Vec<Vec<char>> = Vec::new();
    let mut i: usize = 0;
    proof {
        assert(views(ls@).take(0) =~= Seq::<Seq<char>>::empty());
    }
    while i < ls.len()
        invariant
            i <= ls.len(),
            views(tl@) == table_lines(views(ls@).take(i as int)),
        decreases ls.len() - i,
    {
        let l = &ls[i];
        let k = trim_start_index(l, 0, l.len());
        proof {
            assert(l@.subrange(0, l.len() as int) =~= l@);
            let t = views(ls@).take(i + 1);
            assert(t.drop_last() =~= views(ls@).take(i as int));
            assert(t.last() == l@);
        }
        if k < l.len() && l[k] == '|' {
            let ghost before = views(tl@);
            tl.push(l.clone());
            proof {
                assert(views(tl@) =~= before.push(l@));
            }
        }
        i = i + 1;
    }
    proof {
        assert(views(ls@).take(ls.len() as int) =~= views(ls@));
    }
    let mut out: Vec<TextCell> = Vec::new();
    if tl.len() >= 2 {
        let rule: Vec<char> = vec!['-', '-', '-'];
        proof {
            assert(rule@ =~= rule_marker());
        }
        let mut r: usize = 0;
        while r < tl.len()
            invariant
                r <= tl.len(),
                rule@ == rule_marker(),
                text_cell_views(out@) == table_cells(views(tl@), r as nat),
            decreases tl.len() - r,
        {
            if !contains_chars(&tl[r], &rule) {
                push_row_cells(&mut out, &tl[r], r);
            }
            r = r + 1;
        }
        proof {
            assert(views(tl@) == table_lines(lines(content@)));
        }
    } else {
        let mut r: usize = 0;
        while r < ls.len()
            invariant
                r <= ls.len(),
                views(ls@) == lines(content@),
                text_cell_views(out@) == Seq::new(
                    r as nat,
                    |j: int| (j as nat, 0nat, lines(content@)[j]),
                ),
            decreases ls.len() - r,
        {
            let t = string_of(&ls[r]);
            let ghost before = text_cell_views(out@);
            proof {
                assert(views(ls@)[r as int] == ls@[r as int]@);
                assert(t@ == lines(content@)[r as int]);
            }
            out.push(TextCell { row: r, col: 0, text: t });
            proof {
                assert(text_cell_views(out@) =~= before.push((r as nat, 0nat, t@)));
            }
            r = r + 1;
            proof {
                assert(text_cell_views(out@) =~= Seq::new(
                    r as nat,
                    |j: int| (j as nat, 0nat, lines(content@)[j]),
                ));
            }
        }
    }
    out
}

/// Total-weight formula of a steel-profile row: `=G<n>*H<n>`.
pub fn steel_total_formula(excel_row: u32) -> (r: String)
    ensures
        r@ == seq!['=', 'G'] + decimal(excel_row as nat) + seq!['*', 'H'] + decimal(
            excel_row as nat,
        ),
{
    let mut s = String::new();
    push_char(&mut s, '=');
    push_char(&mut s, 'G');
    push_decimal(&mut s, excel_row as u64);
    push_char(&mut s, '*');
    push_char(&mut s, 'H');
    push_decimal(&mut s, excel_row as u64);
    s
}

/// Total-weight formula of a rebar row: `=D<n>*E<n>*C<n>` (count × length ×
/// unit weight).
pub fn rebar_total_formula(excel_row: u32) -> (r: String)
    ensures
        r@ == seq!['=', 'D'] + decimal(excel_row as nat) + seq!['*', 'E'] + decimal(
            excel_row as nat,
        ) + seq!['*', 'C'] + decimal(excel_row as nat),
{
    let mut s = String::new();
    push_char(&mut s, '=');
    push_char(&mut s, 'D');
    push_decimal(&mut s, excel_row as u64);
    push_char(&mut s, '*');
    push_char(&mut s, 'E');
    push_decimal(&mut s, excel_row as u64);
    push_char(&mut s, '*');
    push_char(&mut s, 'C');
    push_decimal(&mut s, excel_row as u64);
    s
}

// ---------------------------------------------------------------------
// Asking the model for a plan
// ---------------------------------------------------------------------

pub open spec fn excel_prompt_head() -> &'static str {
    "Bir mühendislik/ofis Excel tablosu tasarlayacaksın. Kullanıcının isteği: \""
}

pub open spec fn excel_prompt_tail() -> &'static str {
    "\"\n\nSADECE aşağıdaki JSON şemasına uyan, başka hiçbir açıklama/metin içermeyen bir JSON döndür (markdown kod bloğu ya da başka hiçbir şey ekleme, saf JSON):\n{\n\"title\": \"Tablo başlığı\",\n\"columns\": [\n{ \"header\": \"Sütun Adı\", \"kind\": \"input\" },\n{ \"header\": \"Hesaplanan Sütun\", \"kind\": \"formula\", \"formula\": \"=B{row}*C{row}\" }\n],\n\"row_count\": 15\n}\n\nKurallar:\n- \"kind\":\"input\" olan sütunlar kullanıcının elle dolduracağı boş hücrelerdir.\n- \"kind\":\"formula\" olan sütunlarda \"formula\" alanı ZORUNLU, Excel formülü sözdiziminde olmalı, hücre referansları harf+{row} şeklinde olmalı (örnek: \"=B{row}*C{row}*7.85\").\n- Formülde SADECE gerçekten var olan (senin \"columns\" listesinde tanımladığın) sütunlara atıfta bulun — olmayan bir sütuna (ör. sen 4 sütun tanımladıysan E ya da F'ye) ASLA atıf yapma, bu bozuk/hatalı bir Excel dosyası üretir.\n- Sütun harfleri soldan sağa A, B, C... şeklinde sırayla verilir, sen sadece doğru harfi kullan.\n- GERÇEKÇİ OL, EN AZ SAYIDA SÜTUNLA GEÇİŞTİRME: bu tablo gerçek bir işte kullanılacak. Örneğin bir MALİYET/FİYAT ANALİZİ tablosu istenirse en az şu sütunlar olmalı: İş Kalemi (input), Birim (input), Miktar (input), Birim Fiyat (input), Toplam Tutar (formula: Miktar×Birim Fiyat). \"En az 2 sütun yeter\" diye düşünme — eksik/yetersiz bir tablo kullanıcıya hiçbir fayda sağlamaz.\n- En az 4, en fazla 10 sütun olsun. row_count 10-30 arası makul bir sayı olsun.\n- Fiziksel/mühendislik formülü gerekiyorsa (ağırlık, hacim, alan vb.) doğru, standart formülü kullan."
}

fn excel_prompt_head_text() -> (s: &'static str)
    ensures
        s@ == excel_prompt_head()@,
{
    "Bir mühendislik/ofis Excel tablosu tasarlayacaksın. Kullanıcının isteği: \""
}

fn excel_prompt_tail_text() -> (s: &'static str)
    ensures
        s@ == excel_prompt_tail()@,
{
    "\"\n\nSADECE aşağıdaki JSON şemasına uyan, başka hiçbir açıklama/metin içermeyen bir JSON döndür (markdown kod bloğu ya da başka hiçbir şey ekleme, saf JSON):\n{\n\"title\": \"Tablo başlığı\",\n\"columns\": [\n{ \"header\": \"Sütun Adı\", \"kind\": \"input\" },\n{ \"header\": \"Hesaplanan Sütun\", \"kind\": \"formula\", \"formula\": \"=B{row}*C{row}\" }\n],\n\"row_count\": 15\n}\n\nKurallar:\n- \"kind\":\"input\" olan sütunlar kullanıcının elle dolduracağı boş hücrelerdir.\n- \"kind\":\"formula\" olan sütunlarda \"formula\" alanı ZORUNLU, Excel formülü sözdiziminde olmalı, hücre referansları harf+{row} şeklinde olmalı (örnek: \"=B{row}*C{row}*7.85\").\n- Formülde SADECE gerçekten var olan (senin \"columns\" listesinde tanımladığın) sütunlara atıfta bulun — olmayan bir sütuna (ör. sen 4 sütun tanımladıysan E ya da F'ye) ASLA atıf yapma, bu bozuk/hatalı bir Excel dosyası üretir.\n- Sütun harfleri soldan sağa A, B, C... şeklinde sırayla verilir, sen sadece doğru harfi kullan.\n- GERÇEKÇİ OL, EN AZ SAYIDA SÜTUNLA GEÇİŞTİRME: bu tablo gerçek bir işte kullanılacak. Örneğin bir MALİYET/FİYAT ANALİZİ tablosu istenirse en az şu sütunlar olmalı: İş Kalemi (input), Birim (input), Miktar (input), Birim Fiyat (input), Toplam Tutar (formula: Miktar×Birim Fiyat). \"En az 2 sütun yeter\" diye düşünme — eksik/yetersiz bir tablo kullanıcıya hiçbir fayda sağlamaz.\n- En az 4, en fazla 10 sütun olsun. row_count 10-30 arası makul bir sayı olsun.\n- Fiziksel/mühendislik formülü gerekiyorsa (ağırlık, hacim, alan vb.) doğru, standart formülü kullan."
}

/// The request that asks the model to plan the table the user described:
/// the JSON schema of a plan and the rules its columns and formulas follow.
pub fn excel_prompt(description: &str) -> (r: String)
    ensures
        r@ == excel_prompt_head()@ + description@ + excel_prompt_tail()@,
{
    let mut r = excel_prompt_head_text().to_owned();
    append_str(&mut r, description);
    append_str(&mut r, excel_prompt_tail_text());
    r
}

/// Whether the plan is asked through the general chat route (hybrid and
/// online modes) rather than from the local engine in strict JSON mode.
pub fn plan_via_chat_route(mode: &str) -> (r: bool)
    ensures
        r == (mode@ == "hibrit"@ || mode@ == "online"@),
{
    crate::text::str_eq(mode, "hibrit") || crate::text::str_eq(mode, "online")
}

/// The plan text in a reply body of the local engine: its
/// `message.content`; a body that is not JSON is refused with the parser's
/// message.
pub fn local_plan_reply(body: &str) -> (r: Result<String, String>)
    ensures
        !crate::json::spec_json_valid(body@) ==> r is Err && r->Err_0@ == crate::json::body_decode_message(),
        crate::json::spec_json_valid(body@) ==> match crate::json::spec_message_content(body@) {
            Some(c) => r is Ok && r->Ok_0@ == c,
            None => r is Err && r->Err_0@ == "Model boş yanıt döndürdü."@,
        },
{
    match crate::json::message_content(body) {
        Err(_) => Err(crate::json::body_decode_error()),
        Ok(None) => Err("Model boş yanıt döndürdü.".to_owned()),
        Ok(Some(c)) => Ok(c),
    }
}

/// The error when the cleaned reply is not a valid plan; `detail` is the
/// parser's message.
pub fn plan_parse_error(detail: &str) -> (r: String)
    ensures
        r@ == "Model geçerli bir tablo planı üretemedi ("@ + detail@
            + "). Farklı bir model deneyin ya da isteği daha net yazın."@,
{
    let mut r = "Model geçerli bir tablo planı üretemedi (".to_owned();
    append_str(&mut r, detail);
    append_str(&mut r, "). Farklı bir model deneyin ya da isteği daha net yazın.");
    r
}

/// The memory note of a generated table.
pub fn generated_table_note(description: &str, output_path: &str) -> (r: String)
    ensures
        r@ == "AI ile Excel tablosu üretti: \""@ + description@ + "\" -> "@ + output_path@,
{
    let mut r = "AI ile Excel tablosu üretti: \"".to_owned();
    append_str(&mut r, description);
    append_str(&mut r, "\" -> ");
    append_str(&mut r, output_path);
    r
}

// ---------------------------------------------------------------------
// Reference tables
// ---------------------------------------------------------------------

/// The column headers of the steel-profile table.
pub fn steel_headers() -> (r: Vec<String>)
    ensures
        str_views(r@) == seq![
            "Seri"@,
            "Profil Adı"@,
            "Yükseklik (mm)"@,
            "Genişlik (mm)"@,
            "Gövde Kalınlığı (mm)"@,
            "Flanş Kalınlığı (mm)"@,
            "Ağırlık (kg/m)"@,
        ],
{
    let r = vec![
        "Seri".to_owned(),
        "Profil Adı".to_owned(),
        "Yükseklik (mm)".to_owned(),
        "Genişlik (mm)".to_owned(),
        "Gövde Kalınlığı (mm)".to_owned(),
        "Flanş Kalınlığı (mm)".to_owned(),
        "Ağırlık (kg/m)".to_owned(),
    ];
    assert(str_views(r@) =~= seq![
        "Seri"@,
        "Profil Adı"@,
        "Yükseklik (mm)"@,
        "Genişlik (mm)"@,
        "Gövde Kalınlığı (mm)"@,
        "Flanş Kalınlığı (mm)"@,
        "Ağırlık (kg/m)"@,
    ]);
    r
}

/// The column headers of the rebar table.
pub fn rebar_headers() -> (r: Vec<String>)
    ensures
        str_views(r@) == seq![
            "Çap (mm)"@,
            "Kesit Alanı (mm²)"@,
            "Birim Ağırlık (kg/m)"@,
            "Adet"@,
            "Boy (m)"@,
            "Toplam Ağırlık (kg)"@,
        ],
{
    let r = vec![
        "Çap (mm)".to_owned(),
        "Kesit Alanı (mm²)".to_owned(),
        "Birim Ağırlık (kg/m)".to_owned(),
        "Adet".to_owned(),
        "Boy (m)".to_owned(),
        "Toplam Ağırlık (kg)".to_owned(),
    ];
    assert(str_views(r@) =~= seq![
        "Çap (mm)"@,
        "Kesit Alanı (mm²)"@,
        "Birim Ağırlık (kg/m)"@,
        "Adet"@,
        "Boy (m)"@,
        "Toplam Ağırlık (kg)"@,
    ]);
    r
}

/// The memory note of an exported reference table; `steel` tells the
/// steel-profile table from the rebar table.
pub fn reference_export_note(steel: bool, output_path: &str) -> (r: String)
    ensures
        r@ == (if steel {
            "Çelik profil referans tablosunu Excel'e aktardı: "@
        } else {
            "Donatı ağırlık hesap tablosunu Excel'e aktardı: "@
        }) + output_path@,
{
    let mut r = if steel {
        "Çelik profil referans tablosunu Excel'e aktardı: ".to_owned()
    } else {
        "Donatı ağırlık hesap tablosunu Excel'e aktardı: ".to_owned()
    };
    append_str(&mut r, output_path);
    r
}

} // verus!
