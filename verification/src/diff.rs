//! Side-by-side diff rows: unchanged lines stay
//! level on both sides, and removed or added lines pad the other side with a
//! blank row so that everything stays aligned row for row.

use vstd::prelude::*;

use similar::{DiffOp, TextDiff};

use crate::text::{lines_of, split_lines, views};

verus! {

/// How a single diff row is coloured.
#[derive(Clone, Copy, Debug, PartialEq, Eq, Structural)]
pub enum RowKind {
    Context,
    Removed,
    Added,
    Empty,
}

/// One aligned row of a side-by-side diff: the original file's line (if any)
/// paired with the optimized file's line (if any) at the same row. Line
/// numbers count from one.
#[derive(Clone, Debug)]
pub struct DiffRow {
    pub left_no: Option<usize>,
    pub left_text: String,
    pub left_kind: RowKind,
    pub right_no: Option<usize>,
    pub right_text: String,
    pub right_kind: RowKind,
}

/// A diff row as a reader sees it.
pub struct RowModel {
    pub left_no: Option<usize>,
    pub left_text: Seq<char>,
    pub left_kind: RowKind,
    pub right_no: Option<usize>,
    pub right_text: Seq<char>,
    pub right_kind: RowKind,
}

impl View for DiffRow {
    type V = RowModel;

    open spec fn view(&self) -> RowModel {
        RowModel {
            left_no: self.left_no,
            left_text: self.left_text@,
            left_kind: self.left_kind,
            right_no: self.right_no,
            right_text: self.right_text@,
            right_kind: self.right_kind,
        }
    }
}

/// One step of a line diff: a run of equal, deleted, inserted or replaced
/// lines, by their indexes in the old and the new lines.
#[derive(Clone, Copy, Debug, PartialEq, Eq, Structural)]
pub enum LineOp {
    Equal { old_index: usize, new_index: usize, len: usize },
    Delete { old_index: usize, old_len: usize, new_index: usize },
    Insert { old_index: usize, new_index: usize, new_len: usize },
    Replace { old_index: usize, old_len: usize, new_index: usize, new_len: usize },
}

/// The steps of the line diff of `original` and `optimized` that
/// `similar::TextDiff::from_lines` computes (Myers' algorithm, no deadline).
pub uninterp spec fn line_diff(original: Seq<char>, optimized: Seq<char>) -> Seq<LineOp>;

/// `similar::TextDiff::from_lines(original, optimized).ops()`, each step
/// copied into a `LineOp`. The steps are named, not described: the contract
/// says only that they are those of the line diff of the two texts.
#[verifier::external_body]
fn diff_lines(original: &str, optimized: &str) -> (ops: Vec<LineOp>)
    ensures
        ops@ == line_diff(original@, optimized@),
{
    TextDiff::from_lines(original, optimized).ops().iter().map(|op| match *op {
        DiffOp::Equal { old_index, new_index, len } => LineOp::Equal { old_index, new_index, len },
        DiffOp::Delete { old_index, old_len, new_index } => LineOp::Delete { old_index, old_len, new_index },
        DiffOp::Insert { old_index, new_index, new_len } => LineOp::Insert { old_index, new_index, new_len },
        DiffOp::Replace { old_index, old_len, new_index, new_len } => LineOp::Replace { old_index, old_len, new_index, new_len },
    }).collect()
}

/// Line `index` of `lines`, or nothing past the end.
pub open spec fn line_at(lines: Seq<Seq<char>>, index: int) -> Seq<char> {
    if 0 <= index < lines.len() {
        lines[index]
    } else {
        Seq::empty()
    }
}

/// Number of rows that `op` takes.
pub open spec fn row_count(op: LineOp) -> int {
    match op {
        LineOp::Equal { len, .. } => len as int,
        LineOp::Delete { old_len, .. } => old_len as int,
        LineOp::Insert { new_len, .. } => new_len as int,
        LineOp::Replace { old_len, new_len, .. } => if old_len >= new_len {
            old_len as int
        } else {
            new_len as int
        },
    }
}

/// The line numbers of `op` fit in a `usize`.
pub open spec fn numbers_fit(op: LineOp) -> bool {
    match op {
        LineOp::Equal { old_index, new_index, len } => old_index + len <= usize::MAX
            && new_index + len <= usize::MAX,
        LineOp::Delete { old_index, old_len, .. } => old_index + old_len <= usize::MAX,
        LineOp::Insert { new_index, new_len, .. } => new_index + new_len <= usize::MAX,
        LineOp::Replace { old_index, old_len, new_index, new_len } => old_index + old_len
            <= usize::MAX && new_index + new_len <= usize::MAX,
    }
}

/// The left half of a row: old line `index` shown as `kind`.
pub open spec fn old_side(old: Seq<Seq<char>>, index: int, kind: RowKind) -> (
    Option<usize>,
    Seq<char>,
    RowKind,
) {
    (Some((index + 1) as usize), line_at(old, index), kind)
}

/// A half of a row with nothing on it.
pub open spec fn blank_side() -> (Option<usize>, Seq<char>, RowKind) {
    (None, Seq::empty(), RowKind::Empty)
}

/// The row made of a left and a right half.
pub open spec fn row_of(
    left: (Option<usize>, Seq<char>, RowKind),
    right: (Option<usize>, Seq<char>, RowKind),
) -> RowModel {
    RowModel {
        left_no: left.0,
        left_text: left.1,
        left_kind: left.2,
        right_no: right.0,
        right_text: right.1,
        right_kind: right.2,
    }
}

/// Row `k` of the rows of `op`: an equal line stands on both sides with the
/// old text, a deleted line on the left, an inserted line on the right, and
/// a replacement pairs its old and new lines side by side, padding the
/// shorter side with blank rows.
pub open spec fn op_row(old: Seq<Seq<char>>, new: Seq<Seq<char>>, op: LineOp, k: int) -> RowModel {
    match op {
        LineOp::Equal { old_index, new_index, .. } => row_of(
            old_side(old, old_index + k, RowKind::Context),
            (Some((new_index + k + 1) as usize), line_at(old, old_index + k), RowKind::Context),
        ),
        LineOp::Delete { old_index, .. } => row_of(
            old_side(old, old_index + k, RowKind::Removed),
            blank_side(),
        ),
        LineOp::Insert { new_index, .. } => row_of(
            blank_side(),
            old_side(new, new_index + k, RowKind::Added),
        ),
        LineOp::Replace { old_index, old_len, new_index, new_len } => row_of(
            if k < old_len {
                old_side(old, old_index + k, RowKind::Removed)
            } else {
                blank_side()
            },
            if k < new_len {
                old_side(new, new_index + k, RowKind::Added)
            } else {
                blank_side()
            },
        ),
    }
}

/// The rows of `op`.
pub open spec fn op_rows(old: Seq<Seq<char>>, new: Seq<Seq<char>>, op: LineOp) -> Seq<RowModel> {
    Seq::new(row_count(op) as nat, |k: int| op_row(old, new, op, k))
}

/// The rows of all of `ops`, in order.
pub open spec fn rows_of(old: Seq<Seq<char>>, new: Seq<Seq<char>>, ops: Seq<LineOp>) -> Seq<
    RowModel,
>
    decreases ops.len(),
{
    if ops.len() == 0 {
        Seq::empty()
    } else {
        rows_of(old, new, ops.drop_last()) + op_rows(old, new, ops.last())
    }
}

/// The row models of `rows`.
pub open spec fn row_views(rows: Seq<DiffRow>) -> Seq<RowModel> {
    rows.map_values(|r: DiffRow| r@)
}

fn line_or_empty(lines: &Vec<String>, index: usize) -> (line: String)
    ensures
        line@ == line_at(views(lines@), index as int),
{
    if index < lines.len() {
        lines[index].clone()
    } else {
        String::new()
    }
}

fn old_half(lines: &Vec<String>, index: usize, kind: RowKind) -> (half: (
    Option<usize>,
    String,
    RowKind,
))
    requires
        index < usize::MAX,
    ensures
        (half.0, half.1@, half.2) == old_side(views(lines@), index as int, kind),
{
    (Some(index + 1), line_or_empty(lines, index), kind)
}

fn blank_half() -> (half: (Option<usize>, String, RowKind))
    ensures
        (half.0, half.1@, half.2) == blank_side(),
{
    (None, String::new(), RowKind::Empty)
}

fn make_row(left: (Option<usize>, String, RowKind), right: (Option<usize>, String, RowKind)) -> (row:
    DiffRow)
    ensures
        row@ == row_of((left.0, left.1@, left.2), (right.0, right.1@, right.2)),
{
    DiffRow {
        left_no: left.0,
        left_text: left.1,
        left_kind: left.2,
        right_no: right.0,
        right_text: right.1,
        right_kind: right.2,
    }
}

fn row_count_of(op: LineOp) -> (n: usize)
    ensures
        n == row_count(op),
{
    match op {
        LineOp::Equal { len, .. } => len,
        LineOp::Delete { old_len, .. } => old_len,
        LineOp::Insert { new_len, .. } => new_len,
        LineOp::Replace { old_len, new_len, .. } => if old_len >= new_len {
            old_len
        } else {
            new_len
        },
    }
}

fn row_for(old: &Vec<String>, new: &Vec<String>, op: LineOp, k: usize) -> (row: DiffRow)
    requires
        numbers_fit(op),
        k < row_count(op),
    ensures
        row@ == op_row(views(old@), views(new@), op, k as int),
{
    match op {
        LineOp::Equal { old_index, new_index, .. } => {
            let left = old_half(old, old_index + k, RowKind::Context);
            let right = (Some(new_index + k + 1), line_or_empty(old, old_index + k), RowKind::Context);
            make_row(left, right)
        },
        LineOp::Delete { old_index, .. } => {
            make_row(old_half(old, old_index + k, RowKind::Removed), blank_half())
        },
        LineOp::Insert { new_index, .. } => {
            make_row(blank_half(), old_half(new, new_index + k, RowKind::Added))
        },
        LineOp::Replace { old_index, old_len, new_index, new_len } => {
            let left = if k < old_len {
                old_half(old, old_index + k, RowKind::Removed)
            } else {
                blank_half()
            };
            let right = if k < new_len {
                old_half(new, new_index + k, RowKind::Added)
            } else {
                blank_half()
            };
            make_row(left, right)
        },
    }
}

/// The aligned rows for the diff steps `ops` of the lines `old` and `new`.
/// A line index past the end of its lines shows as an empty line.
pub fn diff_rows_from_ops(old: &Vec<String>, new: &Vec<String>, ops: &Vec<LineOp>) -> (rows: Vec<
    DiffRow,
>)
    requires
        forall|i: int| 0 <= i < ops.len() ==> numbers_fit(#[trigger] ops@[i]),
    ensures
        row_views(rows@) == rows_of(views(old@), views(new@), ops@),
{
    let ghost old_lines = views(old@);
    let ghost new_lines = views(new@);
    let mut rows: Vec<DiffRow> = Vec::new();
    let mut i: usize = 0;
    while i < ops.len()
        invariant
            i <= ops.len(),
            old_lines == views(old@),
            new_lines == views(new@),
            forall|j: int| 0 <= j < ops.len() ==> numbers_fit(#[trigger] ops@[j]),
            row_views(rows@) == rows_of(old_lines, new_lines, ops@.take(i as int)),
        decreases ops.len() - i,
    {
        let op = ops[i];
        let ghost before = row_views(rows@);
        let count = row_count_of(op);
        let mut k: usize = 0;
        while k < count
            invariant
                k <= count,
                count == row_count(op),
                numbers_fit(op),
                old_lines == views(old@),
                new_lines == views(new@),
                row_views(rows@) == before + op_rows(old_lines, new_lines, op).take(k as int),
            decreases count - k,
        {
            let row = row_for(old, new, op, k);
            let ghost previous = rows@;
            rows.push(row);
            proof {
                assert(op_rows(old_lines, new_lines, op)[k as int] == op_row(
                    old_lines,
                    new_lines,
                    op,
                    k as int,
                ));
                assert(row_views(rows@) =~= row_views(previous).push(row@));
                assert(op_rows(old_lines, new_lines, op).take(k + 1) =~= op_rows(
                    old_lines,
                    new_lines,
                    op,
                ).take(k as int).push(op_row(old_lines, new_lines, op, k as int)));
                assert(row_views(rows@) =~= before + op_rows(old_lines, new_lines, op).take(
                    k + 1,
                ));
            }
            k = k + 1;
        }
        proof {
            assert(op_rows(old_lines, new_lines, op).take(count as int) =~= op_rows(
                old_lines,
                new_lines,
                op,
            ));
            assert(ops@.take(i + 1).drop_last() =~= ops@.take(i as int));
        }
        i = i + 1;
    }
    proof {
        assert(ops@.take(ops.len() as int) =~= ops@);
    }
    rows
}

/// The aligned rows of the diff of the lines of `original` and `optimized`,
/// or `None` when a line number of the diff would not fit in a `usize`.
pub fn build_diff_rows(original: &str, optimized: &str) -> (rows: Option<Vec<DiffRow>>)
    ensures
        rows is Some <==> forall|i: int|
            0 <= i < line_diff(original@, optimized@).len() ==> numbers_fit(
                #[trigger] line_diff(original@, optimized@)[i],
            ),
        rows matches Some(rows) ==> row_views(rows@) == rows_of(
            lines_of(original@),
            lines_of(optimized@),
            line_diff(original@, optimized@),
        ),
{
    let old = split_lines(original);
    let new = split_lines(optimized);
    let ops = diff_lines(original, optimized);
    let mut i: usize = 0;
    while i < ops.len()
        invariant
            i <= ops.len(),
            ops@ == line_diff(original@, optimized@),
            forall|j: int| 0 <= j < i ==> numbers_fit(#[trigger] ops@[j]),
        decreases ops.len() - i,
    {
        let fits = match ops[i] {
            LineOp::Equal { old_index, new_index, len } => old_index <= usize::MAX - len
                && new_index <= usize::MAX - len,
            LineOp::Delete { old_index, old_len, .. } => old_index <= usize::MAX - old_len,
            LineOp::Insert { new_index, new_len, .. } => new_index <= usize::MAX - new_len,
            LineOp::Replace { old_index, old_len, new_index, new_len } => old_index <= usize::MAX
                - old_len && new_index <= usize::MAX - new_len,
        };
        if !fits {
            proof {
                assert(!numbers_fit(line_diff(original@, optimized@)[i as int]));
            }
            return None;
        }
        i = i + 1;
    }
    Some(diff_rows_from_ops(&old, &new, &ops))
}

/// Number of old lines that `op` covers.
pub open spec fn old_count(op: LineOp) -> int {
    match op {
        LineOp::Equal { len, .. } => len as int,
        LineOp::Delete { old_len, .. } => old_len as int,
        LineOp::Insert { .. } => 0,
        LineOp::Replace { old_len, .. } => old_len as int,
    }
}

/// Number of new lines that `op` covers.
pub open spec fn new_count(op: LineOp) -> int {
    match op {
        LineOp::Equal { len, .. } => len as int,
        LineOp::Delete { .. } => 0,
        LineOp::Insert { new_len, .. } => new_len as int,
        LineOp::Replace { new_len, .. } => new_len as int,
    }
}

/// The first old line of `op`.
pub open spec fn old_start(op: LineOp) -> int {
    match op {
        LineOp::Equal { old_index, .. } => old_index as int,
        LineOp::Delete { old_index, .. } => old_index as int,
        LineOp::Insert { old_index, .. } => old_index as int,
        LineOp::Replace { old_index, .. } => old_index as int,
    }
}

/// The first new line of `op`.
pub open spec fn new_start(op: LineOp) -> int {
    match op {
        LineOp::Equal { new_index, .. } => new_index as int,
        LineOp::Delete { new_index, .. } => new_index as int,
        LineOp::Insert { new_index, .. } => new_index as int,
        LineOp::Replace { new_index, .. } => new_index as int,
    }
}

/// Where the steps `ops` end in the old lines.
pub open spec fn old_end(ops: Seq<LineOp>) -> int
    decreases ops.len(),
{
    if ops.len() == 0 {
        0
    } else {
        old_end(ops.drop_last()) + old_count(ops.last())
    }
}

/// Where the steps `ops` end in the new lines.
pub open spec fn new_end(ops: Seq<LineOp>) -> int
    decreases ops.len(),
{
    if ops.len() == 0 {
        0
    } else {
        new_end(ops.drop_last()) + new_count(ops.last())
    }
}

/// Line `k` of a step shows the same text in the old and the new lines.
pub open spec fn kept_equal(old: Seq<Seq<char>>, new: Seq<Seq<char>>, op: LineOp, k: int) -> bool {
    line_at(old, old_start(op) + k) == line_at(new, new_start(op) + k)
}

/// Each step of `ops` starts, on both sides, where the steps before it end,
/// and the lines a step keeps equal are equal.
pub open spec fn steps_follow(ops: Seq<LineOp>, old: Seq<Seq<char>>, new: Seq<Seq<char>>) -> bool
    decreases ops.len(),
{
    if ops.len() == 0 {
        true
    } else {
        let op = ops.last();
        &&& steps_follow(ops.drop_last(), old, new)
        &&& old_start(op) == old_end(ops.drop_last())
        &&& new_start(op) == new_end(ops.drop_last())
        &&& (op is Equal ==> forall|k: int| 0 <= k < old_count(op) ==> #[trigger] kept_equal(old, new, op, k))
    }
}

/// `ops` is an edit script that turns the lines `old` into the lines `new`.
pub open spec fn is_edit_script(ops: Seq<LineOp>, old: Seq<Seq<char>>, new: Seq<Seq<char>>) -> bool {
    &&& steps_follow(ops, old, new)
    &&& old_end(ops) == old.len()
    &&& new_end(ops) == new.len()
}

/// The numbered lines that the left side of `rows` shows, top to bottom.
pub open spec fn left_lines(rows: Seq<RowModel>) -> Seq<(int, Seq<char>)>
    decreases rows.len(),
{
    if rows.len() == 0 {
        Seq::empty()
    } else {
        left_lines(rows.drop_last()) + match rows.last().left_no {
            Some(n) => seq![(n as int, rows.last().left_text)],
            None => Seq::empty(),
        }
    }
}

/// The numbered lines that the right side of `rows` shows, top to bottom.
pub open spec fn right_lines(rows: Seq<RowModel>) -> Seq<(int, Seq<char>)>
    decreases rows.len(),
{
    if rows.len() == 0 {
        Seq::empty()
    } else {
        right_lines(rows.drop_last()) + match rows.last().right_no {
            Some(n) => seq![(n as int, rows.last().right_text)],
            None => Seq::empty(),
        }
    }
}

/// `lines` numbered from one, from line `base` on, `count` of them.
pub open spec fn numbered(lines: Seq<Seq<char>>, base: int, count: int) -> Seq<(int, Seq<char>)> {
    Seq::new(count as nat, |k: int| (base + k + 1, line_at(lines, base + k)))
}

proof fn lemma_left_lines_concat(a: Seq<RowModel>, b: Seq<RowModel>)
    ensures
        left_lines(a + b) == left_lines(a) + left_lines(b),
    decreases b.len(),
{
    if b.len() == 0 {
        assert(a + b =~= a);
        assert(left_lines(a) + left_lines(b) =~= left_lines(a));
    } else {
        lemma_left_lines_concat(a, b.drop_last());
        assert((a + b).drop_last() =~= a + b.drop_last());
        assert((a + b).last() == b.last());
        assert(left_lines(a + b) =~= left_lines(a) + left_lines(b));
    }
}

proof fn lemma_right_lines_concat(a: Seq<RowModel>, b: Seq<RowModel>)
    ensures
        right_lines(a + b) == right_lines(a) + right_lines(b),
    decreases b.len(),
{
    if b.len() == 0 {
        assert(a + b =~= a);
        assert(right_lines(a) + right_lines(b) =~= right_lines(a));
    } else {
        lemma_right_lines_concat(a, b.drop_last());
        assert((a + b).drop_last() =~= a + b.drop_last());
        assert((a + b).last() == b.last());
        assert(right_lines(a + b) =~= right_lines(a) + right_lines(b));
    }
}

proof fn lemma_left_run(rows: Seq<RowModel>, m: int, base: int, lines: Seq<Seq<char>>)
    requires
        0 <= m <= rows.len(),
        0 <= base,
        base + m <= usize::MAX,
        forall|k: int|
            0 <= k < rows.len() ==> if k < m {
                &&& (#[trigger] rows[k]).left_no == Some((base + k + 1) as usize)
                &&& rows[k].left_text == line_at(lines, base + k)
            } else {
                rows[k].left_no is None
            },
    ensures
        left_lines(rows) == numbered(lines, base, m),
    decreases rows.len(),
{
    if rows.len() == 0 {
        assert(numbered(lines, base, m) =~= Seq::<(int, Seq<char>)>::empty());
    } else {
        let d = rows.drop_last();
        let m2 = if rows.len() == m {
            m - 1
        } else {
            m
        };
        assert forall|k: int| 0 <= k < d.len() implies if k < m2 {
            &&& (#[trigger] d[k]).left_no == Some((base + k + 1) as usize)
            &&& d[k].left_text == line_at(lines, base + k)
        } else {
            d[k].left_no is None
        } by {
            assert(d[k] == rows[k]);
        }
        lemma_left_run(d, m2, base, lines);
        let last = rows.len() - 1;
        assert(rows.last() == rows[last]);
        assert(left_lines(rows) =~= numbered(lines, base, m));
    }
}

proof fn lemma_right_run(rows: Seq<RowModel>, m: int, base: int, lines: Seq<Seq<char>>)
    requires
        0 <= m <= rows.len(),
        0 <= base,
        base + m <= usize::MAX,
        forall|k: int|
            0 <= k < rows.len() ==> if k < m {
                &&& (#[trigger] rows[k]).right_no == Some((base + k + 1) as usize)
                &&& rows[k].right_text == line_at(lines, base + k)
            } else {
                rows[k].right_no is None
            },
    ensures
        right_lines(rows) == numbered(lines, base, m),
    decreases rows.len(),
{
    if rows.len() == 0 {
        assert(numbered(lines, base, m) =~= Seq::<(int, Seq<char>)>::empty());
    } else {
        let d = rows.drop_last();
        let m2 = if rows.len() == m {
            m - 1
        } else {
            m
        };
        assert forall|k: int| 0 <= k < d.len() implies if k < m2 {
            &&& (#[trigger] d[k]).right_no == Some((base + k + 1) as usize)
            &&& d[k].right_text == line_at(lines, base + k)
        } else {
            d[k].right_no is None
        } by {
            assert(d[k] == rows[k]);
        }
        lemma_right_run(d, m2, base, lines);
        let last = rows.len() - 1;
        assert(rows.last() == rows[last]);
        assert(right_lines(rows) =~= numbered(lines, base, m));
    }
}

proof fn lemma_op_sides(old: Seq<Seq<char>>, new: Seq<Seq<char>>, op: LineOp)
    requires
        numbers_fit(op),
        op is Equal ==> forall|k: int| 0 <= k < old_count(op) ==> #[trigger] kept_equal(old, new, op, k),
    ensures
        left_lines(op_rows(old, new, op)) == numbered(old, old_start(op), old_count(op)),
        right_lines(op_rows(old, new, op)) == numbered(new, new_start(op), new_count(op)),
{
    let rows = op_rows(old, new, op);
    assert forall|k: int| 0 <= k < rows.len() implies if k < old_count(op) {
        &&& (#[trigger] rows[k]).left_no == Some((old_start(op) + k + 1) as usize)
        &&& rows[k].left_text == line_at(old, old_start(op) + k)
    } else {
        rows[k].left_no is None
    } by {
        assert(rows[k] == op_row(old, new, op, k));
    }
    lemma_left_run(rows, old_count(op), old_start(op), old);
    assert forall|k: int| 0 <= k < rows.len() implies if k < new_count(op) {
        &&& (#[trigger] rows[k]).right_no == Some((new_start(op) + k + 1) as usize)
        &&& rows[k].right_text == line_at(new, new_start(op) + k)
    } else {
        rows[k].right_no is None
    } by {
        assert(rows[k] == op_row(old, new, op, k));
        if op is Equal && k < old_count(op) {
            assert(kept_equal(old, new, op, k));
        }
    }
    lemma_right_run(rows, new_count(op), new_start(op), new);
}

proof fn lemma_rows_number_lines(old: Seq<Seq<char>>, new: Seq<Seq<char>>, ops: Seq<LineOp>)
    requires
        steps_follow(ops, old, new),
        forall|i: int| 0 <= i < ops.len() ==> numbers_fit(#[trigger] ops[i]),
    ensures
        left_lines(rows_of(old, new, ops)) == numbered(old, 0, old_end(ops)),
        right_lines(rows_of(old, new, ops)) == numbered(new, 0, new_end(ops)),
    decreases ops.len(),
{
    if ops.len() == 0 {
        assert(numbered(old, 0, 0) =~= Seq::<(int, Seq<char>)>::empty());
        assert(numbered(new, 0, 0) =~= Seq::<(int, Seq<char>)>::empty());
    } else {
        let d = ops.drop_last();
        let op = ops.last();
        assert forall|i: int| 0 <= i < d.len() implies numbers_fit(#[trigger] d[i]) by {
            assert(d[i] == ops[i]);
        }
        assert(numbers_fit(ops[ops.len() - 1]));
        lemma_rows_number_lines(old, new, d);
        lemma_op_sides(old, new, op);
        lemma_left_lines_concat(rows_of(old, new, d), op_rows(old, new, op));
        lemma_right_lines_concat(rows_of(old, new, d), op_rows(old, new, op));
        assert(numbered(old, 0, old_end(d)) + numbered(old, old_end(d), old_count(op))
            =~= numbered(old, 0, old_end(ops)));
        assert(numbered(new, 0, new_end(d)) + numbered(new, new_start(op), new_count(op))
            =~= numbered(new, 0, new_end(ops)));
    }
}

/// When the steps are an edit script from the old lines to the new ones,
/// the left side of the rows shows every old line once, numbered from one,
/// in order, and the right side likewise every new line.
pub proof fn law_sides_show_each_text_in_order(
    old: Seq<Seq<char>>,
    new: Seq<Seq<char>>,
    ops: Seq<LineOp>,
)
    requires
        is_edit_script(ops, old, new),
        forall|i: int| 0 <= i < ops.len() ==> numbers_fit(#[trigger] ops[i]),
    ensures
        left_lines(rows_of(old, new, ops)) == Seq::new(old.len(), |i: int| (i + 1, old[i])),
        right_lines(rows_of(old, new, ops)) == Seq::new(new.len(), |i: int| (i + 1, new[i])),
{
    lemma_rows_number_lines(old, new, ops);
    assert(numbered(old, 0, old.len() as int) =~= Seq::new(old.len(), |i: int| (i + 1, old[i])));
    assert(numbered(new, 0, new.len() as int) =~= Seq::new(new.len(), |i: int| (i + 1, new[i])));
}

} // verus!
