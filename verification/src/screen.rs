//! The screen of a console: rows of cells, a cursor, and the rows that an
//! update has touched.
use vstd::prelude::*;

verus! {

/// One column of a row.
pub enum ScreenCell {
    Empty,
    /// A character with its combining marks.
    Cluster(String),
    /// A further column of the cluster to the left.
    Continuation,
}

/// What a cell shows.
pub enum CellView {
    Empty,
    Cluster(Seq<char>),
    Continuation,
}

impl View for ScreenCell {
    type V = CellView;

    open spec fn view(&self) -> CellView {
        match self {
            ScreenCell::Empty => CellView::Empty,
            ScreenCell::Cluster(text) => CellView::Cluster(text@),
            ScreenCell::Continuation => CellView::Continuation,
        }
    }
}

/// What a row shows.
pub open spec fn line_view(line: Seq<ScreenCell>) -> Seq<CellView> {
    line.map_values(|cell: ScreenCell| cell@)
}

/// What a list of rows shows.
pub open spec fn rows_view(rows: Seq<Vec<ScreenCell>>) -> Seq<Seq<CellView>> {
    rows.map_values(|row: Vec<ScreenCell>| line_view(row@))
}

/// What `UnicodeWidthChar::width` says of a character that is not printable
/// ASCII: the columns that it takes, or nothing for a control character.
pub uninterp spec fn listed_width(c: char) -> Option<usize>;

/// The columns that a character takes, or nothing for a control character.
pub open spec fn char_width(c: char) -> Option<usize> {
    if ' ' <= c && c <= '~' {
        Some(1usize)
    } else {
        listed_width(c)
    }
}

/// Text of printable ASCII characters alone.
pub open spec fn printable(text: Seq<char>) -> bool {
    forall|i: int| 0 <= i < text.len() ==> ' ' <= #[trigger] text[i] && text[i] <= '~'
}

/// What `UnicodeWidthStr::width` says of a text that is not printable ASCII: the
/// columns that it takes.
pub uninterp spec fn listed_str_width(text: Seq<char>) -> usize;

/// The columns that a text takes.
pub open spec fn str_width(text: Seq<char>) -> int {
    if printable(text) {
        text.len() as int
    } else {
        listed_str_width(text) as int
    }
}

/// `unicode_width::UnicodeWidthChar::width`, which gives the columns of a
/// character or, for a control character, nothing. The printable ASCII
/// characters take one column; the answer for any other is named
/// `listed_width`.
#[verifier::external_body]
fn width_of_char(c: char) -> (r: Option<usize>)
    ensures
        ' ' <= c && c <= '~' ==> r == Some(1usize),
        !(' ' <= c && c <= '~') ==> r == listed_width(c),
{
    unicode_width::UnicodeWidthChar::width(c)
}

/// `unicode_width::UnicodeWidthStr::width`, which gives the columns of a text.
/// Printable ASCII takes one column for each character; the answer for any other
/// text is named `listed_str_width`.
#[verifier::external_body]
fn width_of_str(text: &str) -> (r: usize)
    ensures
        printable(text@) ==> r == text@.len(),
        !printable(text@) ==> r == listed_str_width(text@),
{
    unicode_width::UnicodeWidthStr::width(text)
}

/// The columns that a character takes on the screen; a control character takes
/// one.
pub open spec fn columns(c: char) -> int {
    match char_width(c) {
        Some(width) => width as int,
        None => 1,
    }
}

/// The columns that a cluster takes: at least one.
pub open spec fn cluster_columns(text: Seq<char>) -> int {
    if str_width(text) >= 1 {
        str_width(text)
    } else {
        1
    }
}

/// The columns from a cell to the next one.
pub open spec fn span(cell: CellView) -> int {
    match cell {
        CellView::Cluster(text) => cluster_columns(text),
        _ => 1,
    }
}

pub open spec fn at_most(x: int, limit: int) -> int {
    if x <= limit {
        x
    } else {
        limit
    }
}

/// `x`, or the largest column where `x` is beyond it.
pub open spec fn saturated(x: int) -> int {
    at_most(x, usize::MAX as int)
}

/// The column at which the cluster begins that column `col` belongs to: the
/// last column up to `col` without a continuation, or the first of the row.
pub open spec fn cluster_start(line: Seq<CellView>, col: int) -> int
    decreases col,
{
    if col > 0 && line[col] is Continuation {
        cluster_start(line, col - 1)
    } else {
        col
    }
}

/// The end of the columns of the cluster that column `col` belongs to.
pub open spec fn cluster_end(line: Seq<CellView>, col: int) -> int {
    let start = cluster_start(line, col);
    at_most(start + span(line[start]), line.len() as int)
}

/// The cluster that a combining mark at column `col` belongs to.
pub open spec fn cluster_before(line: Seq<CellView>, col: int) -> Option<int> {
    if line.len() == 0 || col <= 0 {
        None
    } else {
        let start = cluster_start(line, at_most(col - 1, line.len() - 1));
        if line[start] is Cluster {
            Some(start)
        } else {
            None
        }
    }
}

/// The column to the left of `col`.
pub open spec fn column_left(line: Seq<CellView>, col: int) -> int {
    if col <= 0 {
        0
    } else if col - 1 >= line.len() {
        col - 1
    } else {
        cluster_start(line, col - 1)
    }
}

/// The column to the right of `col`.
pub open spec fn column_right(line: Seq<CellView>, col: int) -> int {
    if col >= line.len() {
        saturated(col + 1)
    } else {
        saturated(col + span(line[col]))
    }
}

/// The start of the cluster at `col`, or `col` beyond the end of the row.
pub open spec fn column_at(line: Seq<CellView>, col: int) -> int {
    if col >= line.len() {
        col
    } else {
        cluster_start(line, col)
    }
}

/// `line` with empty cells in the columns `from..to`.
pub open spec fn blanked(line: Seq<CellView>, from: int, to: int) -> Seq<CellView> {
    Seq::new(
        line.len(),
        |i: int|
            if from <= i < to {
                CellView::Empty
            } else {
                line[i]
            },
    )
}

/// `line` without the cluster at `col`.
pub open spec fn without_cluster(line: Seq<CellView>, col: int) -> Seq<CellView> {
    if 0 <= col < line.len() {
        blanked(line, cluster_start(line, col), cluster_end(line, col))
    } else {
        line
    }
}

/// `line` without the clusters at the columns `from..to`.
pub open spec fn without_clusters(line: Seq<CellView>, from: int, to: int) -> Seq<CellView>
    decreases to - from,
{
    if from >= to {
        line
    } else {
        without_clusters(without_cluster(line, from), from + 1, to)
    }
}

/// Whether the clusters of `line` lead from column `from` to `to`: each ends
/// behind the column at which it is met. They do not where a mark has narrowed a
/// cluster, so that it has more cells than columns, nor where a mark has widened
/// one over the head of a wide cluster, so that the sweep goes on in the middle of
/// what is left of that.
pub open spec fn passable(line: Seq<CellView>, from: int, to: int) -> bool
    decreases
            if to > from {
                to - from
            } else {
                0
            },
{
    from >= to || {
        let end = cluster_end(line, from);
        end > from && passable(without_cluster(line, from), end, to)
    }
}

/// `line` without the clusters that lead from column `from` to `to`.
pub open spec fn swept(line: Seq<CellView>, from: int, to: int) -> Seq<CellView>
    decreases
            if to > from {
                to - from
            } else {
                0
            },
{
    if from >= to || cluster_end(line, from) <= from {
        line
    } else {
        swept(without_cluster(line, from), cluster_end(line, from), to)
    }
}

/// Whether the columns `from..to` of `line` can be erased.
pub open spec fn erasable(line: Seq<CellView>, from: int, to: int) -> bool {
    passable(line, from, at_most(to, line.len() as int))
}

/// `line` without the cells behind its last cluster.
pub open spec fn trimmed_line(line: Seq<CellView>) -> Seq<CellView>
    decreases line.len(),
{
    if line.len() > 0 && !(line.last() is Cluster) {
        trimmed_line(line.drop_last())
    } else {
        line
    }
}

/// `line` after the columns `from..to` have been erased.
pub open spec fn erased(line: Seq<CellView>, from: int, to: int) -> Seq<CellView> {
    if from >= to {
        line
    } else {
        trimmed_line(swept(line, from, at_most(to, line.len() as int)))
    }
}

/// `line` with empty cells added until it has `width` columns.
pub open spec fn padded(line: Seq<CellView>, width: int) -> Seq<CellView> {
    if line.len() < width {
        line + Seq::new((width - line.len()) as nat, |i: int| CellView::Empty)
    } else {
        line
    }
}

/// `line` after the combining mark `mark` has been put at `col`.
pub open spec fn combined(line: Seq<CellView>, col: int, mark: char) -> Seq<CellView> {
    match cluster_before(line, col) {
        Some(start) => line.update(start, CellView::Cluster(line[start]->Cluster_0.push(mark))),
        None => line,
    }
}

/// `line` with `c` at `col`, over `width` columns.
pub open spec fn overlaid(line: Seq<CellView>, col: int, c: char, width: int) -> Seq<CellView> {
    Seq::new(
        line.len(),
        |i: int|
            if i == col {
                CellView::Cluster(seq![c])
            } else if col < i < col + width {
                CellView::Continuation
            } else {
                line[i]
            },
    )
}

/// `line` after the character `c` of `width` columns has been put at `col`.
pub open spec fn placed(line: Seq<CellView>, col: int, c: char, width: int) -> Seq<CellView> {
    trimmed_line(
        overlaid(without_clusters(padded(line, col + width), col, col + width), col, c, width),
    )
}

/// What a screen buffer holds.
#[verifier::ext_equal]
pub struct ScreenView {
    pub rows: Seq<Seq<CellView>>,
    pub row: int,
    pub col: int,
    /// The first row that has changed since the update began, if one has.
    pub dirty: Option<int>,
}

impl ScreenView {
    /// The screen without a row marked as changed.
    pub open spec fn unmarked(self) -> ScreenView {
        ScreenView { dirty: None, ..self }
    }

    /// The screen with row `row` marked as changed.
    pub open spec fn marked(self, row: int) -> ScreenView {
        ScreenView {
            dirty: match self.dirty {
                Some(first) => Some(at_most(row, first)),
                None => Some(row),
            },
            ..self
        }
    }

    /// The screen with rows added until the row of the cursor is there.
    pub open spec fn with_cursor_row(self) -> ScreenView {
        if self.row < self.rows.len() {
            self
        } else {
            ScreenView {
                rows: self.rows + Seq::new(
                    (self.row + 1 - self.rows.len()) as nat,
                    |i: int| Seq::<CellView>::empty(),
                ),
                ..self.marked(self.rows.len() as int)
            }
        }
    }

    /// The screen with the row of the cursor there and marked as changed.
    pub open spec fn touched(self) -> ScreenView {
        self.marked(self.row).with_cursor_row()
    }

    /// The row of the cursor.
    pub open spec fn line(self) -> Seq<CellView> {
        self.rows[self.row]
    }

    pub open spec fn with_line(self, line: Seq<CellView>) -> ScreenView {
        ScreenView { rows: self.rows.update(self.row, line), ..self }
    }

    pub open spec fn with_col(self, col: int) -> ScreenView {
        ScreenView { col, ..self }
    }

    /// After the character `c` has been put at the cursor.
    pub open spec fn put(self, c: char) -> ScreenView {
        let next = self.touched();
        if columns(c) == 0 {
            next.with_line(combined(next.line(), self.col, c))
        } else {
            next.with_line(placed(next.line(), self.col, c, columns(c))).with_col(
                self.col + columns(c),
            )
        }
    }

    /// After `count` blanks have been put at the cursor.
    pub open spec fn put_blanks(self, count: int) -> ScreenView
        decreases count,
    {
        if count <= 0 {
            self
        } else {
            self.put_blanks(count - 1).put(' ')
        }
    }

    /// The column of the next tab stop.
    pub open spec fn next_stop(self) -> int {
        (self.col / 8 + 1) * 8
    }

    pub open spec fn new_line(self) -> ScreenView {
        ScreenView { row: self.row + 1, col: 0, ..self }.with_cursor_row()
    }

    /// After the cursor has moved left by `count` clusters.
    pub open spec fn left(self, count: int) -> ScreenView
        decreases count,
    {
        if count <= 0 {
            self
        } else {
            let s = self.left(count - 1).with_cursor_row();
            s.with_col(column_left(s.line(), s.col))
        }
    }

    /// After the cursor has moved right by `count` clusters.
    pub open spec fn right(self, count: int) -> ScreenView
        decreases count,
    {
        if count <= 0 {
            self
        } else {
            let s = self.right(count - 1).with_cursor_row();
            s.with_col(column_right(s.line(), s.col))
        }
    }

    pub open spec fn at_column(self, col: int) -> ScreenView {
        let s = self.with_cursor_row();
        s.with_col(column_at(s.line(), col))
    }

    /// After the row of the cursor has been erased: up to the cursor in mode 1,
    /// all of it in mode 2, else from the cursor on.
    pub open spec fn erase_line(self, mode: int) -> ScreenView {
        let s = self.touched();
        if mode == 1 {
            s.with_line(erased(s.line(), 0, saturated(self.col + 1)))
        } else if mode == 2 {
            s.with_line(Seq::empty())
        } else {
            s.with_line(erased(s.line(), self.col, s.line().len() as int))
        }
    }

    /// Whether the row of the cursor can be erased.
    pub open spec fn can_erase_line(self, mode: int) -> bool {
        let line = self.touched().line();
        if mode == 1 {
            erasable(line, 0, saturated(self.col + 1))
        } else if mode == 2 {
            true
        } else {
            erasable(line, self.col, line.len() as int)
        }
    }

    /// Whether the screen can be erased.
    pub open spec fn can_erase_display(self, mode: int) -> bool {
        mode == 2 || self.can_erase_line(if mode == 1 {
            1
        } else {
            0
        })
    }

    /// After row `row` has been emptied; it is marked if it was not empty.
    pub open spec fn emptied(self, row: int) -> ScreenView {
        if 0 <= row < self.rows.len() && self.rows[row].len() > 0 {
            ScreenView { rows: self.rows.update(row, Seq::empty()), ..self.marked(row) }
        } else {
            self
        }
    }

    /// After the rows `from..to` have been emptied.
    pub open spec fn emptied_rows(self, from: int, to: int) -> ScreenView
        decreases to - from,
    {
        if from >= to {
            self
        } else {
            self.emptied_rows(from, to - 1).emptied(to - 1)
        }
    }

    /// After the screen has been erased: up to the cursor in mode 1, all of it
    /// in mode 2, else from the cursor on.
    pub open spec fn erase_display(self, mode: int) -> ScreenView {
        let s = self.with_cursor_row();
        if mode == 1 {
            s.emptied_rows(0, s.row).erase_line(1)
        } else if mode == 2 {
            ScreenView { rows: Seq::empty(), row: 0, col: 0, ..s }.marked(0)
        } else {
            let t = s.erase_line(0);
            t.emptied_rows(t.row + 1, t.rows.len() as int)
        }
    }
}

/// The start of a cluster lies at or before the column asked for, and is no
/// continuation unless it is the first column.
pub proof fn cluster_start_bounds(line: Seq<CellView>, col: int)
    requires
        0 <= col,
    ensures
        0 <= cluster_start(line, col) <= col,
        cluster_start(line, col) == 0 || !(line[cluster_start(line, col)] is Continuation),
    decreases col,
{
    if col > 0 && line[col] is Continuation {
        cluster_start_bounds(line, col - 1);
    }
}

impl Clone for ScreenCell {
    fn clone(&self) -> (r: Self)
        ensures
            r@ == self@,
    {
        match self {
            ScreenCell::Empty => ScreenCell::Empty,
            ScreenCell::Cluster(text) => ScreenCell::Cluster(text.clone()),
            ScreenCell::Continuation => ScreenCell::Continuation,
        }
    }
}

/// The columns that a cluster takes: at least one.
pub fn cluster_width(text: &str) -> (r: usize)
    ensures
        r == cluster_columns(text@),
{
    let width = width_of_str(text);
    if width >= 1 {
        width
    } else {
        1
    }
}

/// The columns that a character takes on the screen.
fn char_columns(c: char) -> (r: usize)
    ensures
        r == columns(c),
{
    match width_of_char(c) {
        Some(width) => width,
        None => 1,
    }
}

impl ScreenCell {
    /// The columns from the cell to the next one.
    pub fn step_width(&self) -> (r: usize)
        ensures
            r == span(self@),
            r >= 1,
    {
        match self {
            ScreenCell::Cluster(text) => cluster_width(text.as_str()),
            _ => 1,
        }
    }

    pub fn is_continuation(&self) -> (r: bool)
        ensures
            r == (self@ is Continuation),
    {
        match self {
            ScreenCell::Continuation => true,
            _ => false,
        }
    }

    pub fn is_cluster(&self) -> (r: bool)
        ensures
            r == (self@ is Cluster),
    {
        match self {
            ScreenCell::Cluster(_) => true,
            _ => false,
        }
    }
}

/// A copy of a row.
pub fn copy_line(line: &Vec<ScreenCell>) -> (r: Vec<ScreenCell>)
    ensures
        line_view(r@) == line_view(line@),
{
    let mut r: Vec<ScreenCell> = Vec::new();
    let mut i: usize = 0;
    while i < line.len()
        invariant
            i <= line@.len(),
            line_view(r@) == line_view(line@).take(i as int),
        decreases line.len() - i,
    {
        let ghost before = r@;
        let cell = line[i].clone();
        r.push(cell);
        proof {
            assert(line_view(r@) =~= line_view(before).push(line@[i as int]@));
            assert(line_view(line@).take(i + 1) =~= line_view(line@).take(i as int).push(
                line_view(line@)[i as int],
            ));
        }
        i += 1;
    }
    proof {
        assert(line_view(line@).take(i as int) =~= line_view(line@));
    }
    r
}

/// `x + y`, or the largest number where the sum is beyond it.
fn saturating_sum(x: usize, y: usize) -> (r: usize)
    ensures
        r == saturated(x + y),
{
    if x <= usize::MAX - y {
        x + y
    } else {
        usize::MAX
    }
}

/// Rows of cells, a cursor, and the first row that an update has touched.
pub struct ScreenBuffer {
    logical_rows: Vec<Vec<ScreenCell>>,
    cursor_row: usize,
    cursor_col: usize,
    dirty_from_row: Option<usize>,
}

impl ScreenBuffer {
    fn ensure_line_width(line: &mut Vec<ScreenCell>, width: usize)
        ensures
            line_view(final(line)@) == padded(line_view(old(line)@), width as int),
    {
        let ghost before = line_view(line@);
        while line.len() < width
            invariant
                before.len() <= line@.len(),
                line@.len() <= width || line@.len() == before.len(),
                line_view(line@) == padded(before, line@.len() as int),
            decreases width - line.len(),
        {
            let ghost old_line = line@;
            line.push(ScreenCell::Empty);
            proof {
                assert(line_view(line@) =~= line_view(old_line).push(CellView::Empty));
                assert(padded(before, line@.len() as int) =~= padded(
                    before,
                    old_line.len() as int,
                ).push(CellView::Empty));
            }
        }
    }

    fn cluster_start(line: &Vec<ScreenCell>, col: usize) -> (r: Option<usize>)
        ensures
            r is Some == (col < line@.len()),
            r matches Some(start) ==> start <= col && start == cluster_start(
                line_view(line@),
                col as int,
            ),
    {
        if col >= line.len() {
            return None;
        }
        let mut index: usize = col;
        while index > 0 && line[index].is_continuation()
            invariant
                index <= col < line@.len(),
                cluster_start(line_view(line@), index as int) == cluster_start(
                    line_view(line@),
                    col as int,
                ),
            decreases index,
        {
            index -= 1;
        }
        Some(index)
    }

    fn occupied_range(line: &Vec<ScreenCell>, col: usize) -> (r: Option<(usize, usize)>)
        ensures
            r is Some == (col < line@.len()),
            r matches Some(range) ==> {
                &&& range.0 == cluster_start(line_view(line@), col as int)
                &&& range.1 == cluster_end(line_view(line@), col as int)
                &&& range.0 <= col
                &&& range.0 < range.1 <= line@.len()
            },
    {
        let start = match Self::cluster_start(line, col) {
            Some(start) => start,
            None => return None,
        };
        let end = saturating_sum(start, line[start].step_width());
        let end = if end <= line.len() {
            end
        } else {
            line.len()
        };
        Some((start, end))
    }

    fn cluster_before(line: &Vec<ScreenCell>, col: usize) -> (r: Option<usize>)
        ensures
            r is Some == cluster_before(line_view(line@), col as int) is Some,
            r matches Some(start) ==> start < line@.len() && cluster_before(
                line_view(line@),
                col as int,
            ) == Some(start as int),
    {
        if line.len() == 0 || col == 0 {
            return None;
        }
        let anchor = if col - 1 <= line.len() - 1 {
            col - 1
        } else {
            line.len() - 1
        };
        let start = match Self::cluster_start(line, anchor) {
            Some(start) => start,
            None => return None,
        };
        if line[start].is_cluster() {
            Some(start)
        } else {
            None
        }
    }

    fn previous_column(line: &Vec<ScreenCell>, col: usize) -> (r: usize)
        ensures
            r == column_left(line_view(line@), col as int),
    {
        if col == 0 {
            return 0;
        }
        match Self::cluster_start(line, col - 1) {
            Some(start) => start,
            None => col - 1,
        }
    }

    fn next_column(line: &Vec<ScreenCell>, col: usize) -> (r: usize)
        ensures
            r == column_right(line_view(line@), col as int),
    {
        if col >= line.len() {
            return saturating_sum(col, 1);
        }
        saturating_sum(col, line[col].step_width())
    }

    fn normalized_column(line: &Vec<ScreenCell>, col: usize) -> (r: usize)
        ensures
            r == column_at(line_view(line@), col as int),
    {
        match Self::cluster_start(line, col) {
            Some(start) => start,
            None => col,
        }
    }

    fn clear_occupied_cell(line: &mut Vec<ScreenCell>, col: usize)
        ensures
            line_view(final(line)@) == without_cluster(line_view(old(line)@), col as int),
            final(line)@.len() == old(line)@.len(),
    {
        let ghost before = line_view(line@);
        let (start, end) = match Self::occupied_range(line, col) {
            Some(range) => range,
            None => return ,
        };
        let mut index: usize = start;
        proof {
            assert(line_view(line@) =~= blanked(before, start as int, start as int));
        }
        while index < end
            invariant
                start <= index <= end <= line@.len(),
                line@.len() == before.len(),
                line_view(line@) == blanked(before, start as int, index as int),
            decreases end - index,
        {
            let ghost old_line = line@;
            line.set(index, ScreenCell::Empty);
            proof {
                assert(line_view(line@) =~= line_view(old_line).update(
                    index as int,
                    CellView::Empty,
                ));
                assert(blanked(before, start as int, index + 1) =~= line_view(line@));
            }
            index += 1;
        }
    }

    fn trim_trailing_empty(line: &mut Vec<ScreenCell>)
        ensures
            line_view(final(line)@) == trimmed_line(line_view(old(line)@)),
    {
        let ghost before = line_view(line@);
        while line.len() > 0 && !line[line.len() - 1].is_cluster()
            invariant
                trimmed_line(line_view(line@)) == trimmed_line(before),
            decreases line.len(),
        {
            let ghost old_line = line@;
            line.pop();
            proof {
                assert(line_view(line@) =~= line_view(old_line).drop_last());
            }
        }
    }

    /// Whether the columns `start..end` of the row can be erased.
    fn can_clear_range(line: &Vec<ScreenCell>, start: usize, end: usize) -> (r: bool)
        ensures
            r == erasable(line_view(line@), start as int, end as int),
    {
        let mut rest = copy_line(line);
        let ghost before = line_view(line@);
        proof {
            assert(line_view(rest@).len() == before.len());
        }
        let limit = if end <= line.len() {
            end
        } else {
            line.len()
        };
        let mut index: usize = start;
        while index < limit
            invariant
                limit <= rest@.len(),
                before == line_view(line@),
                limit == at_most(end as int, before.len() as int),
                passable(line_view(rest@), index as int, limit as int) == passable(
                    before,
                    start as int,
                    limit as int,
                ),
            decreases
                if index < limit {
                    limit - index
                } else {
                    0
                },
        {
            let next = match Self::occupied_range(&rest, index) {
                Some(range) => range.1,
                None => index,
            };
            if next <= index {
                return false;
            }
            Self::clear_occupied_cell(&mut rest, index);
            index = next;
        }
        true
    }

    fn clear_range(line: &mut Vec<ScreenCell>, start: usize, end: usize)
        requires
            erasable(line_view(old(line)@), start as int, end as int),
        ensures
            line_view(final(line)@) == erased(line_view(old(line)@), start as int, end as int),
    {
        if start >= end {
            return ;
        }
        let end = if end <= line.len() {
            end
        } else {
            line.len()
        };
        let ghost before = line_view(line@);
        let mut index: usize = start;
        while index < end
            invariant
                end <= line@.len(),
                passable(line_view(line@), index as int, end as int),
                swept(line_view(line@), index as int, end as int) == swept(
                    before,
                    start as int,
                    end as int,
                ),
            decreases
                if index < end {
                    end - index
                } else {
                    0
                },
        {
            let occupied_end = match Self::occupied_range(line, index) {
                Some(range) => range.1,
                None => end,
            };
            Self::clear_occupied_cell(line, index);
            index = occupied_end;
        }
        Self::trim_trailing_empty(line);
    }

    fn append_combining_mark(line: &mut Vec<ScreenCell>, col: usize, mark: char)
        ensures
            line_view(final(line)@) == combined(line_view(old(line)@), col as int, mark),
    {
        let ghost before = line@;
        let index = match Self::cluster_before(line, col) {
            Some(index) => index,
            None => return ,
        };
        let mut text = match &line[index] {
            ScreenCell::Cluster(text) => text.clone(),
            _ => String::new(),
        };
        text.push(mark);
        line.set(index, ScreenCell::Cluster(text));
        proof {
            assert(line_view(line@) =~= combined(line_view(before), col as int, mark));
        }
    }

    /// Puts `c` over the columns `col..col + width` of the row.
    fn place(line: &mut Vec<ScreenCell>, col: usize, c: char, width: usize)
        requires
            width >= 1,
            col + width <= usize::MAX,
        ensures
            line_view(final(line)@) == placed(line_view(old(line)@), col as int, c, width as int),
    {
        Self::ensure_line_width(line, col + width);
        let ghost wide = line_view(line@);
        let mut occupied: usize = col;
        while occupied < col + width
            invariant
                col <= occupied <= col + width <= usize::MAX,
                line@.len() == wide.len(),
                without_clusters(line_view(line@), occupied as int, col + width)
                    == without_clusters(wide, col as int, col + width),
            decreases col + width - occupied,
        {
            Self::clear_occupied_cell(line, occupied);
            occupied += 1;
        }
        let ghost cleared = line_view(line@);
        let mut text = String::new();
        text.push(c);
        line.set(col, ScreenCell::Cluster(text));
        let mut continuation: usize = col + 1;
        proof {
            assert(text@ =~= seq![c]);
            assert(line_view(line@) =~= overlaid(cleared, col as int, c, 1));
        }
        while continuation < col + width
            invariant
                col < continuation <= col + width <= line@.len(),
                col + width <= usize::MAX,
                line@.len() == cleared.len(),
                line_view(line@) == overlaid(cleared, col as int, c, continuation - col),
            decreases col + width - continuation,
        {
            let ghost old_line = line@;
            line.set(continuation, ScreenCell::Continuation);
            proof {
                assert(line_view(line@) =~= line_view(old_line).update(
                    continuation as int,
                    CellView::Continuation,
                ));
                assert(line_view(line@) =~= overlaid(
                    cleared,
                    col as int,
                    c,
                    continuation + 1 - col,
                ));
            }
            continuation += 1;
        }
        Self::trim_trailing_empty(line);
    }
}

impl View for ScreenBuffer {
    type V = ScreenView;

    closed spec fn view(&self) -> ScreenView {
        ScreenView {
            rows: rows_view(self.logical_rows@),
            row: self.cursor_row as int,
            col: self.cursor_col as int,
            dirty: match self.dirty_from_row {
                Some(row) => Some(row as int),
                None => None,
            },
        }
    }
}

impl ScreenBuffer {
    /// A screen without rows.
    pub fn new() -> (r: Self)
        ensures
            r@ == (ScreenView { rows: Seq::empty(), row: 0, col: 0, dirty: None }),
    {
        let r = ScreenBuffer {
            logical_rows: Vec::new(),
            cursor_row: 0,
            cursor_col: 0,
            dirty_from_row: None,
        };
        proof {
            assert(r@.rows =~= Seq::empty());
        }
        r
    }

    /// Forgets which rows have changed.
    pub fn begin_update(&mut self)
        ensures
            final(self)@ == old(self)@.unmarked(),
    {
        self.dirty_from_row = None;
    }

    /// The first row that has changed; it is forgotten.
    pub fn take_dirty_from_row(&mut self) -> (r: Option<usize>)
        ensures
            r is Some == old(self)@.dirty is Some,
            r matches Some(row) ==> old(self)@.dirty == Some(row as int),
            final(self)@ == old(self)@.unmarked(),
    {
        self.dirty_from_row.take()
    }

    /// The rows from `from_row` on.
    pub fn logical_rows_from(&self, from_row: usize) -> (r: Vec<Vec<ScreenCell>>)
        ensures
            rows_view(r@) == self@.rows.skip(at_most(from_row as int, self@.rows.len() as int)),
    {
        let mut r: Vec<Vec<ScreenCell>> = Vec::new();
        let first = if from_row <= self.logical_rows.len() {
            from_row
        } else {
            self.logical_rows.len()
        };
        let mut i: usize = first;
        while i < self.logical_rows.len()
            invariant
                first <= i <= self.logical_rows@.len(),
                rows_view(r@) == self@.rows.subrange(first as int, i as int),
            decreases self.logical_rows.len() - i,
        {
            let ghost before = r@;
            let line = copy_line(&self.logical_rows[i]);
            r.push(line);
            proof {
                assert(rows_view(r@) =~= rows_view(before).push(line_view(line@)));
                assert(self@.rows.subrange(first as int, i + 1) =~= self@.rows.subrange(
                    first as int,
                    i as int,
                ).push(self@.rows[i as int]));
            }
            i += 1;
        }
        proof {
            assert(self@.rows.subrange(first as int, i as int) =~= self@.rows.skip(first as int));
        }
        r
    }

    fn mark_dirty(&mut self, row_index: usize)
        ensures
            final(self)@ == old(self)@.marked(row_index as int),
    {
        let first = match self.dirty_from_row {
            Some(existing) => if row_index <= existing {
                row_index
            } else {
                existing
            },
            None => row_index,
        };
        self.dirty_from_row = Some(first);
    }

    fn ensure_cursor_row(&mut self)
        ensures
            final(self)@ == old(self)@.with_cursor_row(),
            final(self)@.row < final(self)@.rows.len(),
    {
        let ghost start = self@;
        while self.logical_rows.len() <= self.cursor_row
            invariant
                self@.row == start.row,
                self@.rows.len() == self.logical_rows@.len(),
                start.rows.len() <= self@.rows.len(),
                self@.rows.len() <= start.row + 1 || self@ == start,
                self@.rows =~= start.rows + Seq::new(
                    (self@.rows.len() - start.rows.len()) as nat,
                    |i: int| Seq::<CellView>::empty(),
                ),
                self@ == (ScreenView {
                    rows: self@.rows,
                    ..if self@.rows.len() == start.rows.len() {
                        start
                    } else {
                        start.marked(start.rows.len() as int)
                    }
                }),
            decreases self.cursor_row + 1 - self.logical_rows.len(),
        {
            let ghost before = self@;
            let added = self.logical_rows.len();
            let line: Vec<ScreenCell> = Vec::new();
            proof {
                assert(line_view(line@) =~= Seq::empty());
            }
            self.logical_rows.push(line);
            proof {
                assert(self@.rows =~= before.rows.push(Seq::empty()));
            }
            self.mark_dirty(added);
        }
        proof {
            assert(self@ =~= start.with_cursor_row());
        }
    }

    /// The row of the cursor, marked as changed.
    fn dirty_cursor_row_cells_mut(&mut self) -> (line: &mut Vec<ScreenCell>)
        ensures
            line_view(line@) == old(self)@.touched().line(),
            final(self)@ == old(self)@.touched().with_line(line_view(final(line)@)),
    {
        self.mark_dirty(self.cursor_row);
        self.ensure_cursor_row();
        let row = self.cursor_row;
        &mut self.logical_rows[row]
    }

    /// Puts `ch`, which takes `width` columns, at the cursor.
    fn put_columns(&mut self, ch: char, width: usize)
        requires
            width == columns(ch),
            old(self)@.col + width <= usize::MAX,
        ensures
            final(self)@ == old(self)@.put(ch),
    {
        let col = self.cursor_col;
        let line = self.dirty_cursor_row_cells_mut();
        if width == 0 {
            Self::append_combining_mark(line, col, ch);
            return ;
        }
        Self::place(line, col, ch, width);
        self.cursor_col = col + width;
    }

    /// Puts a character at the cursor and moves the cursor behind it; a
    /// combining mark joins the cluster before the cursor.
    pub fn put_char(&mut self, ch: char)
        requires
            old(self)@.col + columns(ch) <= usize::MAX,
        ensures
            final(self)@ == old(self)@.put(ch),
    {
        let width = char_columns(ch);
        self.put_columns(ch, width);
    }

    /// Whether there is a column for the cursor behind `ch`.
    pub fn has_room_for(&self, ch: char) -> (r: bool)
        ensures
            r == (self@.col + columns(ch) <= usize::MAX),
    {
        self.cursor_col <= usize::MAX - char_columns(ch)
    }

    /// Whether there is a row for the cursor below its own.
    pub fn has_row_below(&self) -> (r: bool)
        ensures
            r == (self@.row < usize::MAX),
    {
        self.cursor_row < usize::MAX
    }

    /// Whether there is a column for the cursor at the next tab stop.
    pub fn has_tab_stop(&self) -> (r: bool)
        ensures
            r == (self@.next_stop() <= usize::MAX),
    {
        self.cursor_col / 8 < usize::MAX / 8
    }

    /// Moves the cursor to the start of the next row.
    pub fn new_line(&mut self)
        requires
            old(self)@.row < usize::MAX,
        ensures
            final(self)@ == old(self)@.new_line(),
    {
        self.cursor_row += 1;
        self.cursor_col = 0;
        self.ensure_cursor_row();
    }

    /// Moves the cursor to the start of its row.
    pub fn carriage_return(&mut self)
        ensures
            final(self)@ == old(self)@.with_col(0),
    {
        self.cursor_col = 0;
    }

    fn previous_cursor_column(&mut self) -> (r: usize)
        ensures
            final(self)@ == old(self)@.with_cursor_row(),
            r == column_left(final(self)@.line(), old(self)@.col),
    {
        self.ensure_cursor_row();
        Self::previous_column(&self.logical_rows[self.cursor_row], self.cursor_col)
    }

    fn next_cursor_column(&mut self) -> (r: usize)
        ensures
            final(self)@ == old(self)@.with_cursor_row(),
            r == column_right(final(self)@.line(), old(self)@.col),
    {
        self.ensure_cursor_row();
        Self::next_column(&self.logical_rows[self.cursor_row], self.cursor_col)
    }

    fn normalized_cursor_column(&mut self, col: usize) -> (r: usize)
        ensures
            final(self)@ == old(self)@.with_cursor_row(),
            r == column_at(final(self)@.line(), col as int),
    {
        self.ensure_cursor_row();
        Self::normalized_column(&self.logical_rows[self.cursor_row], col)
    }

    /// Moves the cursor left by one cluster.
    pub fn backspace(&mut self)
        ensures
            final(self)@ == old(self)@.left(1),
    {
        proof {
            assert(self@.left(0) == self@);
        }
        self.cursor_col = self.previous_cursor_column();
    }

    /// Puts blanks up to the next tab stop.
    pub fn tab(&mut self)
        requires
            old(self)@.next_stop() <= usize::MAX,
        ensures
            final(self)@ == old(self)@.put_blanks(old(self)@.next_stop() - old(self)@.col),
    {
        let ghost start = self@;
        let next_stop = ((self.cursor_col / 8) + 1) * 8;
        let width = char_columns(' ');
        while self.cursor_col < next_stop
            invariant
                width == columns(' ') == 1,
                start.col <= self@.col,
                self@.col == self.cursor_col,
                self@.col <= next_stop,
                self@ == start.put_blanks(self@.col - start.col),
            decreases next_stop - self.cursor_col,
        {
            self.put_columns(' ', width);
        }
    }

    /// Moves the cursor left by `count` clusters.
    pub fn move_left(&mut self, count: usize)
        ensures
            final(self)@ == old(self)@.left(count as int),
    {
        let ghost start = self@;
        let mut done: usize = 0;
        while done < count
            invariant
                done <= count,
                self@ == start.left(done as int),
            decreases count - done,
        {
            self.cursor_col = self.previous_cursor_column();
            done += 1;
        }
    }

    /// Moves the cursor right by `count` clusters.
    pub fn move_right(&mut self, count: usize)
        ensures
            final(self)@ == old(self)@.right(count as int),
    {
        let ghost start = self@;
        let mut done: usize = 0;
        while done < count
            invariant
                done <= count,
                self@ == start.right(done as int),
            decreases count - done,
        {
            self.cursor_col = self.next_cursor_column();
            done += 1;
        }
    }

    /// Moves the cursor to the cluster at column `col`.
    pub fn set_cursor_column(&mut self, col: usize)
        ensures
            final(self)@ == old(self)@.at_column(col as int),
    {
        self.cursor_col = self.normalized_cursor_column(col);
    }

    /// Whether the row of the cursor can be erased.
    pub fn can_erase_in_line(&self, mode: usize) -> (r: bool)
        ensures
            r == self@.can_erase_line(mode as int),
    {
        if mode == 2 || self.cursor_row >= self.logical_rows.len() {
            return true;
        }
        let line = &self.logical_rows[self.cursor_row];
        proof {
            assert(line_view(line@) == self@.touched().line());
        }
        if mode == 1 {
            Self::can_clear_range(line, 0, saturating_sum(self.cursor_col, 1))
        } else {
            Self::can_clear_range(line, self.cursor_col, line.len())
        }
    }

    /// Whether the screen can be erased.
    pub fn can_erase_in_display(&self, mode: usize) -> (r: bool)
        ensures
            r == self@.can_erase_display(mode as int),
    {
        if mode == 2 {
            return true;
        }
        self.can_erase_in_line(
            if mode == 1 {
                1
            } else {
                0
            },
        )
    }

    /// Erases the row of the cursor: up to the cursor in mode 1, all of it in
    /// mode 2, else from the cursor on.
    pub fn erase_in_line(&mut self, mode: usize)
        requires
            old(self)@.can_erase_line(mode as int),
        ensures
            final(self)@ == old(self)@.erase_line(mode as int),
    {
        let col = self.cursor_col;
        let line = self.dirty_cursor_row_cells_mut();
        if mode == 1 {
            Self::clear_range(line, 0, saturating_sum(col, 1));
        } else if mode == 2 {
            line.clear();
            proof {
                assert(line_view(line@) =~= Seq::empty());
            }
        } else {
            let len = line.len();
            Self::clear_range(line, col, len);
        }
    }

    fn clear_logical_row(&mut self, row: usize)
        ensures
            final(self)@ == old(self)@.emptied(row as int),
    {
        if row < self.logical_rows.len() && self.logical_rows[row].len() > 0 {
            let ghost before = self@;
            let line: Vec<ScreenCell> = Vec::new();
            self.logical_rows.set(row, line);
            proof {
                assert(line_view(line@) =~= Seq::empty());
                assert(self@.rows =~= before.rows.update(row as int, Seq::empty()));
            }
            self.mark_dirty(row);
        }
    }

    /// Erases the screen: up to the cursor in mode 1, all of it in mode 2,
    /// else from the cursor on.
    pub fn erase_in_display(&mut self, mode: usize)
        requires
            old(self)@.can_erase_display(mode as int),
        ensures
            final(self)@ == old(self)@.erase_display(mode as int),
    {
        self.ensure_cursor_row();
        if mode == 1 {
            let ghost start = self@;
            let mut row: usize = 0;
            while row < self.cursor_row
                invariant
                    row <= self.cursor_row,
                    self.cursor_row == start.row,
                    self@.row == start.row < self@.rows.len(),
                    self@.col == start.col,
                    self@.line() == start.line(),
                    self@ == start.emptied_rows(0, row as int),
                decreases self.cursor_row - row,
            {
                self.clear_logical_row(row);
                row += 1;
            }
            self.erase_in_line(1);
        } else if mode == 2 {
            self.logical_rows.clear();
            self.cursor_row = 0;
            self.cursor_col = 0;
            proof {
                assert(self@.rows =~= Seq::empty());
            }
            self.mark_dirty(0);
        } else {
            self.erase_in_line(0);
            let ghost start = self@;
            let count = self.logical_rows.len();
            let mut row: usize = self.cursor_row + 1;
            while row < count
                invariant
                    start.row < row <= self@.rows.len(),
                    self@.rows.len() == count == start.rows.len(),
                    self@ == start.emptied_rows(start.row + 1, row as int),
                decreases count - row,
            {
                self.clear_logical_row(row);
                row += 1;
            }
        }
    }
}

} // verus!
