//! The surface that shows the rows of a console, wrapped to its width.
use vstd::prelude::*;

use crate::screen::{at_most, line_view, rows_view, CellView, ScreenCell};

verus! {

/// The units of the text layout that make up one pixel.
pub const LAYOUT_SCALE: i32 = 1024;

/// The larger of two numbers.
pub open spec fn at_least(x: int, limit: int) -> int {
    if x >= limit {
        x
    } else {
        limit
    }
}

/// `x` brought into the range of an `i32`.
pub open spec fn clamped(x: int) -> int {
    at_least(at_most(x, i32::MAX as int), i32::MIN as int)
}

/// Layout units in whole pixels, rounded, and at least `least`.
pub open spec fn pixels(units: int, least: int) -> int {
    at_least(
        if units + LAYOUT_SCALE / 2 < 0 {
            0
        } else {
            (units + LAYOUT_SCALE / 2) / LAYOUT_SCALE as int
        },
        least,
    )
}

/// The last column between `low` and `col` that is no continuation, or `low`.
pub open spec fn lead(row: Seq<CellView>, low: int, col: int) -> int
    decreases col,
{
    if 0 <= low < col && row[col] is Continuation {
        lead(row, low, col - 1)
    } else {
        col
    }
}

/// Where the visual line that begins at column `start` ends: after
/// `wrap_columns` columns, or before the cluster that would be cut there, or
/// at the end of the row.
pub open spec fn line_break(row: Seq<CellView>, start: int, wrap_columns: int) -> int {
    let hard_end = at_most(start + at_least(wrap_columns, 1), row.len() as int);
    if start >= row.len() {
        row.len() as int
    } else if hard_end == row.len() || lead(row, start, hard_end) == start {
        hard_end
    } else {
        lead(row, start, hard_end)
    }
}

proof fn lead_bounds(row: Seq<CellView>, low: int, col: int)
    requires
        0 <= low <= col,
    ensures
        low <= lead(row, low, col) <= col,
        lead(row, low, col) == low || !(row[lead(row, low, col)] is Continuation),
        lead(row, low, col) == col || row[col] is Continuation,
    decreases col,
{
    if low < col && row[col] is Continuation {
        lead_bounds(row, low, col - 1);
    }
}

/// A visual line is not empty unless its row is, holds at most as many columns
/// as there are, and ends within its row; it cuts no cluster unless that
/// cluster alone is too wide.
pub proof fn line_break_bounds(row: Seq<CellView>, start: int, wrap_columns: int)
    requires
        0 <= start,
    ensures
        start < row.len() ==> start < line_break(row, start, wrap_columns) <= row.len(),
        line_break(row, start, wrap_columns) <= start + at_least(wrap_columns, 1)
            || start >= row.len(),
        start < row.len() && line_break(row, start, wrap_columns) < row.len() && row[line_break(
            row,
            start,
            wrap_columns,
        )] is Continuation ==> forall|i: int|
            start < i <= line_break(row, start, wrap_columns) ==> #[trigger] row[i] is Continuation,
{
    let hard_end = at_most(start + at_least(wrap_columns, 1), row.len() as int);
    if start < row.len() {
        lead_bounds(row, start, hard_end);
        lead_passes_continuations(row, start, hard_end);
    }
}

proof fn lead_passes_continuations(row: Seq<CellView>, low: int, col: int)
    requires
        0 <= low <= col,
    ensures
        forall|i: int| lead(row, low, col) < i <= col ==> #[trigger] row[i] is Continuation,
    decreases col,
{
    if low < col && row[col] is Continuation {
        lead_passes_continuations(row, low, col - 1);
    }
}

/// A part of a row that is shown as one line.
#[derive(Clone, Copy)]
pub struct VisualLine {
    pub row: usize,
    pub start: usize,
    pub end: usize,
}

/// The columns at which the visual lines of a row begin and end, from the one
/// that begins at `start` on.
pub open spec fn row_lines(row: Seq<CellView>, start: int, wrap_columns: int) -> Seq<(int, int)>
    decreases row.len() - start,
{
    let end = line_break(row, start, wrap_columns);
    if start < 0 || end >= row.len() || end <= start {
        seq![(start, end)]
    } else {
        seq![(start, end)] + row_lines(row, end, wrap_columns)
    }
}

/// The lines of a row, from the one that begins at `start` on.
pub open spec fn numbered_lines(
    row_index: int,
    row: Seq<CellView>,
    start: int,
    wrap_columns: int,
) -> Seq<LineView> {
    row_lines(row, start, wrap_columns).map_values(
        |range: (int, int)| LineView { row: row_index, start: range.0, end: range.1 },
    )
}

/// All visual lines of `rows`, from top to bottom.
pub open spec fn all_lines(rows: Seq<Seq<CellView>>, wrap_columns: int) -> Seq<LineView>
    decreases rows.len(),
{
    if rows.len() == 0 {
        Seq::empty()
    } else {
        all_lines(rows.drop_last(), wrap_columns) + numbered_lines(
            rows.len() - 1,
            rows.last(),
            0,
            wrap_columns,
        )
    }
}

/// What a visual line is.
pub struct LineView {
    pub row: int,
    pub start: int,
    pub end: int,
}

impl View for VisualLine {
    type V = LineView;

    open spec fn view(&self) -> LineView {
        LineView { row: self.row as int, start: self.start as int, end: self.end as int }
    }
}

pub open spec fn lines_view(lines: Seq<VisualLine>) -> Seq<LineView> {
    lines.map_values(|line: VisualLine| line@)
}

/// The largest number of columns that a row has.
pub open spec fn widest(rows: Seq<Seq<CellView>>) -> int
    decreases rows.len(),
{
    if rows.len() == 0 {
        0
    } else {
        at_least(widest(rows.drop_last()), rows.last().len() as int)
    }
}

/// The rows of a console, as they are shown.
pub struct ConsoleSurface {
    logical_rows: Vec<Vec<ScreenCell>>,
    monospace: bool,
}

impl ConsoleSurface {
    pub closed spec fn rows(self) -> Seq<Seq<CellView>> {
        rows_view(self.logical_rows@)
    }

    pub closed spec fn is_monospace(self) -> bool {
        self.monospace
    }

    /// A surface without rows.
    pub fn new() -> (r: Self)
        ensures
            r.rows() == Seq::<Seq<CellView>>::empty(),
            !r.is_monospace(),
    {
        let r = ConsoleSurface { logical_rows: Vec::new(), monospace: false };
        proof {
            assert(r.rows() =~= Seq::empty());
        }
        r
    }

    /// Removes all rows.
    pub fn clear(&mut self)
        ensures
            final(self).rows() == Seq::<Seq<CellView>>::empty(),
            final(self).is_monospace() == old(self).is_monospace(),
    {
        self.logical_rows.clear();
        proof {
            assert(self.rows() =~= Seq::empty());
        }
    }

    /// Puts `logical_rows` in the place of the rows from `dirty_from_row` on.
    pub fn replace_tail(&mut self, dirty_from_row: usize, logical_rows: Vec<Vec<ScreenCell>>)
        ensures
            final(self).rows() == old(self).rows().take(
                at_most(dirty_from_row as int, old(self).rows().len() as int),
            ) + rows_view(logical_rows@),
            final(self).is_monospace() == old(self).is_monospace(),
    {
        let ghost before = self.rows();
        let ghost added = rows_view(logical_rows@);
        let mut logical_rows = logical_rows;
        self.logical_rows.truncate(dirty_from_row);
        self.logical_rows.append(&mut logical_rows);
        proof {
            assert(self.rows() =~= before.take(
                at_most(dirty_from_row as int, before.len() as int),
            ) + added);
        }
    }

    /// Sets whether the text is shown in a monospace font.
    pub fn set_monospace(&mut self, monospace: bool)
        ensures
            final(self).rows() == old(self).rows(),
            final(self).is_monospace() == monospace,
    {
        self.monospace = monospace;
    }

    /// Whether the text is shown in a monospace font.
    pub fn monospace(&self) -> (r: bool)
        ensures
            r == self.is_monospace(),
    {
        self.monospace
    }

    /// The largest number of columns that a row has.
    pub fn max_columns(&self) -> (r: usize)
        ensures
            r == widest(self.rows()),
    {
        let mut widest_row: usize = 0;
        let mut i: usize = 0;
        proof {
            assert(self.rows().take(0) =~= Seq::empty());
        }
        while i < self.logical_rows.len()
            invariant
                i <= self.logical_rows@.len(),
                widest_row == widest(self.rows().take(i as int)),
            decreases self.logical_rows.len() - i,
        {
            let len = self.logical_rows[i].len();
            proof {
                assert(self.rows().take(i + 1).drop_last() =~= self.rows().take(i as int));
                assert(self.rows().take(i + 1).last() == line_view(
                    self.logical_rows@[i as int]@,
                ));
            }
            if len > widest_row {
                widest_row = len;
            }
            i += 1;
        }
        proof {
            assert(self.rows().take(i as int) =~= self.rows());
        }
        widest_row
    }

    /// Where the visual line of `row` that begins at column `start` ends.
    pub fn visual_break(row: &Vec<ScreenCell>, start: usize, wrap_columns: usize) -> (r: usize)
        ensures
            r == line_break(line_view(row@), start as int, wrap_columns as int),
    {
        if start >= row.len() {
            return row.len();
        }
        let wanted = if wrap_columns >= 1 {
            wrap_columns
        } else {
            1
        };
        let hard_end = if wanted <= row.len() - start {
            start + wanted
        } else {
            row.len()
        };
        if hard_end == row.len() {
            return hard_end;
        }
        let mut end: usize = hard_end;
        while end > start && row[end].is_continuation()
            invariant
                start <= end <= hard_end < row@.len(),
                lead(line_view(row@), start as int, end as int) == lead(
                    line_view(row@),
                    start as int,
                    hard_end as int,
                ),
            decreases end,
        {
            end -= 1;
        }
        if end == start {
            hard_end
        } else {
            end
        }
    }

    /// The visual lines of all rows, from top to bottom.
    pub fn visual_lines(&self, wrap_columns: usize) -> (r: Vec<VisualLine>)
        ensures
            lines_view(r@) == all_lines(self.rows(), wrap_columns as int),
    {
        let mut lines: Vec<VisualLine> = Vec::new();
        let ghost wrap = wrap_columns as int;
        let mut i: usize = 0;
        proof {
            assert(self.rows().take(0) =~= Seq::empty());
            assert(lines_view(lines@) =~= Seq::empty());
        }
        while i < self.logical_rows.len()
            invariant
                i <= self.logical_rows@.len(),
                wrap == wrap_columns,
                lines_view(lines@) == all_lines(self.rows().take(i as int), wrap),
            decreases self.logical_rows.len() - i,
        {
            let row = &self.logical_rows[i];
            let ghost cells = line_view(row@);
            let ghost above = lines_view(lines@);
            let mut start: usize = 0;
            let mut done = false;
            proof {
                assert(above + numbered_lines(i as int, cells, 0, wrap) =~= lines_view(lines@)
                    + numbered_lines(i as int, cells, 0, wrap));
            }
            while !done
                invariant
                    cells == line_view(row@),
                    wrap == wrap_columns,
                    start <= cells.len(),
                    !done ==> above + numbered_lines(i as int, cells, 0, wrap) == lines_view(lines@)
                        + numbered_lines(i as int, cells, start as int, wrap),
                    done ==> above + numbered_lines(i as int, cells, 0, wrap) == lines_view(lines@),
                decreases
                    if done {
                        0
                    } else {
                        cells.len() - start + 1
                    },
            {
                let end = Self::visual_break(row, start, wrap_columns);
                let ghost before = lines@;
                lines.push(VisualLine { row: i, start, end });
                proof {
                    line_break_bounds(cells, start as int, wrap);
                    let first = LineView { row: i as int, start: start as int, end: end as int };
                    assert(lines_view(lines@) =~= lines_view(before).push(first));
                    if end >= cells.len() {
                        assert(numbered_lines(i as int, cells, start as int, wrap) =~= seq![first]);
                    } else {
                        assert(numbered_lines(i as int, cells, start as int, wrap) =~= seq![first]
                            + numbered_lines(i as int, cells, end as int, wrap));
                    }
                    assert(lines_view(before) + seq![first] =~= lines_view(lines@));
                    assert(lines_view(before) + (seq![first] + numbered_lines(
                        i as int,
                        cells,
                        end as int,
                        wrap,
                    )) =~= lines_view(lines@) + numbered_lines(i as int, cells, end as int, wrap));
                }
                if end >= row.len() {
                    done = true;
                } else {
                    start = end;
                }
            }
            proof {
                assert(self.rows().take(i + 1).drop_last() =~= self.rows().take(i as int));
                assert(self.rows().take(i + 1).last() == cells);
            }
            i += 1;
        }
        proof {
            assert(self.rows().take(i as int) =~= self.rows());
        }
        lines
    }

    /// How many visual lines there are.
    pub fn visual_row_count(&self, wrap_columns: usize) -> (r: usize)
        ensures
            r == all_lines(self.rows(), wrap_columns as int).len(),
    {
        let lines = self.visual_lines(wrap_columns);
        lines.len()
    }
}

/// The direction in which a widget is laid out or measured.
#[derive(Debug, Clone, Copy, PartialEq, Eq, Structural)]
pub enum Orientation {
    Horizontal,
    Vertical,
}

/// The size of a cell, in pixels, and where the text stands in it.
#[derive(Debug, Clone, Copy, PartialEq, Eq, Structural)]
pub struct GridMetrics {
    pub cell_width: i32,
    pub cell_height: i32,
    pub baseline: i32,
}

/// Layout units in whole pixels, rounded, and at least `least`.
fn rounded_pixels(units: i32, least: i32) -> (r: i32)
    requires
        units + LAYOUT_SCALE / 2 <= i32::MAX,
        0 <= least <= 1,
    ensures
        r == pixels(units as int, least as int),
        least <= r <= 0x20_0000,
{
    let raised = units + LAYOUT_SCALE / 2;
    let whole = if raised < 0 {
        0
    } else {
        raised / LAYOUT_SCALE
    };
    if whole >= least {
        whole
    } else {
        least
    }
}

/// `x * y`, brought into range.
fn clamped_product(x: i32, y: i32) -> (r: i32)
    ensures
        r == clamped(x * y),
{
    proof {
        assert(-0x4000_0000_0000_0000 <= x * y <= 0x4000_0000_0000_0000) by (nonlinear_arith)
            requires
                -0x8000_0000 <= x <= 0x7fff_ffff,
                -0x8000_0000 <= y <= 0x7fff_ffff,
        ;
    }
    let product: i64 = x as i64 * y as i64;
    if product > i32::MAX as i64 {
        i32::MAX
    } else if product < i32::MIN as i64 {
        i32::MIN
    } else {
        product as i32
    }
}

/// The width and the height of a cell and its baseline, for a font in which a
/// digit is `digit_width` pixels wide and that reaches `ascent` layout units above
/// and `descent` below its baseline.
pub open spec fn font_grid(digit_width: int, ascent: int, descent: int) -> (int, int, int) {
    (
        clamped(at_least(digit_width, 1) + 1),
        pixels(ascent, 1) + pixels(descent, 0),
        pixels(ascent, 1),
    )
}

/// The least and the natural size of `rows` in one direction, for `for_size`
/// pixels in the other.
pub open spec fn size_of(
    rows: Seq<Seq<CellView>>,
    orientation: Orientation,
    for_size: int,
    metrics: GridMetrics,
) -> (int, int) {
    let columns = widest(rows) as i32;
    match orientation {
        Orientation::Horizontal => (
            metrics.width(),
            at_least(clamped(columns * metrics.width()), metrics.width()),
        ),
        Orientation::Vertical => {
            let lines = all_lines(
                rows,
                wrapped(metrics, for_size, columns as usize as int),
            ).len() as i32;
            (clamped(lines * metrics.height()), clamped(lines * metrics.height()))
        },
    }
}

impl GridMetrics {
    /// The width of a cell as far as sizes depend on it.
    pub open spec fn width(self) -> int {
        at_least(self.cell_width as int, 1)
    }

    /// The height of a cell as far as sizes depend on it.
    pub open spec fn height(self) -> int {
        at_least(self.cell_height as int, 1)
    }

    /// The metrics of a font in which a digit is `digit_width` pixels wide and
    /// that reaches `ascent` layout units above and `descent` below its
    /// baseline. A cell has one pixel more than the digit.
    pub fn for_font(digit_width: i32, ascent: i32, descent: i32) -> (r: Self)
        requires
            ascent + LAYOUT_SCALE / 2 <= i32::MAX,
            descent + LAYOUT_SCALE / 2 <= i32::MAX,
        ensures
            (r.cell_width as int, r.cell_height as int, r.baseline as int) == font_grid(
                digit_width as int,
                ascent as int,
                descent as int,
            ),
            r.cell_width == clamped(at_least(digit_width as int, 1) + 1),
            r.cell_height == pixels(ascent as int, 1) + pixels(descent as int, 0),
            r.baseline == pixels(ascent as int, 1),
    {
        let above = rounded_pixels(ascent, 1);
        let below = rounded_pixels(descent, 0);
        let width = if digit_width >= 1 {
            digit_width
        } else {
            1
        };
        GridMetrics {
            cell_width: if width < i32::MAX {
                width + 1
            } else {
                i32::MAX
            },
            cell_height: above + below,
            baseline: above,
        }
    }

    /// How many columns fit into `available_width` pixels; where no width is
    /// given, `max_columns`. There is at least one.
    pub fn wrap_columns(&self, available_width: i32, max_columns: usize) -> (r: usize)
        ensures
            r == wrapped(*self, available_width as int, max_columns as int),
    {
        if available_width <= 0 {
            return if max_columns >= 1 {
                max_columns
            } else {
                1
            };
        }
        let width = if self.cell_width >= 1 {
            self.cell_width
        } else {
            1
        };
        let columns = available_width / width;
        if columns >= 1 {
            proof {
                assert(available_width as int / width as int <= available_width)
                    by (nonlinear_arith)
                    requires
                        available_width > 0,
                        width >= 1,
                ;
            }
            columns as usize
        } else {
            1
        }
    }
}

/// The columns of the lines of a surface that is `available_width` pixels wide;
/// 0 or less where no width is given.
pub open spec fn wrapped(metrics: GridMetrics, available_width: int, max_columns: int) -> int {
    if available_width <= 0 {
        at_least(max_columns, 1)
    } else {
        at_least(available_width / metrics.width(), 1)
    }
}

impl ConsoleSurface {
    /// The least and the natural size of the surface in one direction, for
    /// `for_size` pixels in the other (or -1): the width of one and of all
    /// columns, or the height of all lines.
    pub fn measure(&self, orientation: Orientation, for_size: i32, metrics: GridMetrics) -> (r: (
        i32,
        i32,
    ))
        ensures
            (r.0 as int, r.1 as int) == size_of(
                self.rows(),
                orientation,
                for_size as int,
                metrics,
            ),
            ({
                let columns = widest(self.rows()) as i32;
                let lines = all_lines(
                    self.rows(),
                    wrapped(metrics, for_size as int, columns as usize as int),
                ).len();
                match orientation {
                    Orientation::Horizontal => {
                        &&& r.0 == metrics.width()
                        &&& r.1 == at_least(clamped(columns * metrics.width()), metrics.width())
                    },
                    Orientation::Vertical => {
                        &&& r.0 == clamped(lines as i32 * metrics.height())
                        &&& r.1 == r.0
                    },
                }
            }),
    {
        let columns = #[verifier::truncate] (self.max_columns() as i32);
        let cell_width = if metrics.cell_width >= 1 {
            metrics.cell_width
        } else {
            1
        };
        let cell_height = if metrics.cell_height >= 1 {
            metrics.cell_height
        } else {
            1
        };
        match orientation {
            Orientation::Horizontal => {
                let width = clamped_product(columns, cell_width);
                (
                    cell_width,
                    if width >= cell_width {
                        width
                    } else {
                        cell_width
                    },
                )
            },
            Orientation::Vertical => {
                let wrap_columns = metrics.wrap_columns(
                    for_size,
                    #[verifier::truncate] (columns as usize),
                );
                let lines = #[verifier::truncate] (self.visual_row_count(wrap_columns) as i32);
                let height = clamped_product(lines, cell_height);
                (height, height)
            },
        }
    }
}

/// A cluster and the cell at which it is drawn.
pub struct ClusterPlace {
    pub text: String,
    pub column: usize,
    pub line: usize,
}

/// What a place holds.
pub struct PlaceView {
    pub text: Seq<char>,
    pub column: int,
    pub line: int,
}

impl View for ClusterPlace {
    type V = PlaceView;

    open spec fn view(&self) -> PlaceView {
        PlaceView { text: self.text@, column: self.column as int, line: self.line as int }
    }
}

pub open spec fn places_view(places: Seq<ClusterPlace>) -> Seq<PlaceView> {
    places.map_values(|place: ClusterPlace| place@)
}

/// The clusters in the columns `start..end` of a row, drawn in line `line`.
pub open spec fn line_places(row: Seq<CellView>, start: int, end: int, line: int) -> Seq<PlaceView>
    decreases end - start,
{
    if end <= start {
        Seq::empty()
    } else {
        let before = line_places(row, start, end - 1, line);
        match row[end - 1] {
            CellView::Cluster(text) => before.push(
                PlaceView { text, column: end - 1 - start, line },
            ),
            _ => before,
        }
    }
}

/// The clusters of all lines, from left to right and from top to bottom.
pub open spec fn all_places(rows: Seq<Seq<CellView>>, lines: Seq<LineView>) -> Seq<PlaceView>
    decreases lines.len(),
{
    if lines.len() == 0 {
        Seq::empty()
    } else {
        let line = lines.last();
        all_places(rows, lines.drop_last()) + line_places(
            rows[line.row],
            line.start,
            line.end,
            lines.len() - 1,
        )
    }
}

/// The room that a cluster is drawn in, in pixels; the width of its layout is
/// in layout units.
#[derive(Debug, Clone, Copy, PartialEq, Eq, Structural)]
pub struct ClusterBox {
    pub layout_width: i32,
    pub clip_width: i32,
    pub clip_height: i32,
    pub shift_down: i32,
}

/// The room for a cluster of `span` columns whose layout has its baseline at
/// `layout_baseline` layout units: the width and the height in pixels, the width
/// in layout units, and how far the layout is moved down.
pub open spec fn room(metrics: GridMetrics, span: int, layout_baseline: int) -> (
    int,
    int,
    int,
    int,
) {
    let width = at_least(span, 1) * metrics.cell_width;
    (
        width,
        metrics.cell_height as int,
        width * LAYOUT_SCALE,
        metrics.baseline - pixels(layout_baseline, 0),
    )
}

impl GridMetrics {
    /// The room for a cluster of `span` columns whose layout has its baseline
    /// at `layout_baseline` layout units, so that the baseline comes to stand
    /// on that of the cell.
    pub fn cluster_box(&self, span: i32, layout_baseline: i32) -> (r: ClusterBox)
        requires
            0 <= self.cell_width,
            0 <= self.baseline,
            at_least(span as int, 1) * self.cell_width * LAYOUT_SCALE <= i32::MAX,
            layout_baseline + LAYOUT_SCALE / 2 <= i32::MAX,
        ensures
            (r.clip_width as int, r.clip_height as int, r.layout_width as int, r.shift_down as int)
                == room(*self, span as int, layout_baseline as int),
            r.clip_width == at_least(span as int, 1) * self.cell_width,
            r.clip_height == self.cell_height,
            r.layout_width == at_least(span as int, 1) * self.cell_width * LAYOUT_SCALE,
            r.shift_down == self.baseline - pixels(layout_baseline as int, 0),
    {
        let columns = if span >= 1 {
            span
        } else {
            1
        };
        proof {
            assert(0 <= columns * self.cell_width <= columns * self.cell_width * 1024)
                by (nonlinear_arith)
                requires
                    columns >= 1,
                    self.cell_width >= 0,
            ;
        }
        let width = columns * self.cell_width;
        ClusterBox {
            layout_width: width * LAYOUT_SCALE,
            clip_width: width,
            clip_height: self.cell_height,
            shift_down: self.baseline - rounded_pixels(layout_baseline, 0),
        }
    }
}

impl ConsoleSurface {
    /// The clusters that are drawn on a surface of `wrap_columns` columns, line
    /// by line.
    pub fn cluster_places(&self, wrap_columns: usize) -> (r: Vec<ClusterPlace>)
        ensures
            places_view(r@) == all_places(
                self.rows(),
                all_lines(self.rows(), wrap_columns as int),
            ),
    {
        let lines = self.visual_lines(wrap_columns);
        let ghost views = lines_view(lines@);
        let mut places: Vec<ClusterPlace> = Vec::new();
        let mut k: usize = 0;
        proof {
            lines_lie_in_rows(self.rows(), wrap_columns as int);
            assert(views.take(0) =~= Seq::empty());
            assert(places_view(places@) =~= Seq::empty());
        }
        while k < lines.len()
            invariant
                k <= lines@.len(),
                views == lines_view(lines@),
                forall|j: int| 0 <= j < views.len() ==> line_lies_in(self.rows(), #[trigger] views[j]),
                places_view(places@) == all_places(self.rows(), views.take(k as int)),
            decreases lines.len() - k,
        {
            let line = lines[k];
            proof {
                assert(line_lies_in(self.rows(), views[k as int]));
                assert(views[k as int] == line@);
            }
            let row = &self.logical_rows[line.row];
            let ghost cells = line_view(row@);
            let ghost above = places_view(places@);
            let mut i: usize = line.start;
            proof {
                assert(cells == self.rows()[line.row as int]);
                assert(above + Seq::<PlaceView>::empty() =~= above);
            }
            while i < line.end
                invariant
                    line.start <= i <= line.end <= row@.len(),
                    cells == line_view(row@),
                    places_view(places@) == above + line_places(
                        cells,
                        line.start as int,
                        i as int,
                        k as int,
                    ),
                decreases line.end - i,
            {
                if let ScreenCell::Cluster(text) = &row[i] {
                    let ghost before = places@;
                    let place = ClusterPlace { text: text.clone(), column: i - line.start, line: k };
                    places.push(place);
                    proof {
                        assert(places_view(places@) =~= places_view(before).push(place@));
                        assert(above + line_places(cells, line.start as int, i + 1, k as int) =~= (
                        above + line_places(cells, line.start as int, i as int, k as int)).push(
                            place@,
                        ));
                    }
                }
                i += 1;
            }
            proof {
                assert(views.take(k + 1).drop_last() =~= views.take(k as int));
                assert(views.take(k + 1).last() == line@);
            }
            k += 1;
        }
        proof {
            assert(views.take(k as int) =~= views);
        }
        places
    }
}

/// Whether a line is a part of a row that is there.
pub open spec fn line_lies_in(rows: Seq<Seq<CellView>>, line: LineView) -> bool {
    &&& 0 <= line.row < rows.len()
    &&& 0 <= line.start <= line.end <= rows[line.row].len()
}

/// The lines of a row follow one another from `start` to the end of the row,
/// and none but that of an empty row is empty.
pub proof fn row_lines_tile(row: Seq<CellView>, start: int, wrap_columns: int)
    requires
        0 <= start <= row.len(),
        start < row.len() || start == 0,
    ensures
        ({
            let lines = row_lines(row, start, wrap_columns);
            &&& lines.len() >= 1
            &&& lines[0].0 == start
            &&& lines.last().1 == row.len()
            &&& forall|i: int, j: int|
                0 <= i < lines.len() && j == i + 1 && j < lines.len() ==> (#[trigger] lines[i]).1 == (
                #[trigger] lines[j]).0
            &&& forall|i: int|
                0 <= i < lines.len() ==> {
                    &&& start <= (#[trigger] lines[i]).0 <= lines[i].1 <= row.len()
                    &&& lines[i].1 - lines[i].0 <= at_least(wrap_columns, 1)
                    &&& lines[i].0 < lines[i].1 || row.len() == 0
                }
        }),
    decreases row.len() - start,
{
    let end = line_break(row, start, wrap_columns);
    line_break_bounds(row, start, wrap_columns);
    let lines = row_lines(row, start, wrap_columns);
    if end < row.len() {
        row_lines_tile(row, end, wrap_columns);
        let rest = row_lines(row, end, wrap_columns);
        assert forall|i: int, j: int|
            0 <= i < lines.len() && j == i + 1 && j < lines.len() implies (#[trigger] lines[i]).1
            == (#[trigger] lines[j]).0 by {
            assert(lines[j] == rest[j - 1]);
            if i > 0 {
                assert(lines[i] == rest[i - 1]);
            }
        }
        assert forall|i: int| 0 <= i < lines.len() implies {
            &&& start <= (#[trigger] lines[i]).0 <= lines[i].1 <= row.len()
            &&& lines[i].1 - lines[i].0 <= at_least(wrap_columns, 1)
            &&& lines[i].0 < lines[i].1 || row.len() == 0
        } by {
            if i > 0 {
                assert(lines[i] == rest[i - 1]);
            }
        }
    }
}

/// All lines are parts of rows that are there, no wider than the surface, and
/// each row has one.
pub proof fn lines_lie_in_rows(rows: Seq<Seq<CellView>>, wrap_columns: int)
    ensures
        forall|i: int|
            0 <= i < all_lines(rows, wrap_columns).len() ==> {
                let line = #[trigger] all_lines(rows, wrap_columns)[i];
                &&& line_lies_in(rows, line)
                &&& line.end - line.start <= at_least(wrap_columns, 1)
            },
        all_lines(rows, wrap_columns).len() >= rows.len(),
    decreases rows.len(),
{
    if rows.len() > 0 {
        let above = rows.drop_last();
        lines_lie_in_rows(above, wrap_columns);
        row_lines_tile(rows.last(), 0, wrap_columns);
        let lines = all_lines(rows, wrap_columns);
        let before = all_lines(above, wrap_columns);
        assert forall|i: int| 0 <= i < lines.len() implies {
            let line = #[trigger] lines[i];
            &&& line_lies_in(rows, line)
            &&& line.end - line.start <= at_least(wrap_columns, 1)
        } by {
            if i < before.len() {
                assert(lines[i] == before[i]);
                assert(line_lies_in(above, before[i]));
                assert(above[before[i].row] == rows[before[i].row]);
            } else {
                let ranges = row_lines(rows.last(), 0, wrap_columns);
                assert(ranges[i - before.len()].0 >= 0);
            }
        }
    }
}

/// Where every row fits the surface, each is one line.
pub proof fn rows_that_fit_are_lines(rows: Seq<Seq<CellView>>, wrap_columns: int)
    requires
        wrap_columns >= widest(rows),
    ensures
        all_lines(rows, wrap_columns).len() == rows.len(),
    decreases rows.len(),
{
    if rows.len() > 0 {
        rows_that_fit_are_lines(rows.drop_last(), wrap_columns);
        assert(line_break(rows.last(), 0, wrap_columns) == rows.last().len());
        assert(row_lines(rows.last(), 0, wrap_columns).len() == 1);
    }
}

/// No row has more columns than the widest.
pub proof fn widest_bounds_rows(rows: Seq<Seq<CellView>>)
    ensures
        widest(rows) >= 0,
        forall|i: int| 0 <= i < rows.len() ==> (#[trigger] rows[i]).len() <= widest(rows),
        rows.len() > 0 ==> exists|i: int|
            0 <= i < rows.len() && (#[trigger] rows[i]).len() == widest(rows),
    decreases rows.len(),
{
    if rows.len() > 0 {
        let init = rows.drop_last();
        widest_bounds_rows(init);
        assert forall|i: int| 0 <= i < rows.len() implies (#[trigger] rows[i]).len() <= widest(
            rows,
        ) by {
            if i < init.len() {
                assert(init[i] == rows[i]);
            }
        }
        if widest(init) >= rows.last().len() && init.len() > 0 {
            let i = choose|i: int| 0 <= i < init.len() && (#[trigger] init[i]).len() == widest(init);
            assert(rows[i].len() == widest(rows));
        } else {
            assert(rows[rows.len() - 1].len() == widest(rows));
        }
    }
}

/// The line of a row that holds column `col`.
proof fn line_of_column(row: Seq<CellView>, start: int, wrap_columns: int, col: int) -> (j: int)
    requires
        0 <= start <= col < row.len(),
    ensures
        0 <= j < row_lines(row, start, wrap_columns).len(),
        row_lines(row, start, wrap_columns)[j].0 <= col < row_lines(row, start, wrap_columns)[j].1,
    decreases row.len() - start,
{
    let end = line_break(row, start, wrap_columns);
    line_break_bounds(row, start, wrap_columns);
    if col < end {
        0
    } else {
        let j = line_of_column(row, end, wrap_columns, col);
        assert(row_lines(row, start, wrap_columns)[j + 1] == row_lines(row, end, wrap_columns)[j]);
        j + 1
    }
}

/// The line that holds column `col` of row `row`.
proof fn line_of_cell(rows: Seq<Seq<CellView>>, wrap_columns: int, row: int, col: int) -> (k: int)
    requires
        0 <= row < rows.len(),
        0 <= col < rows[row].len(),
    ensures
        0 <= k < all_lines(rows, wrap_columns).len(),
        all_lines(rows, wrap_columns)[k].row == row,
        all_lines(rows, wrap_columns)[k].start <= col < all_lines(rows, wrap_columns)[k].end,
    decreases rows.len(),
{
    let above = all_lines(rows.drop_last(), wrap_columns);
    if row == rows.len() - 1 {
        let j = line_of_column(rows[row], 0, wrap_columns, col);
        above.len() + j
    } else {
        line_of_cell(rows.drop_last(), wrap_columns, row, col)
    }
}

/// Where the cluster of column `col` stands among those of its line.
proof fn place_in_line(row: Seq<CellView>, start: int, end: int, line: int, col: int) -> (p: int)
    requires
        start <= col < end,
        row[col] is Cluster,
    ensures
        0 <= p < line_places(row, start, end, line).len(),
        line_places(row, start, end, line)[p] == (PlaceView {
            text: row[col]->Cluster_0,
            column: col - start,
            line,
        }),
    decreases end - start,
{
    if col == end - 1 {
        line_places(row, start, end - 1, line).len() as int
    } else {
        place_in_line(row, start, end - 1, line, col)
    }
}

/// Where the cluster of column `col` of line `k` stands among all.
proof fn place_in_all(rows: Seq<Seq<CellView>>, lines: Seq<LineView>, k: int, col: int) -> (p: int)
    requires
        0 <= k < lines.len(),
        lines[k].start <= col < lines[k].end,
        rows[lines[k].row][col] is Cluster,
    ensures
        0 <= p < all_places(rows, lines).len(),
        all_places(rows, lines)[p] == (PlaceView {
            text: rows[lines[k].row][col]->Cluster_0,
            column: col - lines[k].start,
            line: k,
        }),
    decreases lines.len(),
{
    let above = all_places(rows, lines.drop_last());
    if k == lines.len() - 1 {
        let p = place_in_line(rows[lines[k].row], lines[k].start, lines[k].end, k, col);
        above.len() + p
    } else {
        place_in_all(rows, lines.drop_last(), k, col)
    }
}

/// Every cluster of the rows is drawn in the line that holds it, at its
/// distance from the start of that line.
pub proof fn every_cluster_is_drawn(
    rows: Seq<Seq<CellView>>,
    wrap_columns: int,
    row: int,
    col: int,
)
    requires
        0 <= row < rows.len(),
        0 <= col < rows[row].len(),
        rows[row][col] is Cluster,
    ensures
        ({
            let lines = all_lines(rows, wrap_columns);
            let places = all_places(rows, lines);
            exists|k: int, p: int|
                {
                    &&& 0 <= k < lines.len()
                    &&& 0 <= p < places.len()
                    &&& (#[trigger] lines[k]).row == row
                    &&& lines[k].start <= col < lines[k].end
                    &&& #[trigger] places[p] == (PlaceView {
                        text: rows[row][col]->Cluster_0,
                        column: col - lines[k].start,
                        line: k,
                    })
                }
        }),
{
    let lines = all_lines(rows, wrap_columns);
    let places = all_places(rows, lines);
    let k = line_of_cell(rows, wrap_columns, row, col);
    let p = place_in_all(rows, lines, k, col);
    assert(lines[k].row == row);
    assert(places[p].line == k);
}

} // verus!
