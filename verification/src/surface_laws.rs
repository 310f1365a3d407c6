//! How rows are wrapped and drawn on a surface of any width.
use vstd::prelude::*;

use crate::screen::CellView;
use crate::surface::{all_lines, all_places, clamped, font_grid, lead, line_break, line_lies_in, line_places, lines_lie_in_rows, numbered_lines, pixels, room, row_lines, row_lines_tile, size_of, widest, wrapped, GridMetrics, LineView, Orientation, PlaceView, LAYOUT_SCALE};

verus! {

proof fn lead_is_last(row: Seq<CellView>, low: int, col: int)
    requires
        0 <= low <= col,
    ensures
        low <= lead(row, low, col) <= col,
        forall|i: int|
            lead(row, low, col) < i <= col ==> #[trigger] row[i] is Continuation,
        lead(row, low, col) > low ==> !(row[lead(row, low, col)] is Continuation),
    decreases col,
{
    if low < col && row[col] is Continuation {
        lead_is_last(row, low, col - 1);
    }
}

/// A visual line is as long as it can be: it ends with its row, or holds as many
/// columns as there are, or ends before a cluster that would be cut there.
pub proof fn line_is_as_long_as_it_can_be(row: Seq<CellView>, start: int, columns: int)
    requires
        0 <= start < row.len(),
        1 <= columns,
    ensures
        ({
            let end = line_break(row, start, columns);
            ||| end == row.len() && row.len() - start <= columns
            ||| end == start + columns && end < row.len()
            ||| {
                &&& start < end < start + columns
                &&& !(row[end] is Continuation)
                &&& start + columns < row.len()
                &&& forall|i: int|
                    end < i <= start + columns ==> #[trigger] row[i] is Continuation
            }
        }),
{
    if start + columns < row.len() {
        lead_is_last(row, start, start + columns);
    }
}

/// A row without wide clusters is cut after as many columns as there are.
pub proof fn text_is_cut_at_the_width(row: Seq<CellView>, start: int, columns: int)
    requires
        0 <= start < row.len(),
        1 <= columns,
        forall|i: int| 0 <= i < row.len() ==> !(#[trigger] row[i] is Continuation),
    ensures
        line_break(row, start, columns) == (if row.len() - start <= columns {
            row.len() as int
        } else {
            start + columns
        }),
{
    line_is_as_long_as_it_can_be(row, start, columns);
}

/// Where there are no columns, a line holds one.
pub proof fn a_line_holds_a_column(row: Seq<CellView>, start: int, columns: int)
    requires
        columns < 1,
    ensures
        line_break(row, start, columns) == line_break(row, start, 1),
{
}

proof fn lines_of_one_row(row_index: int, row: Seq<CellView>, columns: int)
    ensures
        ({
            let lines = numbered_lines(row_index, row, 0, columns);
            let ranges = row_lines(row, 0, columns);
            &&& lines.len() == ranges.len()
            &&& lines.len() >= 1
            &&& lines[0] == (LineView { row: row_index, start: 0, end: ranges[0].1 })
            &&& lines.last().end == row.len()
            &&& forall|k: int|
                0 <= k < lines.len() ==> (#[trigger] lines[k]).row == row_index
            &&& forall|i: int, k: int|
                0 <= i < lines.len() && k == i + 1 && k < lines.len() ==> (#[trigger] lines[i]).end
                    == (#[trigger] lines[k]).start
        }),
{
    row_lines_tile(row, 0, columns);
    let lines = numbered_lines(row_index, row, 0, columns);
    let ranges = row_lines(row, 0, columns);
    assert forall|i: int, k: int|
        0 <= i < lines.len() && k == i + 1 && k < lines.len() implies (#[trigger] lines[i]).end == (
    #[trigger] lines[k]).start by {
        assert(ranges[i].1 == ranges[k].0);
    }
}

/// The lines show the rows from top to bottom and from left to right without a
/// gap: each goes on where the one before ended, or begins the next row once that
/// is at its end.
pub proof fn lines_follow_the_rows(rows: Seq<Seq<CellView>>, columns: int)
    ensures
        ({
            let lines = all_lines(rows, columns);
            &&& rows.len() > 0 ==> lines.len() > 0 && lines[0].row == 0 && lines[0].start == 0
            &&& rows.len() > 0 ==> lines.last().row == rows.len() - 1 && lines.last().end
                == rows.last().len()
            &&& rows.len() == 0 ==> lines.len() == 0
            &&& forall|i: int, k: int|
                0 <= i < lines.len() && k == i + 1 && k < lines.len() ==> line_follows(
                    rows,
                    #[trigger] lines[i],
                    #[trigger] lines[k],
                )
        }),
    decreases rows.len(),
{
    if rows.len() > 0 {
        let init = rows.drop_last();
        lines_follow_the_rows(init, columns);
        let above = all_lines(init, columns);
        let last = numbered_lines(rows.len() - 1, rows.last(), 0, columns);
        lines_of_one_row(rows.len() - 1, rows.last(), columns);
        lines_lie_in_rows(init, columns);
        let lines = all_lines(rows, columns);
        assert forall|i: int, k: int|
            0 <= i < lines.len() && k == i + 1 && k < lines.len() implies line_follows(
            rows,
            #[trigger] lines[i],
            #[trigger] lines[k],
        ) by {
            if k < above.len() {
                assert(lines[i] == above[i]);
                assert(lines[k] == above[k]);
                assert(line_follows(init, above[i], above[k]));
                assert(line_lies_in(init, above[i]));
                assert(rows[above[i].row] == init[above[i].row]);
            } else if k == above.len() {
                assert(lines[i] == above.last());
                assert(lines[k] == last[0]);
                assert(rows[rows.len() - 2] == init.last());
            } else {
                assert(lines[i] == last[i - above.len()]);
                assert(lines[k] == last[k - above.len()]);
            }
        }
    }
}

/// Whether a line goes on where another has ended, or begins the next row where
/// that has ended with its row.
pub open spec fn line_follows(rows: Seq<Seq<CellView>>, line: LineView, next: LineView) -> bool {
    ||| next.row == line.row && next.start == line.end
    ||| next.row == line.row + 1 && next.start == 0 && line.end == rows[line.row].len()
}

/// As many columns as fit make up the lines of a surface, and at least one; where
/// no width is given, as many as the widest row has.
pub proof fn columns_fill_the_width(metrics: GridMetrics, width: int, most: int)
    ensures
        width <= 0 ==> wrapped(metrics, width, most) == (if most >= 1 {
            most
        } else {
            1
        }),
        width > 0 ==> {
            let cell = if metrics.cell_width >= 1 {
                metrics.cell_width as int
            } else {
                1
            };
            let columns = wrapped(metrics, width, most);
            &&& columns >= 1
            &&& columns == 1 || columns * cell <= width
            &&& width < (columns + 1) * cell
        },
{
    if width > 0 {
        let cell = metrics.width();
        let columns = wrapped(metrics, width, most);
        assert(width / cell * cell <= width < (width / cell + 1) * cell) by (nonlinear_arith)
            requires
                width > 0,
                cell >= 1,
        ;
        if width / cell < 1 {
            assert(width < 2 * cell) by (nonlinear_arith)
                requires
                    width < (width / cell + 1) * cell,
                    width / cell < 1,
                    cell >= 1,
            ;
        }
    }
}

/// Layout units are rounded to the nearest pixel, the half upwards, and give at
/// least `least` pixels.
pub proof fn pixels_are_rounded(units: int, least: int)
    requires
        0 <= least,
    ensures
        ({
            let whole = pixels(units, least);
            &&& whole >= least
            &&& 0 <= units ==> whole * LAYOUT_SCALE > units - LAYOUT_SCALE / 2 - 1
            &&& whole > least ==> {
                &&& whole * LAYOUT_SCALE <= units + LAYOUT_SCALE / 2
                &&& units + LAYOUT_SCALE / 2 < (whole + 1) * LAYOUT_SCALE
            }
        }),
{
}

/// A number in the range of its type stays as it is, and another becomes the
/// nearest that is.
pub proof fn clamping_keeps_what_fits(x: int)
    ensures
        i32::MIN <= x <= i32::MAX ==> clamped(x) == x,
        x > i32::MAX ==> clamped(x) == i32::MAX,
        x < i32::MIN ==> clamped(x) == i32::MIN,
{
}

/// Whether a place is that of a cluster of its line.
pub open spec fn place_is_right(
    rows: Seq<Seq<CellView>>,
    lines: Seq<LineView>,
    place: PlaceView,
) -> bool {
    &&& 0 <= place.line < lines.len()
    &&& 0 <= place.column < lines[place.line].end - lines[place.line].start
    &&& rows[lines[place.line].row][lines[place.line].start + place.column] == CellView::Cluster(
        place.text,
    )
}

proof fn places_of_a_line(row: Seq<CellView>, start: int, end: int, line: int)
    requires
        start <= end,
    ensures
        ({
            let places = line_places(row, start, end, line);
            &&& forall|p: int|
                0 <= p < places.len() ==> {
                    let place = #[trigger] places[p];
                    &&& place.line == line
                    &&& 0 <= place.column < end - start
                    &&& row[start + place.column] == CellView::Cluster(place.text)
                }
            &&& forall|p: int, q: int|
                0 <= p < q < places.len() ==> (#[trigger] places[p]).column < (
                #[trigger] places[q]).column
        }),
    decreases end - start,
{
    if start < end {
        places_of_a_line(row, start, end - 1, line);
    }
}

/// Nothing is drawn but the clusters of the rows, each in its line and column,
/// and each once: line by line and from left to right.
pub proof fn only_clusters_are_drawn(rows: Seq<Seq<CellView>>, lines: Seq<LineView>)
    requires
        forall|k: int| 0 <= k < lines.len() ==> line_lies_in(rows, #[trigger] lines[k]),
    ensures
        ({
            let places = all_places(rows, lines);
            &&& forall|p: int|
                0 <= p < places.len() ==> place_is_right(rows, lines, #[trigger] places[p])
            &&& forall|p: int, q: int|
                0 <= p < q < places.len() ==> {
                    let a = #[trigger] places[p];
                    let b = #[trigger] places[q];
                    a.line < b.line || (a.line == b.line && a.column < b.column)
                }
        }),
    decreases lines.len(),
{
    if lines.len() > 0 {
        let init = lines.drop_last();
        assert forall|k: int| 0 <= k < init.len() implies line_lies_in(rows, #[trigger] init[k]) by {
            assert(init[k] == lines[k]);
        }
        only_clusters_are_drawn(rows, init);
        let line = lines.last();
        assert(line_lies_in(rows, lines[lines.len() - 1]));
        places_of_a_line(rows[line.row], line.start, line.end, lines.len() - 1);
        let above = all_places(rows, init);
        let last = line_places(rows[line.row], line.start, line.end, lines.len() - 1);
        let places = all_places(rows, lines);
        assert forall|p: int| 0 <= p < places.len() implies place_is_right(
            rows,
            lines,
            #[trigger] places[p],
        ) by {
            if p < above.len() {
                assert(places[p] == above[p]);
                assert(place_is_right(rows, init, above[p]));
                assert(lines[above[p].line] == init[above[p].line]);
            } else {
                assert(places[p] == last[p - above.len()]);
            }
        }
        assert forall|p: int, q: int| 0 <= p < q < places.len() implies ({
            let a = #[trigger] places[p];
            let b = #[trigger] places[q];
            a.line < b.line || (a.line == b.line && a.column < b.column)
        }) by {
            if q < above.len() {
                assert(places[p] == above[p]);
                assert(places[q] == above[q]);
            } else {
                assert(places[q] == last[q - above.len()]);
                if p < above.len() {
                    assert(places[p] == above[p]);
                    assert(place_is_right(rows, init, above[p]));
                } else {
                    assert(places[p] == last[p - above.len()]);
                }
            }
        }
    }
}

/// A cell is one pixel wider than a digit, and as high as the font reaches above
/// and below its baseline.
pub proof fn cells_hold_the_font(digit_width: int, ascent: int, descent: int)
    requires
        1 <= digit_width < i32::MAX,
    ensures
        ({
            let (width, height, baseline) = font_grid(digit_width, ascent, descent);
            &&& width == digit_width + 1
            &&& baseline == pixels(ascent, 1)
            &&& height - baseline == pixels(descent, 0)
            &&& baseline >= 1
        }),
{
}

/// A surface is as wide as its widest row where it can be, and at least as wide as
/// one cell; it is as high as the lines that its rows are cut into at its width.
pub proof fn surface_has_room_for_its_rows(
    rows: Seq<Seq<CellView>>,
    for_size: int,
    metrics: GridMetrics,
    columns: int,
    lines: int,
)
    requires
        1 <= metrics.cell_width,
        1 <= metrics.cell_height,
        columns == widest(rows),
        1 <= columns,
        columns * metrics.cell_width <= i32::MAX,
        lines == all_lines(rows, wrapped(metrics, for_size, columns)).len(),
        lines * metrics.cell_height <= i32::MAX,
    ensures
        size_of(rows, Orientation::Horizontal, for_size, metrics) == (
            metrics.cell_width as int,
            columns * metrics.cell_width,
        ),
        size_of(rows, Orientation::Vertical, for_size, metrics) == (
            lines * metrics.cell_height,
            lines * metrics.cell_height,
        ),
{
    let width = metrics.cell_width as int;
    let height = metrics.cell_height as int;
    assert(columns <= i32::MAX && width <= columns * width) by (nonlinear_arith)
        requires
            1 <= width,
            1 <= columns,
            columns * width <= i32::MAX,
    ;
    assert(lines <= i32::MAX && 0 <= lines * height) by (nonlinear_arith)
        requires
            1 <= height,
            0 <= lines,
            lines * height <= i32::MAX,
    ;
}

/// A cluster has the room of its columns and the height of a cell, and its
/// baseline comes to stand on that of the cell.
pub proof fn cluster_has_the_room_of_its_columns(
    metrics: GridMetrics,
    span: int,
    layout_baseline: int,
)
    requires
        1 <= span,
    ensures
        ({
            let (width, height, layout_width, down) = room(metrics, span, layout_baseline);
            &&& width == span * metrics.cell_width
            &&& height == metrics.cell_height
            &&& layout_width == 1024 * width
            &&& down + pixels(layout_baseline, 0) == metrics.baseline
        }),
        room(metrics, 0, layout_baseline) == room(metrics, 1, layout_baseline),
{
}

} // verus!
