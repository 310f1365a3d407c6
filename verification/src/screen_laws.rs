//! What holds of every screen and of every change to it.
use vstd::prelude::*;

use crate::screen::{at_most, blanked, cluster_end, cluster_start, cluster_start_bounds, columns, combined, erasable, erased, overlaid, padded, passable, placed, saturated, span, swept, trimmed_line, without_cluster, without_clusters, CellView, ScreenView};

verus! {

/// A row that is empty or ends in a cluster.
pub open spec fn tidy(line: Seq<CellView>) -> bool {
    line.len() > 0 ==> line.last() is Cluster
}

/// The cursor stands in a row that is there, or at the top of an empty screen,
/// and no row has blanks at its end.
pub open spec fn sound(s: ScreenView) -> bool {
    &&& 0 <= s.row
    &&& 0 <= s.col
    &&& s.row < s.rows.len() || (s.row == 0 && s.rows.len() == 0)
    &&& forall|i: int| 0 <= i < s.rows.len() ==> tidy(#[trigger] s.rows[i])
}

/// The rows that `s` does not mark as changed are those of `before`.
pub open spec fn marks_changes(before: Seq<Seq<CellView>>, s: ScreenView) -> bool {
    match s.dirty {
        None => s.rows == before,
        Some(first) => {
            &&& 0 <= first <= before.len()
            &&& first <= s.rows.len()
            &&& s.rows.take(first) == before.take(first)
        },
    }
}

/// A screen that is sound and marks what has changed since `before`.
pub open spec fn tracks(before: Seq<Seq<CellView>>, s: ScreenView) -> bool {
    sound(s) && marks_changes(before, s)
}

/// Trimming keeps the start of a row and leaves it tidy.
pub proof fn trimming_tidies(line: Seq<CellView>)
    ensures
        tidy(trimmed_line(line)),
        trimmed_line(line).len() <= line.len(),
        trimmed_line(line) == line.take(trimmed_line(line).len() as int),
        forall|i: int|
            trimmed_line(line).len() <= i < line.len() ==> !(#[trigger] line[i] is Cluster),
    decreases line.len(),
{
    if line.len() > 0 && !(line.last() is Cluster) {
        let init = line.drop_last();
        trimming_tidies(init);
        assert(init.take(trimmed_line(init).len() as int) =~= line.take(
            trimmed_line(line).len() as int,
        ));
        assert forall|i: int| trimmed_line(line).len() <= i < line.len() implies !(
        #[trigger] line[i] is Cluster) by {
            if i < init.len() {
                assert(line[i] == init[i]);
            }
        }
    } else {
        assert(line.take(line.len() as int) =~= line);
    }
}

proof fn removal_keeps_length(line: Seq<CellView>, from: int, to: int)
    ensures
        without_clusters(line, from, to).len() == line.len(),
    decreases to - from,
{
    if from < to {
        removal_keeps_length(without_cluster(line, from), from + 1, to);
    }
}

/// A character that has been put in a row stands in its column, at the end or
/// before other cells.
pub proof fn placed_character_shows(line: Seq<CellView>, col: int, c: char, width: int)
    requires
        0 <= col,
        1 <= width,
    ensures
        placed(line, col, c, width).len() > col,
        placed(line, col, c, width)[col] == CellView::Cluster(seq![c]),
        tidy(placed(line, col, c, width)),
{
    let wide = padded(line, col + width);
    removal_keeps_length(wide, col, col + width);
    let full = overlaid(without_clusters(wide, col, col + width), col, c, width);
    trimming_tidies(full);
    assert(full[col] is Cluster);
    assert(trimmed_line(full)[col] == full.take(trimmed_line(full).len() as int)[col]);
}

/// Putting a character over whole clusters keeps the cells to the left of it.
pub proof fn placing_keeps_the_left(line: Seq<CellView>, col: int, c: char, width: int, i: int)
    requires
        1 <= width,
        0 <= i < cluster_start(padded(line, col + width), col),
        i < line.len(),
    ensures
        placed(line, col, c, width)[i] == line[i],
{
    let wide = padded(line, col + width);
    cluster_start_bounds(wide, col);
    let first = cluster_start(wide, col);
    removal_keeps_the_left(wide, col, col + width, first);
    removal_keeps_length(wide, col, col + width);
    let full = overlaid(without_clusters(wide, col, col + width), col, c, width);
    trimming_tidies(full);
    placed_character_shows(line, col, c, width);
    assert(trimmed_line(full)[i] == full.take(trimmed_line(full).len() as int)[i]);
}

proof fn removal_keeps_the_left(line: Seq<CellView>, from: int, to: int, first: int)
    requires
        0 <= first <= from,
        first == 0 || first >= line.len() || !(line[first] is Continuation),
    ensures
        forall|i: int|
            0 <= i < first && i < line.len() ==> #[trigger] without_clusters(line, from, to)[i]
                == line[i],
    decreases to - from,
{
    if from < to {
        let next = without_cluster(line, from);
        if from < line.len() {
            left_bound_stays(line, from, first);
        }
        removal_keeps_the_left(next, from + 1, to, first);
        assert forall|i: int| 0 <= i < first && i < line.len() implies #[trigger] without_clusters(
            line,
            from,
            to,
        )[i] == line[i] by {
            assert(next[i] == line[i]);
            assert(without_clusters(next, from + 1, to)[i] == next[i]);
        }
    }
}

/// The start of a cluster is not to the left of a column without continuation.
proof fn left_bound_stays(line: Seq<CellView>, col: int, first: int)
    requires
        0 <= first <= col < line.len(),
        first == 0 || !(line[first] is Continuation),
    ensures
        first <= cluster_start(line, col),
    decreases col,
{
    if col > first && line[col] is Continuation {
        left_bound_stays(line, col - 1, first);
    }
}

proof fn sweep_keeps_length(line: Seq<CellView>, from: int, to: int)
    ensures
        swept(line, from, to).len() == line.len(),
    decreases
            if to > from {
                to - from
            } else {
                0
            },
{
    if from < to && cluster_end(line, from) > from {
        sweep_keeps_length(without_cluster(line, from), cluster_end(line, from), to);
    }
}

proof fn sweep_leaves_no_cluster(line: Seq<CellView>, from: int, to: int)
    requires
        0 <= from,
        to <= line.len(),
        passable(line, from, to),
    ensures
        forall|i: int| from <= i < to ==> !(#[trigger] swept(line, from, to)[i] is Cluster),
        forall|i: int|
            0 <= i < line.len() && !(line[i] is Cluster) ==> !(#[trigger] swept(line, from, to)[i] is Cluster),
    decreases
            if to > from {
                to - from
            } else {
                0
            },
{
    if from < to {
        let end = cluster_end(line, from);
        let rest = without_cluster(line, from);
        cluster_start_bounds(line, from);
        sweep_leaves_no_cluster(rest, end, to);
        assert forall|i: int| from <= i < to implies !(#[trigger] swept(line, from, to)[i] is Cluster) by {
            if i < end {
                assert(!(rest[i] is Cluster));
            }
        }
        assert forall|i: int| 0 <= i < line.len() && !(line[i] is Cluster) implies !(
        #[trigger] swept(line, from, to)[i] is Cluster) by {
            assert(!(rest[i] is Cluster));
        }
    }
}

/// Erasing leaves a row tidy, and no longer than it was.
pub proof fn erasing_tidies(line: Seq<CellView>, from: int, to: int)
    requires
        tidy(line),
    ensures
        tidy(erased(line, from, to)),
        erased(line, from, to).len() <= line.len(),
{
    let limit = at_most(to, line.len() as int);
    sweep_keeps_length(line, from, limit);
    trimming_tidies(swept(line, from, limit));
}

/// Erasing a range leaves no cluster in it.
pub proof fn erasing_leaves_no_cluster(line: Seq<CellView>, from: int, to: int)
    requires
        0 <= from < to,
        erasable(line, from, to),
    ensures
        forall|i: int|
            from <= i < to && i < erased(line, from, to).len() ==> !(#[trigger] erased(
                line,
                from,
                to,
            )[i] is Cluster),
{
    let limit = at_most(to, line.len() as int);
    sweep_leaves_no_cluster(line, from, limit);
    sweep_keeps_length(line, from, limit);
    trimming_tidies(swept(line, from, limit));
    let rest = swept(line, from, limit);
    assert forall|i: int| from <= i < to && i < erased(line, from, to).len() implies !(
    #[trigger] erased(line, from, to)[i] is Cluster) by {
        assert(erased(line, from, to)[i] == rest.take(erased(line, from, to).len() as int)[i]);
    }
}

/// Erasing from a column to the end of the row leaves nothing at or behind that
/// column.
pub proof fn erasing_to_the_end_cuts_the_row(line: Seq<CellView>, col: int)
    requires
        0 <= col < line.len(),
        erasable(line, col, line.len() as int),
    ensures
        erased(line, col, line.len() as int).len() <= col,
{
    let len = line.len() as int;
    erasing_leaves_no_cluster(line, col, len);
    sweep_keeps_length(line, col, len);
    trimming_tidies(swept(line, col, len));
    let r = erased(line, col, len);
    if r.len() > col {
        assert(!(r[r.len() - 1] is Cluster));
    }
}

/// Removing a cluster moves the start of no other: a column belongs to a blank
/// afterwards, or to the cluster that it belonged to.
proof fn removal_keeps_other_starts(line: Seq<CellView>, col: int, k: int)
    requires
        0 <= col < line.len(),
        0 <= k < line.len(),
    ensures
        ({
            let rest = without_cluster(line, col);
            let start = cluster_start(rest, k);
            rest[start] is Empty || (start == cluster_start(line, k) && rest[start] == line[start])
        }),
    decreases k,
{
    let rest = without_cluster(line, col);
    if rest[k] == line[k] && k > 0 && line[k] is Continuation {
        removal_keeps_other_starts(line, col, k - 1);
    }
}

/// Removing a cluster lets no other reach further to the right.
proof fn removal_keeps_other_ends(line: Seq<CellView>, col: int, k: int, last: int)
    requires
        0 <= col < line.len(),
        0 <= k < last,
        k < line.len(),
        cluster_end(line, k) <= last,
    ensures
        cluster_end(without_cluster(line, col), k) <= last,
{
    removal_keeps_other_starts(line, col, k);
    cluster_start_bounds(without_cluster(line, col), k);
}

proof fn removal_keeps_the_right(line: Seq<CellView>, from: int, to: int, last: int)
    requires
        0 <= from,
        to <= last,
        to <= line.len(),
        forall|k: int| from <= k < to ==> #[trigger] cluster_end(line, k) <= last,
    ensures
        forall|i: int|
            last <= i < line.len() ==> #[trigger] without_clusters(line, from, to)[i] == line[i],
    decreases to - from,
{
    if from < to {
        let next = without_cluster(line, from);
        assert(cluster_end(line, from) <= last);
        assert forall|k: int| from + 1 <= k < to implies #[trigger] cluster_end(next, k) <= last by {
            assert(cluster_end(line, k) <= last);
            removal_keeps_other_ends(line, from, k, last);
        }
        removal_keeps_the_right(next, from + 1, to, last);
        assert forall|i: int| last <= i < line.len() implies #[trigger] without_clusters(
            line,
            from,
            to,
        )[i] == line[i] by {
            assert(without_clusters(next, from + 1, to)[i] == next[i]);
        }
    }
}

/// Putting a character over whole clusters keeps the cells to the right of
/// them.
pub proof fn placing_keeps_the_right(
    line: Seq<CellView>,
    col: int,
    c: char,
    width: int,
    last: int,
    i: int,
)
    requires
        0 <= col,
        1 <= width,
        col + width <= last <= i,
        forall|k: int|
            col <= k < col + width ==> #[trigger] cluster_end(padded(line, col + width), k) <= last,
        i < placed(line, col, c, width).len(),
    ensures
        i < line.len(),
        placed(line, col, c, width)[i] == line[i],
{
    let wide = padded(line, col + width);
    removal_keeps_the_right(wide, col, col + width, last);
    removal_keeps_length(wide, col, col + width);
    let full = overlaid(without_clusters(wide, col, col + width), col, c, width);
    trimming_tidies(full);
    assert(trimmed_line(full)[i] == full.take(trimmed_line(full).len() as int)[i]);
    assert(without_clusters(wide, col, col + width)[i] == wide[i]);
}

proof fn sweep_keeps_the_rest(line: Seq<CellView>, from: int, to: int, first: int, last: int)
    requires
        0 <= first <= from,
        to <= last,
        to <= line.len(),
        first == 0 || first >= line.len() || !(line[first] is Continuation),
        forall|k: int| from <= k < to ==> #[trigger] cluster_end(line, k) <= last,
    ensures
        forall|i: int|
            0 <= i < line.len() && (i < first || last <= i) ==> #[trigger] swept(line, from, to)[i]
                == line[i],
    decreases
            if to > from {
                to - from
            } else {
                0
            },
{
    if from < to && cluster_end(line, from) > from {
        let end = cluster_end(line, from);
        let next = without_cluster(line, from);
        left_bound_stays(line, from, first);
        cluster_start_bounds(line, from);
        assert forall|k: int| end <= k < to implies #[trigger] cluster_end(next, k) <= last by {
            assert(cluster_end(line, k) <= last);
            removal_keeps_other_ends(line, from, k, last);
        }
        sweep_keeps_the_rest(next, end, to, first, last);
        assert forall|i: int|
            0 <= i < line.len() && (i < first || last <= i) implies #[trigger] swept(line, from, to)[i]
            == line[i] by {
            assert(swept(next, end, to)[i] == next[i]);
        }
    }
}

/// Erasing a range keeps the cells outside of the clusters that it touches, as
/// far as the row still reaches.
pub proof fn erasing_keeps_the_rest(
    line: Seq<CellView>,
    from: int,
    to: int,
    first: int,
    last: int,
    i: int,
)
    requires
        0 <= first <= from < to <= last,
        first == 0 || first >= line.len() || !(line[first] is Continuation),
        forall|k: int|
            from <= k < to && k < line.len() ==> #[trigger] cluster_end(line, k) <= last,
        0 <= i < erased(line, from, to).len(),
        i < first || last <= i,
    ensures
        erased(line, from, to)[i] == line[i],
{
    let limit = at_most(to, line.len() as int);
    sweep_keeps_the_rest(line, from, limit, first, last);
    sweep_keeps_length(line, from, limit);
    let rest = swept(line, from, limit);
    trimming_tidies(rest);
    assert(trimmed_line(rest)[i] == rest.take(trimmed_line(rest).len() as int)[i]);
}

/// A cell that stands for one column by itself.
pub open spec fn narrow(cell: CellView) -> bool {
    !(cell is Continuation) && span(cell) == 1
}

proof fn sweep_blanks_narrow_cells(line: Seq<CellView>, from: int, to: int)
    requires
        0 <= from,
        to <= line.len(),
        forall|i: int| from <= i < to ==> narrow(#[trigger] line[i]),
    ensures
        passable(line, from, to),
        swept(line, from, to) == blanked(line, from, to),
    decreases
            if to > from {
                to - from
            } else {
                0
            },
{
    if from < to {
        assert(narrow(line[from]));
        let next = without_cluster(line, from);
        assert(cluster_end(line, from) == from + 1);
        assert(next =~= line.update(from, CellView::Empty));
        sweep_blanks_narrow_cells(next, from + 1, to);
        assert(blanked(next, from + 1, to) =~= blanked(line, from, to));
    } else {
        assert(blanked(line, from, to) =~= line);
    }
}

/// Cells of one column can be erased, and erasing them blanks them and nothing
/// else; blanks at the end of the row are cut off.
pub proof fn erasing_blanks_narrow_cells(line: Seq<CellView>, from: int, to: int)
    requires
        0 <= from < to,
        forall|i: int| from <= i < to && i < line.len() ==> narrow(#[trigger] line[i]),
    ensures
        erasable(line, from, to),
        erased(line, from, to) == trimmed_line(blanked(line, from, to)),
{
    let limit = at_most(to, line.len() as int);
    sweep_blanks_narrow_cells(line, from, limit);
    assert(blanked(line, from, limit) =~= blanked(line, from, to));
}

/// Marking a row keeps track of the changes.
proof fn marking_tracks(before: Seq<Seq<CellView>>, s: ScreenView, row: int)
    requires
        marks_changes(before, s),
        0 <= row <= s.rows.len(),
    ensures
        marks_changes(before, s.marked(row)),
        s.marked(row).dirty->Some_0 <= row,
{
    let t = s.marked(row);
    let first = t.dirty->Some_0;
    match s.dirty {
        None => {},
        Some(d) => {
            assert(s.rows.take(first) =~= s.rows.take(d).take(first));
            assert(before.take(first) =~= before.take(d).take(first));
        },
    }
}

/// Adding the row of the cursor keeps track of the changes.
proof fn adding_the_row_tracks(before: Seq<Seq<CellView>>, s: ScreenView)
    requires
        marks_changes(before, s),
        0 <= s.row,
        0 <= s.col,
        forall|i: int| 0 <= i < s.rows.len() ==> tidy(#[trigger] s.rows[i]),
    ensures
        tracks(before, s.with_cursor_row()),
        s.with_cursor_row().row == s.row,
        s.with_cursor_row().col == s.col,
        s.row < s.with_cursor_row().rows.len(),
        s.with_cursor_row().dirty is Some || s.dirty is None,
        s.dirty is Some ==> s.with_cursor_row().dirty->Some_0 <= s.dirty->Some_0,
{
    let t = s.with_cursor_row();
    if s.row >= s.rows.len() {
        marking_tracks(before, s, s.rows.len() as int);
        let first = t.dirty->Some_0;
        assert(t.rows.take(first) =~= s.rows.take(first));
    }
}

/// Touching the row of the cursor keeps track of the changes.
proof fn touching_tracks(before: Seq<Seq<CellView>>, s: ScreenView)
    requires
        tracks(before, s),
    ensures
        tracks(before, s.touched()),
        s.touched().row == s.row,
        s.touched().col == s.col,
        s.row < s.touched().rows.len(),
        s.touched().dirty is Some,
        s.touched().dirty->Some_0 <= s.row,
{
    marking_tracks(before, s, s.row);
    adding_the_row_tracks(before, s.marked(s.row));
}

/// A change to a row that is marked keeps track of the changes.
proof fn changing_tracks(before: Seq<Seq<CellView>>, s: ScreenView, row: int, line: Seq<CellView>)
    requires
        tracks(before, s),
        0 <= row < s.rows.len(),
        s.dirty is Some,
        s.dirty->Some_0 <= row,
        tidy(line),
    ensures
        tracks(before, (ScreenView { rows: s.rows.update(row, line), ..s })),
{
    let first = s.dirty->Some_0;
    assert(s.rows.update(row, line).take(first) =~= s.rows.take(first));
}

/// A combining mark leaves a row tidy.
proof fn combining_keeps_tidy(line: Seq<CellView>, col: int, mark: char)
    requires
        tidy(line),
    ensures
        tidy(combined(line, col, mark)),
{
    if line.len() > 0 && col > 0 {
        cluster_start_bounds(line, at_most(col - 1, line.len() - 1));
    }
}

/// Putting a character keeps track of the changes.
pub proof fn putting_tracks(before: Seq<Seq<CellView>>, s: ScreenView, c: char)
    requires
        tracks(before, s),
    ensures
        tracks(before, s.put(c)),
{
    touching_tracks(before, s);
    let t = s.touched();
    if columns(c) == 0 {
        combining_keeps_tidy(t.line(), s.col, c);
        changing_tracks(before, t, s.row, combined(t.line(), s.col, c));
    } else {
        placed_character_shows(t.line(), s.col, c, columns(c));
        changing_tracks(before, t, s.row, placed(t.line(), s.col, c, columns(c)));
    }
}

/// Putting blanks keeps track of the changes.
pub proof fn putting_blanks_tracks(before: Seq<Seq<CellView>>, s: ScreenView, count: int)
    requires
        tracks(before, s),
    ensures
        tracks(before, s.put_blanks(count)),
    decreases count,
{
    if count > 0 {
        putting_blanks_tracks(before, s, count - 1);
        putting_tracks(before, s.put_blanks(count - 1), ' ');
    }
}

/// Starting a new row keeps track of the changes.
pub proof fn new_line_tracks(before: Seq<Seq<CellView>>, s: ScreenView)
    requires
        tracks(before, s),
    ensures
        tracks(before, s.new_line()),
{
    adding_the_row_tracks(before, (ScreenView { row: s.row + 1, col: 0, ..s }));
}

/// Moving left keeps track of the changes.
pub proof fn moving_left_tracks(before: Seq<Seq<CellView>>, s: ScreenView, count: int)
    requires
        tracks(before, s),
    ensures
        tracks(before, s.left(count)),
    decreases count,
{
    if count > 0 {
        moving_left_tracks(before, s, count - 1);
        let t = s.left(count - 1);
        adding_the_row_tracks(before, t);
        let line = t.with_cursor_row().line();
        if t.col > 0 && t.col - 1 < line.len() {
            cluster_start_bounds(line, t.col - 1);
        }
    }
}

/// Moving right keeps track of the changes.
pub proof fn moving_right_tracks(before: Seq<Seq<CellView>>, s: ScreenView, count: int)
    requires
        tracks(before, s),
    ensures
        tracks(before, s.right(count)),
    decreases count,
{
    if count > 0 {
        moving_right_tracks(before, s, count - 1);
        adding_the_row_tracks(before, s.right(count - 1));
    }
}

/// Moving to a column keeps track of the changes.
pub proof fn moving_to_a_column_tracks(before: Seq<Seq<CellView>>, s: ScreenView, col: int)
    requires
        tracks(before, s),
        0 <= col,
    ensures
        tracks(before, s.at_column(col)),
{
    adding_the_row_tracks(before, s);
    cluster_start_bounds(s.with_cursor_row().line(), col);
}

/// Erasing in the row of the cursor keeps track of the changes.
pub proof fn erasing_a_line_tracks(before: Seq<Seq<CellView>>, s: ScreenView, mode: int)
    requires
        tracks(before, s),
    ensures
        tracks(before, s.erase_line(mode)),
        s.erase_line(mode).row == s.row,
        s.row < s.erase_line(mode).rows.len(),
{
    touching_tracks(before, s);
    let t = s.touched();
    let line = t.line();
    let next = if mode == 1 {
        erasing_tidies(line, 0, saturated(s.col + 1));
        erased(line, 0, saturated(s.col + 1))
    } else if mode == 2 {
        Seq::empty()
    } else {
        erasing_tidies(line, s.col, line.len() as int);
        erased(line, s.col, line.len() as int)
    };
    changing_tracks(before, t, s.row, next);
}

/// Emptying rows keeps track of the changes.
pub proof fn emptying_tracks(before: Seq<Seq<CellView>>, s: ScreenView, from: int, to: int)
    requires
        tracks(before, s),
        0 <= from,
    ensures
        tracks(before, s.emptied_rows(from, to)),
        s.emptied_rows(from, to).row == s.row,
        s.emptied_rows(from, to).rows.len() == s.rows.len(),
    decreases to - from,
{
    if from < to {
        emptying_tracks(before, s, from, to - 1);
        let t = s.emptied_rows(from, to - 1);
        let row = to - 1;
        if row < t.rows.len() && t.rows[row].len() > 0 {
            marking_tracks(before, t, row);
            changing_tracks(before, t.marked(row), row, Seq::empty());
        }
    }
}

/// Erasing in the display keeps track of the changes.
pub proof fn erasing_the_display_tracks(before: Seq<Seq<CellView>>, s: ScreenView, mode: int)
    requires
        tracks(before, s),
    ensures
        tracks(before, s.erase_display(mode)),
{
    adding_the_row_tracks(before, s);
    let t = s.with_cursor_row();
    if mode == 1 {
        emptying_tracks(before, t, 0, t.row);
        erasing_a_line_tracks(before, t.emptied_rows(0, t.row), 1);
    } else if mode == 2 {
        assert(before.take(0) =~= s.erase_display(mode).rows.take(0));
    } else {
        erasing_a_line_tracks(before, t, 0);
        let u = t.erase_line(0);
        emptying_tracks(before, u, u.row + 1, u.rows.len() as int);
    }
}

} // verus!
