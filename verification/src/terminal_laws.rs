//! What each control byte and each control sequence does to a screen.
use vstd::prelude::*;
use vstd::utf8::encode_utf8;

use crate::console::{counted, first_param, fits, fitting, is_control, plain, plain_events, played, stepped, update_shows, ConsoleTailUpdate, EventView};
use crate::console_laws::{cells, erasing_text_leaves_the_rest, printable_cells_are_narrow, replaced, text_events, text_replaces_cells, text_without_escape_is_plain};
use crate::screen::{at_most, blanked, char_width, cluster_columns, cluster_start, column_at, column_left, column_right, columns, overlaid, padded, placed, printable, rows_view, saturated, span, str_width, trimmed_line, without_cluster, without_clusters, CellView, ScreenView};
use crate::screen_laws::{marks_changes, narrow, placed_character_shows, tidy, trimming_tidies};

verus! {

/// Whether the row of the cursor holds the text, and nothing else; a row that is
/// not there holds none.
pub open spec fn row_holds(s: ScreenView, text: Seq<char>) -> bool {
    &&& 0 <= s.row
    &&& 0 <= s.col
    &&& if s.row < s.rows.len() {
        s.rows[s.row] == cells(text)
    } else {
        text.len() == 0
    }
}

/// Whether a control sequence has `n` as its first parameter, or none and `n` is
/// zero.
pub open spec fn first_is(params: Seq<Seq<u16>>, n: int) -> bool {
    if params.len() > 0 && params[0].len() > 0 {
        params[0][0] == n
    } else {
        n == 0
    }
}

proof fn row_is_touched(s: ScreenView, text: Seq<char>)
    requires
        row_holds(s, text),
    ensures
        s.touched().line() == cells(text),
        s.touched().rows == s.with_cursor_row().rows,
        s.with_cursor_row().line() == cells(text),
        s.with_cursor_row().row == s.row,
        s.with_cursor_row().col == s.col,
        s.with_cursor_row().rows.len() == (if s.row < s.rows.len() {
            s.rows.len() as int
        } else {
            s.row + 1
        }),
        forall|i: int|
            0 <= i < s.with_cursor_row().rows.len() ==> #[trigger] s.with_cursor_row().rows[i] == (
            if i < s.rows.len() {
                s.rows[i]
            } else {
                Seq::empty()
            }),
{
    assert(s.touched().rows =~= s.with_cursor_row().rows);
    if s.row >= s.rows.len() {
        assert(cells(text) =~= Seq::empty());
    }
}

proof fn emptying_empties(s: ScreenView, from: int, to: int)
    requires
        0 <= from,
        to <= s.rows.len(),
    ensures
        ({
            let t = s.emptied_rows(from, to);
            &&& t.rows.len() == s.rows.len()
            &&& t.row == s.row
            &&& t.col == s.col
            &&& forall|i: int|
                0 <= i < s.rows.len() ==> #[trigger] t.rows[i] == (if from <= i < to {
                    Seq::empty()
                } else {
                    s.rows[i]
                })
        }),
    decreases to - from,
{
    if from < to {
        emptying_empties(s, from, to - 1);
        let t = s.emptied_rows(from, to - 1);
        let u = s.emptied_rows(from, to);
        assert forall|i: int| 0 <= i < s.rows.len() implies #[trigger] u.rows[i] == (if from <= i
            < to {
            Seq::empty()
        } else {
            s.rows[i]
        }) by {
            if i == to - 1 && t.rows[i].len() == 0 {
                assert(t.rows[i] =~= Seq::empty());
            }
        }
    }
}

/// Erasing the display from the cursor on keeps the text before the cursor and
/// the rows above, and empties the rows below; the cursor stays.
pub proof fn erasing_on_keeps_what_is_before(
    s: ScreenView,
    text: Seq<char>,
    params: Seq<Seq<u16>>,
    n: int,
)
    requires
        row_holds(s, text),
        printable(text),
        first_is(params, n),
        n != 1,
        n != 2,
    ensures
        ({
            let event = EventView::Csi { params, action: 'J' };
            let t = stepped(s, event);
            &&& fits(s, event)
            &&& t.row == s.row
            &&& t.col == s.col
            &&& s.row < t.rows.len()
            &&& s.rows.len() <= t.rows.len()
            &&& t.rows[s.row] == cells(text.take(at_most(s.col, text.len() as int)))
            &&& forall|i: int| 0 <= i < s.row && i < s.rows.len() ==> #[trigger] t.rows[i] == s.rows[i]
            &&& forall|i: int| s.row < i < t.rows.len() ==> (#[trigger] t.rows[i]).len() == 0
        }),
{
    row_is_touched(s, text);
    let a = s.with_cursor_row();
    assert(row_holds(a, text));
    row_is_touched(a, text);
    erasing_text_leaves_the_rest(s, text);
    erasing_text_leaves_the_rest(a, text);
    let event = EventView::Csi { params, action: 'J' };
    assert(first_param(params) == n);
    let u = a.erase_line(0);
    emptying_empties(u, u.row + 1, u.rows.len() as int);
    assert(stepped(s, event) == s.erase_display(n));
    assert(s.can_erase_line(0));
}

/// Erasing the display up to the cursor empties the rows above, blanks the row of
/// the cursor up to and with the cursor, and keeps the text behind it in its
/// columns, and the rows below; the cursor stays.
pub proof fn erasing_up_to_keeps_what_is_behind(
    s: ScreenView,
    text: Seq<char>,
    params: Seq<Seq<u16>>,
)
    requires
        row_holds(s, text),
        printable(text),
        first_is(params, 1),
        s.col < usize::MAX,
    ensures
        ({
            let event = EventView::Csi { params, action: 'J' };
            let t = stepped(s, event);
            &&& fits(s, event)
            &&& t.row == s.row
            &&& t.col == s.col
            &&& s.row < t.rows.len()
            &&& s.rows.len() <= t.rows.len()
            &&& s.col + 1 >= text.len() ==> t.rows[s.row].len() == 0
            &&& s.col + 1 < text.len() ==> {
                &&& t.rows[s.row].len() == text.len()
                &&& forall|i: int|
                    0 <= i <= s.col ==> #[trigger] t.rows[s.row][i] == CellView::Empty
                &&& forall|i: int|
                    s.col < i < text.len() ==> #[trigger] t.rows[s.row][i] == CellView::Cluster(
                        seq![text[i]],
                    )
            }
            &&& forall|i: int| 0 <= i < s.row && i < t.rows.len() ==> (#[trigger] t.rows[i]).len() == 0
            &&& forall|i: int| s.row < i < s.rows.len() ==> #[trigger] t.rows[i] == s.rows[i]
        }),
{
    row_is_touched(s, text);
    let a = s.with_cursor_row();
    emptying_empties(a, 0, a.row);
    let b = a.emptied_rows(0, a.row);
    assert(b.rows[s.row] == cells(text));
    assert(row_holds(b, text));
    row_is_touched(b, text);
    erasing_text_leaves_the_rest(s, text);
    erasing_text_leaves_the_rest(b, text);
    let event = EventView::Csi { params, action: 'J' };
    assert(first_param(params) == 1);
    assert(stepped(s, event) == s.erase_display(1));
    assert(s.can_erase_line(1));
}

/// Erasing the whole display leaves no row, and puts the cursor at the start.
pub proof fn erasing_all_leaves_nothing(s: ScreenView, params: Seq<Seq<u16>>)
    requires
        first_is(params, 2),
    ensures
        ({
            let event = EventView::Csi { params, action: 'J' };
            let t = stepped(s, event);
            &&& fits(s, event)
            &&& t.rows.len() == 0
            &&& t.row == 0
            &&& t.col == 0
        }),
{
    assert(first_param(params) == 2);
}

/// Erasing in the row of the cursor changes no other row, and leaves the cursor:
/// from the cursor on it keeps the text before the cursor, up to the cursor the
/// text behind it in its columns, and else nothing.
pub proof fn erasing_in_the_row(
    s: ScreenView,
    text: Seq<char>,
    params: Seq<Seq<u16>>,
    n: int,
)
    requires
        row_holds(s, text),
        printable(text),
        first_is(params, n),
        s.col < usize::MAX,
    ensures
        ({
            let event = EventView::Csi { params, action: 'K' };
            let t = stepped(s, event);
            &&& fits(s, event)
            &&& t.row == s.row
            &&& t.col == s.col
            &&& s.row < t.rows.len()
            &&& s.rows.len() <= t.rows.len()
            &&& n != 1 && n != 2 ==> t.rows[s.row] == cells(
                text.take(at_most(s.col, text.len() as int)),
            )
            &&& n == 1 && s.col + 1 >= text.len() ==> t.rows[s.row].len() == 0
            &&& n == 1 && s.col + 1 < text.len() ==> {
                &&& t.rows[s.row].len() == text.len()
                &&& forall|i: int|
                    0 <= i <= s.col ==> #[trigger] t.rows[s.row][i] == CellView::Empty
                &&& forall|i: int|
                    s.col < i < text.len() ==> #[trigger] t.rows[s.row][i] == CellView::Cluster(
                        seq![text[i]],
                    )
            }
            &&& n == 2 ==> t.rows[s.row].len() == 0
            &&& forall|i: int|
                0 <= i < s.rows.len() && i != s.row ==> #[trigger] t.rows[i] == s.rows[i]
        }),
{
    row_is_touched(s, text);
    erasing_text_leaves_the_rest(s, text);
    let event = EventView::Csi { params, action: 'K' };
    assert(first_param(params) == n);
    assert(stepped(s, event) == s.erase_line(n));
    assert(s.can_erase_line(n));
    if n != 1 && n != 2 {
        assert(s.erase_line(n) == s.erase_line(0));
    }
}

/// The columns to the left and to the right of a column of text are the next
/// ones.
proof fn text_columns(text: Seq<char>, col: int)
    requires
        printable(text),
        0 <= col,
    ensures
        column_left(cells(text), col) == (if col > 0 {
            col - 1
        } else {
            0
        }),
        column_right(cells(text), col) == saturated(col + 1),
        column_at(cells(text), col) == col,
{
    let line = cells(text);
    printable_cells_are_narrow(text);
    if col < line.len() {
        assert(narrow(line[col]));
    }
}

proof fn moving_in_text(s: ScreenView, text: Seq<char>, count: int)
    requires
        row_holds(s, text),
        printable(text),
        0 <= count,
        s.col <= usize::MAX,
    ensures
        ({
            let l = s.left(count);
            let r = s.right(count);
            let rows = s.with_cursor_row().rows;
            &&& l.row == s.row && r.row == s.row
            &&& count > 0 ==> l.rows == rows && r.rows == rows
            &&& count == 0 ==> l == s && r == s
            &&& l.col == (if count <= s.col {
                s.col - count
            } else {
                0
            })
            &&& r.col == saturated(s.col + count)
        }),
    decreases count,
{
    if count > 0 {
        moving_in_text(s, text, count - 1);
        let l = s.left(count - 1);
        let r = s.right(count - 1);
        row_is_touched(s, text);
        let rows = s.with_cursor_row().rows;
        assert(row_holds(l, text));
        assert(row_holds(r, text));
        row_is_touched(l, text);
        row_is_touched(r, text);
        assert(l.with_cursor_row().rows =~= rows);
        assert(r.with_cursor_row().rows =~= rows);
        text_columns(text, l.col);
        text_columns(text, r.col);
    }
}

/// Whether no row of `s` is changed, and those that are added are empty.
pub open spec fn keeps_rows(s: ScreenView, t: ScreenView) -> bool {
    &&& s.rows.len() <= t.rows.len()
    &&& forall|i: int| 0 <= i < s.rows.len() ==> #[trigger] t.rows[i] == s.rows[i]
    &&& forall|i: int| s.rows.len() <= i < t.rows.len() ==> (#[trigger] t.rows[i]).len() == 0
}

/// The sequences that move the cursor in a row of text move it by their number of
/// columns to the right or to the left, no further than the first, or to the
/// column of their number; no number, or zero, counts as one. Nothing else is
/// changed.
pub proof fn cursor_moves_in_text(
    s: ScreenView,
    text: Seq<char>,
    params: Seq<Seq<u16>>,
    n: int,
)
    requires
        row_holds(s, text),
        printable(text),
        first_is(params, n),
        s.col + u16::MAX <= usize::MAX,
    ensures
        ({
            let count = if n == 0 {
                1
            } else {
                n
            };
            let right = stepped(s, EventView::Csi { params, action: 'C' });
            let left = stepped(s, EventView::Csi { params, action: 'D' });
            let to = stepped(s, EventView::Csi { params, action: 'G' });
            &&& fits(s, EventView::Csi { params, action: 'C' })
            &&& fits(s, EventView::Csi { params, action: 'D' })
            &&& fits(s, EventView::Csi { params, action: 'G' })
            &&& right.row == s.row && left.row == s.row && to.row == s.row
            &&& right.col == s.col + count
            &&& left.col == (if count <= s.col {
                s.col - count
            } else {
                0
            })
            &&& to.col == count - 1
            &&& keeps_rows(s, right) && keeps_rows(s, left) && keeps_rows(s, to)
        }),
{
    let count = if n == 0 {
        1
    } else {
        n
    };
    row_is_touched(s, text);
    assert(first_param(params) == n);
    assert(counted(n) == count);
    moving_in_text(s, text, count);
    text_columns(text, count - 1);
}

/// A backspace moves the cursor in a row of text to the left by one column, no
/// further than the first, and changes nothing else.
pub proof fn backspace_moves_left(s: ScreenView, text: Seq<char>)
    requires
        row_holds(s, text),
        printable(text),
        s.col <= usize::MAX,
    ensures
        ({
            let t = stepped(s, EventView::Execute('\u{8}' as u8));
            &&& t.row == s.row
            &&& t.col == (if s.col > 0 {
                s.col - 1
            } else {
                0
            })
            &&& keeps_rows(s, t)
        }),
{
    row_is_touched(s, text);
    moving_in_text(s, text, 1);
}

/// A carriage return puts the cursor at the start of its row, and changes nothing
/// else.
pub proof fn carriage_return_goes_to_the_start(s: ScreenView)
    ensures
        ({
            let t = stepped(s, EventView::Execute('\r' as u8));
            &&& t.rows == s.rows
            &&& t.row == s.row
            &&& t.col == 0
            &&& t.dirty == s.dirty
        }),
{
}

/// A line feed puts the cursor at the start of the next row, which is there then,
/// and keeps all rows.
pub proof fn line_feed_goes_to_the_next_row(s: ScreenView)
    requires
        0 <= s.row,
    ensures
        ({
            let t = stepped(s, EventView::Execute('\n' as u8));
            &&& t.row == s.row + 1
            &&& t.col == 0
            &&& keeps_rows(s, t)
            &&& t.rows.len() == (if s.row + 1 < s.rows.len() {
                s.rows.len() as int
            } else {
                s.row + 2
            })
        }),
{
}

/// The other control bytes do nothing.
pub proof fn other_bytes_do_nothing(s: ScreenView, byte: u8)
    requires
        byte != '\n' as u8,
        byte != '\r' as u8,
        byte != '\u{8}' as u8,
        byte != '\t' as u8,
    ensures
        stepped(s, EventView::Execute(byte)) == s,
        fits(s, EventView::Execute(byte)),
{
}

/// The other control sequences do nothing.
pub proof fn other_sequences_do_nothing(s: ScreenView, params: Seq<Seq<u16>>, action: char)
    requires
        action != 'C',
        action != 'D',
        action != 'G',
        action != 'J',
        action != 'K',
    ensures
        stepped(s, EventView::Csi { params, action }) == s,
        fits(s, EventView::Csi { params, action }),
{
}

/// `n` blanks.
pub open spec fn blanks(n: int) -> Seq<char> {
    Seq::new(n as nat, |i: int| ' ')
}

proof fn blanks_are_text(s: ScreenView, count: int)
    requires
        0 <= count,
    ensures
        s.put_blanks(count) == played(s, text_events(blanks(count))),
    decreases count,
{
    if count > 0 {
        blanks_are_text(s, count - 1);
        assert(text_events(blanks(count)).drop_last() =~= text_events(blanks(count - 1)));
        assert(text_events(blanks(count)).last() == EventView::Print(' '));
    }
}

/// A tab in a row of text puts blanks there up to the next column that is a
/// multiple of eight, which is where the cursor stands then; the rest of the text
/// and the other rows stay.
pub proof fn tab_puts_blanks(s: ScreenView, text: Seq<char>, stop: int)
    requires
        row_holds(s, text),
        printable(text),
        s.col <= text.len(),
        s.col < stop <= s.col + 8,
        stop % 8 == 0,
    ensures
        ({
            let t = stepped(s, EventView::Execute('\t' as u8));
            &&& t.row == s.row
            &&& t.col == stop
            &&& s.row < t.rows.len()
            &&& t.rows[s.row] == cells(replaced(text, s.col, blanks(stop - s.col)))
            &&& forall|i: int|
                0 <= i < s.rows.len() && i != s.row ==> #[trigger] t.rows[i] == s.rows[i]
        }),
{
    let count = stop - s.col;
    assert(s.next_stop() == stop);
    blanks_are_text(s, count);
    row_is_touched(s, text);
    printable_cells_are_narrow(text);
    let new = blanks(count);
    assert(printable(new));
    printable_cells_are_narrow(new);
    text_replaces_cells(s, new);
    assert(replaced(cells(text), s.col, cells(new)) =~= cells(replaced(text, s.col, new)));
}

/// A printed character of one column in a row of text takes the place of the
/// character at the cursor, or stands at the end, with the cursor behind it; the
/// other characters and rows stay.
pub proof fn printed_character_is_shown(s: ScreenView, text: Seq<char>, c: char)
    requires
        row_holds(s, text),
        printable(text),
        s.col <= text.len(),
        columns(c) == 1,
    ensures
        ({
            let t = stepped(s, EventView::Print(c));
            &&& t.row == s.row
            &&& t.col == s.col + 1
            &&& s.row < t.rows.len()
            &&& t.rows[s.row] == cells(
                if s.col < text.len() {
                    text.update(s.col, c)
                } else {
                    text.push(c)
                },
            )
            &&& forall|i: int|
                0 <= i < s.rows.len() && i != s.row ==> #[trigger] t.rows[i] == s.rows[i]
        }),
{
    row_is_touched(s, text);
    printable_cells_are_narrow(text);
    let new = seq![c];
    text_replaces_cells(s, new);
    assert(text_events(new).drop_last() =~= Seq::empty());
    assert(played(s, text_events(new)) == stepped(
        played(s, text_events(new).drop_last()),
        text_events(new).last(),
    ));
    assert(replaced(cells(text), s.col, cells(new)) =~= cells(
        if s.col < text.len() {
            text.update(s.col, c)
        } else {
            text.push(c)
        },
    ));
}

/// A mark without a column of its own joins the character that was printed
/// before it, and leaves the cursor.
pub proof fn mark_joins_its_character(s: ScreenView, c: char, mark: char)
    requires
        0 <= s.row,
        0 <= s.col,
        columns(c) == 1,
        columns(mark) == 0,
    ensures
        ({
            let before = stepped(s, EventView::Print(c));
            let t = stepped(before, EventView::Print(mark));
            &&& t.row == before.row
            &&& t.col == before.col
            &&& t.rows.len() == before.rows.len()
            &&& t.rows[s.row].len() == before.rows[s.row].len()
            &&& t.rows[s.row][s.col] == CellView::Cluster(seq![c, mark])
            &&& forall|i: int|
                0 <= i < t.rows[s.row].len() && i != s.col ==> #[trigger] t.rows[s.row][i]
                    == before.rows[s.row][i]
            &&& forall|i: int|
                0 <= i < t.rows.len() && i != s.row ==> #[trigger] t.rows[i] == before.rows[i]
        }),
{
    placed_character_shows(s.touched().line(), s.col, c, 1);
    let before = s.put(c);
    assert(before.touched().rows == before.rows);
    assert(before.line()[s.col] == CellView::Cluster(seq![c]));
    assert(seq![c].push(mark) =~= seq![c, mark]);
}

/// A mark at the start of a row has no character to join, and changes no row that
/// is there.
pub proof fn mark_without_character_is_lost(s: ScreenView, mark: char)
    requires
        0 <= s.row,
        s.col == 0,
        columns(mark) == 0,
    ensures
        ({
            let t = stepped(s, EventView::Print(mark));
            &&& t.row == s.row
            &&& t.col == 0
            &&& keeps_rows(s, t)
        }),
{
    let t = s.touched();
    assert(t.rows.update(s.row, t.line()) =~= t.rows);
}

/// A character takes the columns that are listed for it, and one where it is a
/// control character; a cluster takes at least one.
pub proof fn columns_are_as_listed(c: char, text: Seq<char>)
    ensures
        char_width(c) is None ==> columns(c) == 1,
        char_width(c) matches Some(width) ==> columns(c) == width,
        ' ' <= c && c <= '~' ==> columns(c) == 1,
        cluster_columns(text) >= 1,
        str_width(text) >= 1 ==> cluster_columns(text) == str_width(text),
{
}

/// The columns of a wide character behind the first are marked as belonging to
/// it, as far as the row reaches.
pub proof fn wide_character_covers_its_columns(
    line: Seq<CellView>,
    col: int,
    c: char,
    width: int,
    i: int,
)
    requires
        0 <= col < i < col + width,
        i < placed(line, col, c, width).len(),
    ensures
        placed(line, col, c, width)[i] == CellView::Continuation,
{
    let wide = padded(line, col + width);
    let full = overlaid(
        without_clusters(wide, col, col + width),
        col,
        c,
        width,
    );
    trimming_tidies(full);
    let r = placed(line, col, c, width);
    assert(r[i] == full.take(r.len() as int)[i]);
    assert(full[i] == CellView::Continuation);
}

/// A character that is put over one half of a wide one leaves a blank in the
/// place of the other half.
pub proof fn half_of_a_wide_character_is_blanked(line: Seq<CellView>, k: int, c: char)
    requires
        0 <= k,
        k + 1 < line.len(),
        line[k] is Cluster,
        span(line[k]) == 2,
        line[k + 1] is Continuation,
        tidy(line),
    ensures
        placed(line, k + 1, c, 1)[k] == CellView::Empty,
        k + 1 < placed(line, k, c, 1).len() ==> placed(line, k, c, 1)[k + 1] == CellView::Empty,
        forall|i: int|
            k + 1 < i < line.len() ==> #[trigger] placed(line, k + 1, c, 1)[i] == line[i],
{
    let rest = without_cluster(line, k);
    assert(rest =~= blanked(line, k, k + 2));
    let other = without_cluster(line, k + 1);
    assert(cluster_start(line, k + 1) == cluster_start(line, k));
    assert(cluster_start(line, k) == k);
    assert(other =~= blanked(line, k, k + 2));
    assert(padded(line, k + 1) == line);
    assert(padded(line, k + 2) == line);
    assert(without_clusters(line, k, k + 1) == without_clusters(
        rest,
        k + 1,
        k + 1,
    ));
    assert(without_clusters(line, k + 1, k + 2)
        == without_clusters(other, k + 2, k + 2));
    let a = overlaid(other, k + 1, c, 1);
    let b = overlaid(rest, k, c, 1);
    trimming_tidies(a);
    trimming_tidies(b);
    let ta = trimmed_line(a);
    let tb = trimmed_line(b);
    assert(a[k + 1] is Cluster);
    assert(ta =~= a.take(ta.len() as int));
    assert(tb =~= b.take(tb.len() as int));
    assert(a.last() is Cluster) by {
        if k + 2 < line.len() {
            assert(a.last() == line.last());
        }
    }
    assert(ta == a);
}

/// One event is one step, and no event is none.
pub proof fn one_event_is_one_step(s: ScreenView, event: EventView)
    ensures
        played(s, Seq::empty()) == s,
        played(s, seq![event]) == stepped(s, event),
{
    assert(seq![event].drop_last() =~= Seq::empty());
    assert(seq![event].last() == event);
    assert(played(s, seq![event].drop_last()) == s);
}

/// Events are carried out up to the first that does not fit, and every one before
/// it fits.
pub proof fn fitting_counts_to_the_first_misfit(s: ScreenView, events: Seq<EventView>)
    ensures
        0 <= fitting(s, events) <= events.len(),
        forall|i: int|
            0 <= i < fitting(s, events) ==> fits(played(s, #[trigger] events.take(i)), events[i]),
        fitting(s, events) < events.len() ==> !fits(
            played(s, events.take(fitting(s, events))),
            events[fitting(s, events)],
        ),
    decreases events.len(),
{
    if events.len() > 0 {
        let init = events.drop_last();
        fitting_counts_to_the_first_misfit(s, init);
        let before = fitting(s, init);
        assert forall|i: int| 0 <= i < fitting(s, events) implies fits(
            played(s, #[trigger] events.take(i)),
            events[i],
        ) by {
            if i < before {
                assert(init.take(i) =~= events.take(i));
                assert(init[i] == events[i]);
            } else {
                assert(events.take(i) =~= init);
            }
        }
        if before < init.len() {
            assert(init.take(before) =~= events.take(before));
            assert(init[before] == events[before]);
        } else {
            assert(events.take(before) =~= init);
        }
    }
}

/// What does not fit is a character without a column for the cursor behind it, a
/// line feed without a row below, a tab without a stop, or an erasure that cannot
/// be carried out.
pub proof fn what_does_not_fit(s: ScreenView, event: EventView)
    requires
        0 <= s.col,
        !fits(s, event),
    ensures
        match event {
            EventView::Print(c) => s.col + columns(c) > usize::MAX,
            EventView::Execute(byte) => {
                ||| byte == '\n' as u8 && s.row >= usize::MAX
                ||| byte == '\t' as u8 && s.col + 8 > usize::MAX
            },
            EventView::Csi { action, .. } => action == 'J' || action == 'K',
        },
{
}

/// Printing marks its row as changed, and a cursor that moves marks none.
pub proof fn printing_marks_its_row(s: ScreenView, c: char, params: Seq<Seq<u16>>)
    requires
        0 <= s.row < s.rows.len(),
        s.dirty is None,
    ensures
        stepped(s, EventView::Print(c)).dirty == Some(s.row),
        stepped(s, EventView::Csi { params, action: 'G' }).dirty is None,
{
}

/// A copy of the rows, cut where an update begins and continued by its rows, is
/// what the screen shows.
pub proof fn update_catches_up(
    before: Seq<Seq<CellView>>,
    s: ScreenView,
    update: ConsoleTailUpdate,
)
    requires
        marks_changes(before, s),
        update_shows(Some(update), s),
    ensures
        update.dirty_from_row <= before.len(),
        before.take(update.dirty_from_row as int) + rows_view(update.logical_rows@) == s.rows,
{
    let first = update.dirty_from_row as int;
    assert(s.rows =~= s.rows.take(first) + s.rows.skip(first));
}

/// A character of one column that is printed beyond the end of a row stands
/// there, with blanks between it and the text.
pub proof fn character_beyond_the_end(s: ScreenView, text: Seq<char>, c: char)
    requires
        row_holds(s, text),
        s.col >= text.len(),
        columns(c) == 1,
    ensures
        ({
            let t = stepped(s, EventView::Print(c));
            &&& t.row == s.row
            &&& t.col == s.col + 1
            &&& s.row < t.rows.len()
            &&& t.rows[s.row].len() == s.col + 1
            &&& forall|i: int|
                0 <= i < text.len() ==> #[trigger] t.rows[s.row][i] == CellView::Cluster(
                    seq![text[i]],
                )
            &&& forall|i: int|
                text.len() <= i < s.col ==> #[trigger] t.rows[s.row][i] == CellView::Empty
            &&& t.rows[s.row][s.col] == CellView::Cluster(seq![c])
            &&& forall|i: int|
                0 <= i < s.rows.len() && i != s.row ==> #[trigger] t.rows[i] == s.rows[i]
        }),
{
    row_is_touched(s, text);
    let line = cells(text);
    let col = s.col;
    let wide = padded(line, col + 1);
    assert(wide[col] == CellView::Empty);
    assert(without_cluster(wide, col) =~= wide);
    assert(without_clusters(wide, col, col + 1)
        == without_clusters(wide, col + 1, col + 1));
    let full = overlaid(wide, col, c, 1);
    assert(full.last() is Cluster);
    assert(trimmed_line(full) == full);
    assert(placed(line, col, c, 1) == full);
}

/// Of text without an escape every character is an event: those below the blank
/// and those from U+0080 to U+009F are control bytes, the others are shown.
pub proof fn characters_are_events(text: Seq<char>, i: int)
    requires
        0 <= i < text.len(),
        forall|k: int| 0 <= k < text.len() ==> #[trigger] text[k] != '\u{1b}',
    ensures
        plain(encode_utf8(text)),
        plain_events(encode_utf8(text)).len() == text.len(),
        plain_events(encode_utf8(text))[i] == (if (text[i] as u32) < 0x20 || (0x80 <= text[i] as u32
            && text[i] as u32 <= 0x9f) {
            EventView::Execute(text[i] as u8)
        } else {
            EventView::Print(text[i])
        }),
{
    text_without_escape_is_plain(text);
    control_characters(text[i]);
}

proof fn control_characters(c: char)
    ensures
        is_control(c) <==> (c as u32) < 0x20 || (0x80 <= c as u32 && c as u32 <= 0x9f),
{
}

} // verus!
