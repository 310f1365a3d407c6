//! What holds of a console whatever is put out on it.
use vstd::prelude::*;
use vstd::utf8::{encode_utf8, encode_utf8_decode_utf8, encode_utf8_valid_utf8, valid_utf8_concat};

use crate::console::{blank_screen, counted, first_param, is_control, plain, plain_event, plain_events, played, stepped, EventView};
use crate::encoding::{bytes_are_without, decoding_of_both};
use crate::screen::{at_most, blanked, columns, overlaid, padded, placed, printable, saturated, trimmed_line, without_cluster, without_clusters, CellView, ScreenView};
use crate::screen_laws::{erasing_a_line_tracks, erasing_blanks_narrow_cells, erasing_the_display_tracks, marks_changes, moving_left_tracks, moving_right_tracks, moving_to_a_column_tracks, narrow, new_line_tracks, placed_character_shows, putting_blanks_tracks, putting_tracks, sound, tidy, tracks, trimming_tidies};

verus! {

/// Every event leaves the screen sound, with all changes marked.
pub proof fn every_event_tracks(before: Seq<Seq<CellView>>, s: ScreenView, event: EventView)
    requires
        tracks(before, s),
    ensures
        tracks(before, stepped(s, event)),
{
    match event {
        EventView::Print(c) => {
            putting_tracks(before, s, c);
        },
        EventView::Execute(byte) => {
            if byte == 0x0a {
                new_line_tracks(before, s);
            } else if byte == 0x08 {
                moving_left_tracks(before, s, 1);
            } else if byte == 0x09 {
                putting_blanks_tracks(before, s, s.next_stop() - s.col);
            }
        },
        EventView::Csi { params, action } => {
            let n = first_param(params);
            if action == 'C' {
                moving_right_tracks(before, s, counted(n));
            } else if action == 'D' {
                moving_left_tracks(before, s, counted(n));
            } else if action == 'G' {
                moving_to_a_column_tracks(before, s, counted(n) - 1);
            } else if action == 'J' {
                erasing_the_display_tracks(before, s, n);
            } else if action == 'K' {
                erasing_a_line_tracks(before, s, n);
            }
        },
    }
}

/// Any list of events leaves the screen sound, with all changes marked.
pub proof fn events_track(before: Seq<Seq<CellView>>, s: ScreenView, events: Seq<EventView>)
    requires
        tracks(before, s),
    ensures
        tracks(before, played(s, events)),
    decreases events.len(),
{
    if events.len() > 0 {
        events_track(before, s, events.drop_last());
        every_event_tracks(before, played(s, events.drop_last()), events.last());
    }
}

/// A blank screen is sound.
pub proof fn blank_screen_is_sound()
    ensures
        sound(blank_screen()),
{
}

/// Events may be played in portions.
pub proof fn portions_add_up(s: ScreenView, first: Seq<EventView>, second: Seq<EventView>)
    ensures
        played(s, first + second) == played(played(s, first), second),
    decreases second.len(),
{
    if second.len() > 0 {
        portions_add_up(s, first, second.drop_last());
        assert((first + second).drop_last() =~= first + second.drop_last());
    } else {
        assert(first + second =~= first);
    }
}

/// A copy of the rows, cut at the first changed row and continued by the rows
/// from there on, is what the screen shows.
pub proof fn tail_update_catches_up(
    before: Seq<Seq<CellView>>,
    s: ScreenView,
)
    requires
        marks_changes(before, s),
        s.dirty is Some,
    ensures
        before.take(s.dirty->Some_0) + s.rows.skip(s.dirty->Some_0) == s.rows,
{
    let first = s.dirty->Some_0;
    assert(s.rows =~= s.rows.take(first) + s.rows.skip(first));
}

/// The event that shows `c`.
pub open spec fn shown(c: char) -> EventView {
    EventView::Print(c)
}

/// The events that show `text`.
pub open spec fn text_events(text: Seq<char>) -> Seq<EventView> {
    text.map_values(|c: char| shown(c))
}

/// The cells that `text` takes where each character takes one column.
pub open spec fn cells(text: Seq<char>) -> Seq<CellView> {
    text.map_values(|c: char| CellView::Cluster(seq![c]))
}

/// A character of one column, put at the end of a row, extends the row by one
/// cell.
pub proof fn appending_extends_the_row(line: Seq<CellView>, c: char)
    ensures
        placed(line, line.len() as int, c, 1) == line.push(CellView::Cluster(seq![c])),
{
    let col = line.len() as int;
    let wide = padded(line, col + 1);
    assert(wide =~= line.push(CellView::Empty));
    assert(without_cluster(wide, col) =~= wide);
    assert(without_clusters(without_cluster(wide, col), col + 1, col + 1) == wide);
    let full = overlaid(wide, col, c, 1);
    assert(full =~= line.push(CellView::Cluster(seq![c])));
    assert(trimmed_line(full) == full);
}

/// A character of one column, put over a cell of one column, takes its place.
pub proof fn overwriting_replaces(line: Seq<CellView>, col: int, c: char)
    requires
        0 <= col < line.len(),
        narrow(line[col]),
        tidy(line),
    ensures
        placed(line, col, c, 1) == line.update(col, CellView::Cluster(seq![c])),
{
    assert(padded(line, col + 1) == line);
    let rest = without_cluster(line, col);
    assert(rest =~= line.update(col, CellView::Empty));
    assert(without_clusters(rest, col + 1, col + 1) == rest);
    let full = overlaid(rest, col, c, 1);
    assert(full =~= line.update(col, CellView::Cluster(seq![c])));
    assert(full.last() is Cluster);
    assert(trimmed_line(full) == full);
}

/// Text of characters of one column, put out with the cursor at the end of its
/// row, stands at the end of that row, with the cursor behind it; the other
/// rows stay as they are.
pub proof fn text_is_shown(s: ScreenView, text: Seq<char>)
    requires
        0 <= s.row,
        s.col == s.touched().line().len(),
        text.len() > 0,
        forall|i: int| 0 <= i < text.len() ==> columns(#[trigger] text[i]) == 1,
    ensures
        played(s, text_events(text)).rows == s.touched().rows.update(
            s.row,
            s.touched().line() + cells(text),
        ),
        played(s, text_events(text)).row == s.row,
        played(s, text_events(text)).col == s.col + text.len(),
    decreases text.len(),
{
    let init = text.drop_last();
    let c = text.last();
    let t = s.touched();
    let u = played(s, text_events(init));
    assert(text_events(text).drop_last() =~= text_events(init));
    assert(cells(text) =~= cells(init).push(CellView::Cluster(seq![c])));
    assert(text_events(text).last() == EventView::Print(c));
    if init.len() > 0 {
        assert forall|i: int| 0 <= i < init.len() implies columns(#[trigger] init[i]) == 1 by {
            assert(init[i] == text[i]);
        }
        text_is_shown(s, init);
        assert(u.touched().rows == u.rows);
    } else {
        assert(u == s);
        assert(t.line() + cells(init) =~= t.line());
    }
    let line = u.touched().line();
    assert(line == t.line() + cells(init));
    appending_extends_the_row(line, c);
    assert(line.push(CellView::Cluster(seq![c])) =~= t.line() + cells(text));
    assert(u.put(c).rows =~= t.rows.update(s.row, t.line() + cells(text)));
}

/// `items` with `new` in the place of as many items from `at` on, and longer
/// where `new` reaches beyond the end.
pub open spec fn replaced<A>(items: Seq<A>, at: int, new: Seq<A>) -> Seq<A> {
    Seq::new(
        if at + new.len() > items.len() {
            (at + new.len()) as nat
        } else {
            items.len()
        },
        |i: int|
            if at <= i < at + new.len() {
                new[i - at]
            } else {
                items[i]
            },
    )
}

/// Text of characters of one column, put out over cells of one column, takes
/// their place and that of nothing else, with the cursor behind it; the other
/// rows stay as they are.
pub proof fn text_replaces_cells(s: ScreenView, text: Seq<char>)
    requires
        0 <= s.row,
        0 <= s.col <= s.touched().line().len(),
        tidy(s.touched().line()),
        forall|i: int|
            s.col <= i < s.col + text.len() && i < s.touched().line().len() ==> narrow(
                #[trigger] s.touched().line()[i],
            ),
        text.len() > 0,
        forall|i: int| 0 <= i < text.len() ==> columns(#[trigger] text[i]) == 1,
    ensures
        played(s, text_events(text)).rows == s.touched().rows.update(
            s.row,
            replaced(s.touched().line(), s.col, cells(text)),
        ),
        played(s, text_events(text)).row == s.row,
        played(s, text_events(text)).col == s.col + text.len(),
    decreases text.len(),
{
    let init = text.drop_last();
    let c = text.last();
    let t = s.touched();
    let u = played(s, text_events(init));
    assert(text_events(text).drop_last() =~= text_events(init));
    assert(cells(text) =~= cells(init).push(CellView::Cluster(seq![c])));
    assert(text_events(text).last() == EventView::Print(c));
    if init.len() > 0 {
        assert forall|i: int| 0 <= i < init.len() implies columns(#[trigger] init[i]) == 1 by {
            assert(init[i] == text[i]);
        }
        text_replaces_cells(s, init);
        assert(u.touched().rows == u.rows);
    } else {
        assert(u == s);
        assert(replaced(t.line(), s.col, cells(init)) =~= t.line());
    }
    let line = u.touched().line();
    assert(line == replaced(t.line(), s.col, cells(init)));
    let col = s.col + init.len();
    if col < line.len() {
        assert(line[col] == t.line()[col]);
        assert(line.last() == t.line().last());
        overwriting_replaces(line, col, c);
    } else {
        appending_extends_the_row(line, c);
    }
    assert(placed(line, col, c, 1) =~= replaced(t.line(), s.col, cells(text)));
    assert(u.put(c).rows =~= t.rows.update(s.row, replaced(t.line(), s.col, cells(text))));
}

/// The cells of printable ASCII text take one column each.
pub proof fn printable_cells_are_narrow(text: Seq<char>)
    requires
        printable(text),
    ensures
        forall|i: int| 0 <= i < text.len() ==> narrow(#[trigger] cells(text)[i]),
        forall|i: int| 0 <= i < text.len() ==> columns(#[trigger] text[i]) == 1,
        tidy(cells(text)),
{
    assert forall|i: int| 0 <= i < text.len() implies narrow(#[trigger] cells(text)[i]) by {
        assert(' ' <= text[i] && text[i] <= '~');
        assert(printable(seq![text[i]]));
    }
}

/// A row of printable ASCII text can always be erased. From the cursor on, the
/// text before the cursor is left; up to the cursor, the text behind it is, in
/// its columns.
pub proof fn erasing_text_leaves_the_rest(s: ScreenView, text: Seq<char>)
    requires
        0 <= s.row,
        0 <= s.col,
        s.touched().line() == cells(text),
        printable(text),
    ensures
        forall|mode: int| #[trigger] s.can_erase_line(mode),
        s.erase_line(0).rows == s.touched().rows.update(
            s.row,
            cells(text.take(at_most(s.col, text.len() as int))),
        ),
        ({
            let end = saturated(s.col + 1);
            s.erase_line(1).rows == s.touched().rows.update(
                s.row,
                if end < text.len() {
                    blanked(cells(text), 0, end)
                } else {
                    Seq::empty()
                },
            )
        }),
        s.erase_line(2).rows == s.touched().rows.update(s.row, Seq::empty()),
{
    let line = cells(text);
    let len = text.len() as int;
    let end = saturated(s.col + 1);
    printable_cells_are_narrow(text);
    erasing_blanks_narrow_cells(line, 0, end);
    let front = blanked(line, 0, end);
    trimming_tidies(front);
    if end < len {
        assert(front.last() is Cluster);
    } else if trimmed_line(front).len() > 0 {
        assert(trimmed_line(front).last() == front[trimmed_line(front).len() - 1]);
    }
    assert(end >= len ==> trimmed_line(front) =~= Seq::empty());
    if s.col < len {
        erasing_blanks_narrow_cells(line, s.col, len);
        let back = blanked(line, s.col, len);
        trimming_tidies(back);
        let left = trimmed_line(back);
        if left.len() > s.col {
            assert(left.last() == back[left.len() - 1]);
        } else if left.len() < s.col {
            assert(back[left.len() as int] is Cluster);
        }
        assert(left =~= cells(text.take(s.col)));
    } else {
        assert(text.take(len) =~= text);
    }
}

/// The bytes of a text without an escape are plain, and ask for what its
/// characters do.
pub proof fn text_without_escape_is_plain(text: Seq<char>)
    requires
        forall|i: int| 0 <= i < text.len() ==> #[trigger] text[i] != '\u{1b}',
    ensures
        plain(encode_utf8(text)),
        plain_events(encode_utf8(text)) == text.map_values(|c: char| plain_event(c)),
{
    encode_utf8_valid_utf8(text);
    encode_utf8_decode_utf8(text);
    bytes_are_without(text, '\u{1b}');
}

/// The bytes of a text without control characters ask for it to be shown.
pub proof fn text_without_control_is_shown(text: Seq<char>)
    requires
        forall|i: int| 0 <= i < text.len() ==> !is_control(#[trigger] text[i]),
    ensures
        plain(encode_utf8(text)),
        plain_events(encode_utf8(text)) == text_events(text),
{
    assert forall|i: int| 0 <= i < text.len() implies #[trigger] text[i] != '\u{1b}' by {
        assert(!is_control(text[i]));
    }
    text_without_escape_is_plain(text);
    assert(plain_events(encode_utf8(text)) =~= text_events(text));
}

/// The bytes of text of characters of one column, put out with the cursor at the
/// end of its row, put the text at the end of that row, with the cursor behind
/// it; the other rows stay as they are.
pub proof fn plain_text_is_shown(s: ScreenView, text: Seq<char>)
    requires
        0 <= s.row,
        s.col == s.touched().line().len(),
        text.len() > 0,
        forall|i: int|
            0 <= i < text.len() ==> !is_control(#[trigger] text[i]) && columns(text[i]) == 1,
    ensures
        plain(encode_utf8(text)),
        ({
            let end = played(s, plain_events(encode_utf8(text)));
            &&& end.rows == s.touched().rows.update(s.row, s.touched().line() + cells(text))
            &&& end.row == s.row
            &&& end.col == s.col + text.len()
        }),
{
    text_without_control_is_shown(text);
    text_is_shown(s, text);
}

/// The bytes of printable ASCII text, put out over a row of such text, replace
/// the characters that they stand on and no other.
pub proof fn text_replaces_text(s: ScreenView, old_text: Seq<char>, text: Seq<char>)
    requires
        0 <= s.row,
        s.touched().line() == cells(old_text),
        0 <= s.col <= old_text.len(),
        printable(old_text),
        printable(text),
        text.len() > 0,
    ensures
        plain(encode_utf8(text)),
        ({
            let end = played(s, plain_events(encode_utf8(text)));
            &&& end.rows == s.touched().rows.update(
                s.row,
                cells(replaced(old_text, s.col, text)),
            )
            &&& end.row == s.row
            &&& end.col == s.col + text.len()
        }),
{
    printable_cells_are_narrow(old_text);
    printable_cells_are_narrow(text);
    text_without_control_is_shown(text);
    text_replaces_cells(s, text);
    assert(replaced(cells(old_text), s.col, cells(text)) =~= cells(
        replaced(old_text, s.col, text),
    ));
}

/// Two screens that show the same, whatever they mark as changed.
pub open spec fn same_picture(s: ScreenView, t: ScreenView) -> bool {
    s.rows == t.rows && s.row == t.row && s.col == t.col
}

proof fn blanks_keep_the_picture(s: ScreenView, t: ScreenView, count: int)
    requires
        same_picture(s, t),
    ensures
        same_picture(s.put_blanks(count), t.put_blanks(count)),
    decreases count,
{
    if count > 0 {
        blanks_keep_the_picture(s, t, count - 1);
    }
}

proof fn moves_keep_the_picture(s: ScreenView, t: ScreenView, count: int)
    requires
        same_picture(s, t),
    ensures
        same_picture(s.left(count), t.left(count)),
        same_picture(s.right(count), t.right(count)),
    decreases count,
{
    if count > 0 {
        moves_keep_the_picture(s, t, count - 1);
    }
}

proof fn emptying_keeps_the_picture(s: ScreenView, t: ScreenView, from: int, to: int)
    requires
        same_picture(s, t),
    ensures
        same_picture(s.emptied_rows(from, to), t.emptied_rows(from, to)),
    decreases to - from,
{
    if from < to {
        emptying_keeps_the_picture(s, t, from, to - 1);
    }
}

/// What an event shows does not depend on what was marked as changed before.
pub proof fn marks_do_not_matter(s: ScreenView, t: ScreenView, event: EventView)
    requires
        same_picture(s, t),
    ensures
        same_picture(stepped(s, event), stepped(t, event)),
{
    match event {
        EventView::Print(c) => {},
        EventView::Execute(byte) => {
            blanks_keep_the_picture(s, t, s.next_stop() - s.col);
            moves_keep_the_picture(s, t, 1);
        },
        EventView::Csi { params, action } => {
            let n = first_param(params);
            moves_keep_the_picture(s, t, counted(n));
            let a = s.with_cursor_row();
            let b = t.with_cursor_row();
            assert(same_picture(a, b));
            emptying_keeps_the_picture(a, b, 0, a.row);
            assert(same_picture(a.erase_line(0), b.erase_line(0)));
            let u = a.erase_line(0);
            emptying_keeps_the_picture(u, b.erase_line(0), u.row + 1, u.rows.len() as int);
        },
    }
}

/// What events show does not depend on what was marked as changed before.
pub proof fn marks_never_matter(s: ScreenView, t: ScreenView, events: Seq<EventView>)
    requires
        same_picture(s, t),
    ensures
        same_picture(played(s, events), played(t, events)),
    decreases events.len(),
{
    if events.len() > 0 {
        marks_never_matter(s, t, events.drop_last());
        marks_do_not_matter(
            played(s, events.drop_last()),
            played(t, events.drop_last()),
            events.last(),
        );
    }
}

/// Plain output shows the same whether it comes in one portion or in two.
pub proof fn plain_output_may_be_cut(s: ScreenView, first: Seq<u8>, second: Seq<u8>)
    requires
        plain(first),
        plain(second),
    ensures
        plain(first + second),
        same_picture(
            played(s.unmarked(), plain_events(first + second)),
            played(played(s.unmarked(), plain_events(first)).unmarked(), plain_events(second)),
        ),
{
    let middle = played(s.unmarked(), plain_events(first));
    valid_utf8_concat(first, second);
    decoding_of_both(first, second);
    assert(plain_events(first + second) =~= plain_events(first) + plain_events(second));
    portions_add_up(s.unmarked(), plain_events(first), plain_events(second));
    marks_never_matter(middle, middle.unmarked(), plain_events(second));
}

/// A tab moves the cursor to the next column that is a multiple of eight.
pub proof fn tab_reaches_its_stop(s: ScreenView)
    requires
        0 <= s.col,
    ensures
        ({
            let t = stepped(s, EventView::Execute(0x09));
            &&& s.col < t.col <= s.col + 8
            &&& t.col % 8 == 0
            &&& t.row == s.row
        }),
{
    blanks_advance(s, s.next_stop() - s.col);
}

proof fn blanks_advance(s: ScreenView, count: int)
    requires
        0 <= count,
    ensures
        s.put_blanks(count).col == s.col + count,
        s.put_blanks(count).row == s.row,
    decreases count,
{
    if count > 0 {
        blanks_advance(s, count - 1);
    }
}

/// A backspace after a character of one column brings the cursor back to that
/// character, which stays.
pub proof fn backspace_returns_to_the_character(s: ScreenView, c: char)
    requires
        0 <= s.row,
        0 <= s.col,
        columns(c) == 1,
    ensures
        ({
            let shown = s.put(c);
            let back = stepped(shown, EventView::Execute(0x08));
            &&& back.col == s.col
            &&& back.row == s.row
            &&& back.rows == shown.rows
        }),
{
    let shown = s.put(c);
    placed_character_shows(s.touched().line(), s.col, c, 1);
    assert(shown.line()[s.col] is Cluster);
    assert(shown.left(0) == shown);
    assert(shown.with_cursor_row() == shown);
}

/// Erasing the whole display leaves a screen without rows, with the cursor at
/// its start.
pub proof fn erasing_the_display_clears_it(s: ScreenView)
    ensures
        same_picture(s.erase_display(2), blank_screen()),
{
}

} // verus!
