use model_assistant::console::TerminalEvent;
use model_assistant::screen::{cluster_width, ScreenBuffer, ScreenCell};

fn shown(row: &[ScreenCell]) -> String {
    row.iter()
        .map(|cell| match cell {
            ScreenCell::Empty => "_".to_string(),
            ScreenCell::Cluster(text) => text.clone(),
            ScreenCell::Continuation => "+".to_string(),
        })
        .collect()
}

fn rows(screen: &ScreenBuffer) -> Vec<String> {
    screen.logical_rows_from(0).iter().map(|row| shown(row)).collect()
}

fn put(screen: &mut ScreenBuffer, text: &str) {
    for c in text.chars() {
        assert!(screen.print(c));
    }
}

fn screen_with(text: &str) -> ScreenBuffer {
    let mut screen = ScreenBuffer::new();
    put(&mut screen, text);
    screen
}

#[test]
fn widths_of_clusters() {
    assert_eq!(cluster_width("a"), 1);
    assert_eq!(cluster_width("\u{6f22}"), 2);
    assert_eq!(cluster_width(""), 1);
    assert_eq!(cluster_width("e\u{301}"), 1);
    assert_eq!(ScreenCell::Cluster("\u{6f22}".to_string()).step_width(), 2);
    assert_eq!(ScreenCell::Empty.step_width(), 1);
    assert_eq!(ScreenCell::Continuation.step_width(), 1);
}

#[test]
fn text_stands_in_its_row() {
    assert_eq!(rows(&screen_with("hello")), vec!["hello"]);
}

#[test]
fn a_wide_character_covers_two_columns() {
    assert_eq!(rows(&screen_with("a\u{6f22}b")), vec!["a\u{6f22}_b"]);
    let mut screen = screen_with("a\u{6f22}b");
    screen.carriage_return();
    put(&mut screen, "x\u{5b57}");
    assert_eq!(rows(&screen), vec!["x\u{5b57}+b"]);
}

#[test]
fn half_of_a_wide_character_removes_all_of_it() {
    let mut screen = screen_with("ab");
    screen.carriage_return();
    put(&mut screen, "\u{6f22}");
    assert_eq!(rows(&screen), vec!["\u{6f22}"]);
    let mut screen = screen_with("abcd");
    screen.carriage_return();
    put(&mut screen, "\u{6f22}");
    assert_eq!(rows(&screen), vec!["\u{6f22}+cd"]);
    screen.set_cursor_column(1);
    put(&mut screen, "x");
    assert_eq!(rows(&screen), vec!["x_cd"]);
}

#[test]
fn a_combining_mark_joins_the_cluster_before() {
    let mut screen = screen_with("e\u{301}x");
    assert_eq!(rows(&screen), vec!["e\u{301}x"]);
    screen.carriage_return();
    put(&mut screen, "\u{301}");
    assert_eq!(rows(&screen), vec!["e\u{301}x"]);
}

#[test]
fn a_combining_mark_alone_is_dropped() {
    assert_eq!(rows(&screen_with("\u{301}")), vec![""]);
}

#[test]
fn rows_below_are_added() {
    let mut screen = screen_with("one");
    screen.new_line();
    screen.new_line();
    put(&mut screen, "three");
    assert_eq!(rows(&screen), vec!["one", "", "three"]);
}

#[test]
fn backspace_moves_by_clusters() {
    let mut screen = screen_with("a\u{6f22}b");
    screen.backspace();
    screen.backspace();
    put(&mut screen, "x");
    assert_eq!(rows(&screen), vec!["a\u{6f22}xb"]);
    let mut screen = screen_with("abc");
    screen.move_left(9);
    put(&mut screen, "z");
    assert_eq!(rows(&screen), vec!["zbc"]);
}

#[test]
fn backspace_returns_to_a_character_that_stays() {
    let mut screen = screen_with("ab");
    screen.backspace();
    assert_eq!(rows(&screen), vec!["ab"]);
    put(&mut screen, "c");
    assert_eq!(rows(&screen), vec!["ac"]);
}

#[test]
fn tab_fills_up_to_the_stop() {
    let mut screen = screen_with("ab");
    screen.tab();
    put(&mut screen, "c");
    assert_eq!(rows(&screen), vec!["ab      c"]);
    screen.tab();
    put(&mut screen, "d");
    assert_eq!(rows(&screen), vec!["ab      c       d"]);
}

#[test]
fn moving_right_pads_the_row_when_text_follows() {
    let mut screen = screen_with("a");
    screen.move_right(3);
    assert_eq!(rows(&screen), vec!["a"]);
    put(&mut screen, "b");
    assert_eq!(rows(&screen), vec!["a___b"]);
}

#[test]
fn moving_right_steps_over_a_wide_character() {
    let mut screen = screen_with("abcd");
    screen.carriage_return();
    put(&mut screen, "\u{6f22}");
    screen.carriage_return();
    screen.move_right(1);
    put(&mut screen, "x");
    assert_eq!(rows(&screen), vec!["\u{6f22}+xd"]);
}

#[test]
fn a_column_inside_a_cluster_is_its_start() {
    let mut screen = screen_with("abcd");
    screen.carriage_return();
    put(&mut screen, "\u{6f22}");
    screen.set_cursor_column(1);
    put(&mut screen, "y");
    assert_eq!(rows(&screen), vec!["y_cd"]);
}

#[test]
fn erasing_in_a_line() {
    let mut screen = screen_with("abcdef");
    screen.set_cursor_column(3);
    screen.erase_in_line(0);
    assert_eq!(rows(&screen), vec!["abc"]);
    let mut screen = screen_with("abcdef");
    screen.set_cursor_column(2);
    screen.erase_in_line(1);
    assert_eq!(rows(&screen), vec!["___def"]);
    let mut screen = screen_with("abcdef");
    screen.erase_in_line(2);
    assert_eq!(rows(&screen), vec![""]);
    let mut screen = screen_with("abcdef");
    screen.erase_in_line(1);
    assert_eq!(rows(&screen), vec![""]);
}

#[test]
fn erasing_half_of_a_wide_character_removes_all_of_it() {
    let mut screen = screen_with("abcd");
    screen.carriage_return();
    put(&mut screen, "\u{6f22}");
    screen.set_cursor_column(0);
    screen.erase_in_line(1);
    assert_eq!(rows(&screen), vec!["__cd"]);
}

#[test]
fn erasing_in_the_display() {
    let mut screen = screen_with("one");
    screen.new_line();
    put(&mut screen, "two");
    screen.new_line();
    put(&mut screen, "three");
    screen.set_cursor_column(2);
    screen.erase_in_display(1);
    assert_eq!(rows(&screen), vec!["", "", "___ee"]);
    screen.erase_in_display(0);
    assert_eq!(rows(&screen), vec!["", "", ""]);
    put(&mut screen, "x");
    assert_eq!(rows(&screen), vec!["", "", "__x"]);
    screen.erase_in_display(2);
    assert_eq!(rows(&screen), Vec::<String>::new());
    put(&mut screen, "top");
    assert_eq!(rows(&screen), vec!["top"]);
}

#[test]
fn a_row_with_a_narrowed_cluster_cannot_be_erased_there() {
    let mut screen = screen_with("abc");
    screen.carriage_return();
    put(&mut screen, "\u{231a}");
    assert_eq!(rows(&screen), vec!["\u{231a}+c"]);
    assert!(screen.can_erase_in_line(1));
    put(&mut screen, "\u{fe0e}");
    assert_eq!(rows(&screen), vec!["\u{231a}\u{fe0e}+c"]);
    assert!(screen.can_erase_in_line(0));
    assert!(!screen.can_erase_in_line(1));
    assert!(screen.can_erase_in_line(2));
    assert!(screen.can_erase_in_display(0));
    assert!(!screen.can_erase_in_display(1));
    assert!(screen.can_erase_in_display(2));
    screen.carriage_return();
    assert!(!screen.can_erase_in_line(0));
    assert!(!screen.csi_dispatch(&vec![], 'K'));
    assert!(!screen.csi_dispatch(&vec![], 'J'));
    assert_eq!(rows(&screen), vec!["\u{231a}\u{fe0e}+c"]);
    assert!(screen.csi_dispatch(&vec![vec![2]], 'K'));
    assert_eq!(rows(&screen), vec![""]);
}

#[test]
fn a_row_that_is_not_there_can_be_erased() {
    let mut screen = ScreenBuffer::new();
    assert!(screen.can_erase_in_line(0));
    assert!(screen.can_erase_in_display(1));
    screen.erase_in_line(0);
    assert_eq!(rows(&screen), vec![""]);
}

#[test]
fn the_first_changed_row_is_marked() {
    let mut screen = screen_with("one");
    screen.new_line();
    put(&mut screen, "two");
    assert_eq!(screen.take_dirty_from_row(), Some(0));
    assert_eq!(screen.take_dirty_from_row(), None);
    put(&mut screen, "!");
    assert_eq!(screen.take_dirty_from_row(), Some(1));
    screen.new_line();
    assert_eq!(screen.take_dirty_from_row(), Some(2));
    screen.carriage_return();
    assert_eq!(screen.take_dirty_from_row(), None);
    put(&mut screen, "x");
    screen.begin_update();
    assert_eq!(screen.take_dirty_from_row(), None);
    assert_eq!(screen.logical_rows_from(1).len(), 2);
    assert_eq!(screen.logical_rows_from(9).len(), 0);
}

#[test]
fn an_empty_row_that_is_emptied_is_not_marked() {
    let mut screen = screen_with("one");
    screen.new_line();
    screen.new_line();
    screen.begin_update();
    screen.erase_in_display(1);
    assert_eq!(screen.take_dirty_from_row(), Some(0));
    screen.erase_in_display(1);
    assert_eq!(screen.take_dirty_from_row(), Some(2));
}

#[test]
fn room_for_the_cursor_is_checked() {
    let mut screen = ScreenBuffer::new();
    screen.set_cursor_column(usize::MAX);
    assert!(!screen.has_room_for('a'));
    assert!(screen.has_room_for('\u{301}'));
    assert!(!screen.has_tab_stop());
    assert!(screen.has_row_below());
    assert!(!screen.print('a'));
    assert!(!screen.execute(0x09));
    assert!(screen.execute(0x0d));
    assert!(screen.has_room_for('a'));
    assert!(screen.perform(&TerminalEvent::Print('a')));
    assert_eq!(rows(&screen), vec!["a"]);
}

#[test]
fn other_control_bytes_do_nothing() {
    let mut screen = screen_with("a");
    assert!(screen.execute(0x07));
    assert!(screen.execute(0x00));
    assert_eq!(rows(&screen), vec!["a"]);
}

#[test]
fn control_sequences_use_their_first_parameter() {
    let mut screen = screen_with("abcdef");
    assert!(screen.csi_dispatch(&vec![vec![3, 9], vec![1]], 'D'));
    put(&mut screen, "x");
    assert_eq!(rows(&screen), vec!["abcxef"]);
    assert!(screen.csi_dispatch(&vec![], 'G'));
    put(&mut screen, "y");
    assert_eq!(rows(&screen), vec!["ybcxef"]);
    assert!(screen.csi_dispatch(&vec![vec![0]], 'C'));
    put(&mut screen, "z");
    assert_eq!(rows(&screen), vec!["ybzxef"]);
    assert!(screen.csi_dispatch(&vec![vec![2]], 'K'));
    assert_eq!(rows(&screen), vec![""]);
    assert!(screen.csi_dispatch(&vec![vec![2]], 'J'));
    assert_eq!(rows(&screen), Vec::<String>::new());
    assert!(screen.csi_dispatch(&vec![vec![5]], 'A'));
    assert_eq!(rows(&screen), Vec::<String>::new());
}
