use model_assistant::console::{TerminalEvent, VirtualConsole};
use model_assistant::console_view::{ConsoleView, PropertyValue};
use model_assistant::screen::ScreenCell;
use model_assistant::surface::{ConsoleSurface, GridMetrics, Orientation};

fn shown(row: &[ScreenCell]) -> String {
    row.iter()
        .map(|cell| match cell {
            ScreenCell::Empty => "_".to_string(),
            ScreenCell::Cluster(text) => text.clone(),
            ScreenCell::Continuation => "+".to_string(),
        })
        .collect()
}

fn cells(text: &str) -> Vec<ScreenCell> {
    text.chars()
        .map(|c| match c {
            '_' => ScreenCell::Empty,
            '+' => ScreenCell::Continuation,
            _ => ScreenCell::Cluster(c.to_string()),
        })
        .collect()
}

fn output(console: &mut VirtualConsole, data: &[u8]) -> Option<(usize, Vec<String>)> {
    match console.push_output(data) {
        Ok(update) => update.map(|update| {
            (update.dirty_from_row, update.logical_rows.iter().map(|row| shown(row)).collect())
        }),
        Err(_) => panic!("something could not be carried out"),
    }
}

fn texts(items: &[&str]) -> Vec<String> {
    items.iter().map(|item| item.to_string()).collect()
}

fn surface_with(items: &[&str]) -> ConsoleSurface {
    let mut surface = ConsoleSurface::new();
    surface.replace_tail(0, items.iter().map(|item| cells(item)).collect());
    surface
}

fn view_rows(view: &ConsoleView) -> Vec<String> {
    let surface = view.surface();
    let lines = surface.visual_lines(1000);
    let mut rows = vec![String::new(); lines.len()];
    for place in surface.cluster_places(1000) {
        while rows[place.line].chars().count() < place.column {
            rows[place.line].push(' ');
        }
        rows[place.line].push_str(&place.text);
    }
    rows
}

#[test]
fn output_updates_the_tail() {
    let mut console = VirtualConsole::new();
    assert_eq!(output(&mut console, b"one\r\ntwo"), Some((0, texts(&["one", "two"]))));
    assert_eq!(output(&mut console, b"!\r\nthree"), Some((1, texts(&["two!", "three"]))));
    assert_eq!(output(&mut console, b""), None);
    assert_eq!(output(&mut console, b"\r"), None);
    assert_eq!(output(&mut console, b"T"), Some((2, texts(&["Three"]))));
}

#[test]
fn a_line_feed_returns_to_the_first_column() {
    let mut console = VirtualConsole::new();
    assert_eq!(output(&mut console, b"one\ntwo"), Some((0, texts(&["one", "two"]))));
}

#[test]
fn the_first_line_feed_adds_two_rows() {
    let mut console = VirtualConsole::new();
    assert_eq!(output(&mut console, b"\n"), Some((0, texts(&["", ""]))));
}

#[test]
fn progress_is_overwritten() {
    let mut console = VirtualConsole::new();
    output(&mut console, b"loading 10%");
    assert_eq!(output(&mut console, b"\rloading 99%"), Some((0, texts(&["loading 99%"]))));
    assert_eq!(output(&mut console, b"\r\x1b[Kdone"), Some((0, texts(&["done"]))));
}

#[test]
fn control_sequences_may_be_cut_anywhere() {
    let mut console = VirtualConsole::new();
    output(&mut console, b"abcdef\x1b[");
    assert_eq!(output(&mut console, b"3"), None);
    assert_eq!(output(&mut console, b"D*"), Some((0, texts(&["abc*ef"]))));
}

#[test]
fn characters_may_be_cut_anywhere() {
    let mut console = VirtualConsole::new();
    assert_eq!(output(&mut console, b"\xe6\xbc"), None);
    assert_eq!(output(&mut console, b"\xa2x"), Some((0, texts(&["\u{6f22}_x"]))));
}

#[test]
fn colours_are_passed_over() {
    let mut console = VirtualConsole::new();
    assert_eq!(output(&mut console, b"\x1b[1;31mred\x1b[0m"), Some((0, texts(&["red"]))));
}

#[test]
fn the_display_is_erased() {
    let mut console = VirtualConsole::new();
    output(&mut console, b"one\r\ntwo");
    assert_eq!(output(&mut console, b"\x1b[2Jnew"), Some((0, texts(&["new"]))));
}

#[test]
fn tabs_reach_their_stops() {
    let mut console = VirtualConsole::new();
    assert_eq!(output(&mut console, b"a\tb"), Some((0, texts(&["a       b"]))));
}

#[test]
fn plain_output_may_come_in_portions() {
    let data = b"one\r\n\ttwo\x08\x08 x\nthree";
    for cut in 0..data.len() {
        let mut whole = ConsoleView::builder().build();
        assert!(whole.append_output(data).is_ok());
        let mut parts = ConsoleView::builder().build();
        assert!(parts.append_output(&data[..cut]).is_ok());
        assert!(parts.append_output(&data[cut..]).is_ok());
        assert_eq!(view_rows(&whole), view_rows(&parts));
    }
}

#[test]
fn text_beyond_ascii_is_shown() {
    let mut console = VirtualConsole::new();
    assert_eq!(output(&mut console, "gr\u{fc}n \u{2713}".as_bytes()), Some((0, texts(&["gr\u{fc}n \u{2713}"]))));
    let mut console = VirtualConsole::new();
    output(&mut console, "\u{e9}t".as_bytes());
    assert_eq!(output(&mut console, "\u{e9}!".as_bytes()), Some((0, texts(&["\u{e9}t\u{e9}!"]))));
    let mut console = VirtualConsole::new();
    assert_eq!(output(&mut console, "a\u{85}b\u{9f}".as_bytes()), Some((0, texts(&["ab"]))));
}

#[test]
fn text_replaces_text_that_it_stands_on() {
    let mut console = VirtualConsole::new();
    output(&mut console, b"abcdef");
    assert_eq!(output(&mut console, b"\rXY"), Some((0, texts(&["XYcdef"]))));
    assert_eq!(output(&mut console, b"\x1b[6Gzzz"), Some((0, texts(&["XYcdezzz"]))));
}

#[test]
fn erasing_leaves_the_rest_of_the_text() {
    let mut console = VirtualConsole::new();
    output(&mut console, b"abcdef\x1b[4G");
    assert_eq!(output(&mut console, b"\x1b[K"), Some((0, texts(&["abc"]))));
    let mut console = VirtualConsole::new();
    output(&mut console, b"abcdef\x1b[4G");
    assert_eq!(output(&mut console, b"\x1b[1K"), Some((0, texts(&["____ef"]))));
    output(&mut console, b"\x1b[6G");
    assert_eq!(output(&mut console, b"\x1b[1K"), Some((0, texts(&[""]))));
}

#[test]
fn events_are_played_in_order() {
    let mut console = VirtualConsole::new();
    let events = vec![
        TerminalEvent::Print('a'),
        TerminalEvent::Print('b'),
        TerminalEvent::Execute(0x08),
        TerminalEvent::Print('c'),
        TerminalEvent::Csi { params: vec![vec![5]], action: 'G' },
        TerminalEvent::Print('d'),
    ];
    match console.apply_events(&events) {
        Ok(Some(update)) => {
            assert_eq!(update.dirty_from_row, 0);
            assert_eq!(shown(&update.logical_rows[0]), "ac__d");
        }
        _ => panic!("an update was expected"),
    }
}

#[test]
fn output_that_cannot_be_carried_out() {
    let mut console = VirtualConsole::default();
    output(&mut console, "abc\r\u{231a}\u{fe0e}".as_bytes());
    assert!(console.push_output(b"\r\x1b[Kx").is_err());
    let mut view = ConsoleView::builder().build();
    assert!(view.append_output("abc\r\u{231a}\u{fe0e}".as_bytes()).is_ok());
    let before = view_rows(&view);
    assert!(view.append_output(b"\r*\r\n\x1b[K").is_ok());
    assert_ne!(view_rows(&view), before);
    view.clear();
    assert!(view.append_output("abc\r\u{231a}\u{fe0e}".as_bytes()).is_ok());
    assert!(view.append_output(b"\n\x1b[1J\x08").is_ok());
    view.clear();
    assert!(view.append_output("abc\r\u{231a}\u{fe0e}".as_bytes()).is_ok());
    assert!(view.append_output(b"d\r\x1b[K").is_err());
    assert_eq!(view_rows(&view), before);
    view.clear();
    assert!(view.append_output(b"again").is_ok());
    assert_eq!(view_rows(&view), texts(&["again"]));
}

#[test]
fn clearing_forgets_everything() {
    let mut console = VirtualConsole::new();
    output(&mut console, b"one\r\ntwo\x1b[");
    console.clear();
    assert_eq!(output(&mut console, b"3"), Some((0, texts(&["3"]))));
}

#[test]
fn the_view_shows_the_screen() {
    let mut view = ConsoleView::builder().monospace(true).build();
    assert!(view.append_output(b"one\r\ntwo\r\nthree").is_ok());
    assert!(view.append_output(b"\x1b[2D!").is_ok());
    assert_eq!(view_rows(&view), texts(&["one", "two", "thr!e"]));
    assert!(view.append_output(b"\r\n").is_ok());
    assert_eq!(view_rows(&view).len(), 4);
    view.clear();
    assert_eq!(view_rows(&view).len(), 0);
    assert!(view.append_output(b"again").is_ok());
    assert_eq!(view_rows(&view), texts(&["again"]));
    assert!(view.monospace());
    assert!(view.surface().monospace());
    view.set_monospace(false);
    assert!(!view.surface().monospace());
}

#[test]
fn a_builder_hands_on_what_it_was_given() {
    let view = ConsoleView::builder()
        .margin_end(4)
        .orientation(Orientation::Vertical)
        .hexpand(true)
        .focusable(false)
        .build();
    let properties: Vec<(&str, PropertyValue)> =
        view.properties().iter().map(|property| (property.name, property.value)).collect();
    assert_eq!(
        properties,
        vec![
            ("orientation", PropertyValue::Orientation(Orientation::Vertical)),
            ("hexpand", PropertyValue::Switch(true)),
            ("focusable", PropertyValue::Switch(false)),
            ("margin-end", PropertyValue::Pixels(4)),
        ]
    );
    assert!(!view.monospace());
    let all = ConsoleView::builder()
        .vexpand(true)
        .margin_top(1)
        .margin_bottom(2)
        .margin_start(3)
        .monospace(true)
        .build();
    let names: Vec<&str> = all.properties().iter().map(|property| property.name).collect();
    assert_eq!(names, vec!["vexpand", "margin-top", "margin-bottom", "margin-start", "monospace"]);
    assert!(ConsoleView::builder().build().properties().is_empty());
}

#[test]
fn the_tail_is_replaced() {
    let mut surface = surface_with(&["one", "two", "three"]);
    surface.replace_tail(1, vec![cells("2"), cells("3"), cells("4")]);
    assert_eq!(surface.visual_row_count(10), 4);
    surface.replace_tail(9, vec![cells("5")]);
    assert_eq!(surface.visual_row_count(10), 5);
    surface.replace_tail(0, vec![]);
    assert_eq!(surface.max_columns(), 0);
    surface.set_monospace(true);
    assert!(surface.monospace());
    surface.clear();
    assert!(surface.monospace());
}

#[test]
fn lines_are_broken_at_the_width() {
    let row = cells("abcdefg");
    assert_eq!(ConsoleSurface::visual_break(&row, 0, 3), 3);
    assert_eq!(ConsoleSurface::visual_break(&row, 3, 3), 6);
    assert_eq!(ConsoleSurface::visual_break(&row, 6, 3), 7);
    assert_eq!(ConsoleSurface::visual_break(&row, 7, 3), 7);
    assert_eq!(ConsoleSurface::visual_break(&row, 2, usize::MAX), 7);
    assert_eq!(ConsoleSurface::visual_break(&row, 2, 0), 3);
    assert_eq!(ConsoleSurface::visual_break(&cells(""), 0, 3), 0);
}

#[test]
fn a_cluster_is_not_cut() {
    let row = cells("ab\u{6f22}+cd");
    assert_eq!(ConsoleSurface::visual_break(&row, 0, 3), 2);
    assert_eq!(ConsoleSurface::visual_break(&row, 2, 3), 5);
    assert_eq!(ConsoleSurface::visual_break(&row, 2, 1), 3);
    assert_eq!(ConsoleSurface::visual_break(&row, 3, 1), 4);
}

#[test]
fn visual_lines_cover_every_row() {
    let surface = surface_with(&["abcde", "", "ab\u{6f22}+c"]);
    let lines: Vec<(usize, usize, usize)> = surface
        .visual_lines(3)
        .iter()
        .map(|line| (line.row, line.start, line.end))
        .collect();
    assert_eq!(lines, vec![(0, 0, 3), (0, 3, 5), (1, 0, 0), (2, 0, 2), (2, 2, 5)]);
    assert_eq!(surface.visual_row_count(3), 5);
    assert_eq!(surface.visual_row_count(5), 3);
    assert_eq!(surface.max_columns(), 5);
}

#[test]
fn clusters_are_drawn_at_their_places() {
    let surface = surface_with(&["a_c", "ab\u{6f22}+c"]);
    let places: Vec<(String, usize, usize)> = surface
        .cluster_places(3)
        .iter()
        .map(|place| (place.text.clone(), place.column, place.line))
        .collect();
    assert_eq!(
        places,
        vec![
            ("a".to_string(), 0, 0),
            ("c".to_string(), 2, 0),
            ("a".to_string(), 0, 1),
            ("b".to_string(), 1, 1),
            ("\u{6f22}".to_string(), 0, 2),
            ("c".to_string(), 2, 2),
        ]
    );
}

#[test]
fn metrics_are_rounded() {
    let metrics = GridMetrics::for_font(8, 12 * 1024 + 512, 3 * 1024 + 511);
    assert_eq!(metrics, GridMetrics { cell_width: 9, cell_height: 16, baseline: 13 });
    let least = GridMetrics::for_font(0, -5000, -5000);
    assert_eq!(least, GridMetrics { cell_width: 2, cell_height: 1, baseline: 1 });
    assert_eq!(GridMetrics::for_font(i32::MAX, 0, 0).cell_width, i32::MAX);
}

#[test]
fn columns_that_fit() {
    let metrics = GridMetrics { cell_width: 9, cell_height: 16, baseline: 13 };
    assert_eq!(metrics.wrap_columns(90, 5), 10);
    assert_eq!(metrics.wrap_columns(89, 5), 9);
    assert_eq!(metrics.wrap_columns(3, 5), 1);
    assert_eq!(metrics.wrap_columns(0, 5), 5);
    assert_eq!(metrics.wrap_columns(-1, 0), 1);
    let thin = GridMetrics { cell_width: 0, cell_height: 0, baseline: 0 };
    assert_eq!(thin.wrap_columns(7, 5), 7);
}

#[test]
fn sizes_of_the_surface() {
    let metrics = GridMetrics { cell_width: 9, cell_height: 16, baseline: 13 };
    let surface = surface_with(&["abcde", "", "ab"]);
    assert_eq!(surface.measure(Orientation::Horizontal, -1, metrics), (9, 45));
    assert_eq!(surface.measure(Orientation::Vertical, -1, metrics), (48, 48));
    assert_eq!(surface.measure(Orientation::Vertical, 27, metrics), (64, 64));
    let empty = ConsoleSurface::new();
    assert_eq!(empty.measure(Orientation::Horizontal, -1, metrics), (9, 9));
    assert_eq!(empty.measure(Orientation::Vertical, -1, metrics), (0, 0));
    let huge = GridMetrics { cell_width: i32::MAX, cell_height: i32::MAX, baseline: 1 };
    assert_eq!(surface.measure(Orientation::Horizontal, -1, huge), (i32::MAX, i32::MAX));
    assert_eq!(surface.measure(Orientation::Vertical, -1, huge), (i32::MAX, i32::MAX));
}

#[test]
fn the_room_of_a_cluster() {
    let metrics = GridMetrics { cell_width: 9, cell_height: 16, baseline: 13 };
    let room = metrics.cluster_box(2, 11 * 1024 + 600);
    assert_eq!(room.clip_width, 18);
    assert_eq!(room.clip_height, 16);
    assert_eq!(room.layout_width, 18 * 1024);
    assert_eq!(room.shift_down, 1);
    assert_eq!(metrics.cluster_box(0, -2048).clip_width, 9);
    assert_eq!(metrics.cluster_box(0, -2048).shift_down, 13);
}
