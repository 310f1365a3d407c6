//! A console: terminal output parsed into events, and the events played on a
//! screen.
use vstd::prelude::*;
use vstd::utf8::{decode_utf8, valid_utf8};

use crate::screen::{at_most, columns, rows_view, ScreenBuffer, ScreenCell, ScreenView};

verus! {

/// What a terminal parser reports of the bytes that it is fed.
pub enum TerminalEvent {
    /// A character to show.
    Print(char),
    /// A control byte.
    Execute(u8),
    /// A control sequence with its groups of parameters.
    Csi { params: Vec<Vec<u16>>, action: char },
}

pub enum EventView {
    Print(char),
    Execute(u8),
    Csi { params: Seq<Seq<u16>>, action: char },
}

impl View for TerminalEvent {
    type V = EventView;

    open spec fn view(&self) -> EventView {
        match self {
            TerminalEvent::Print(c) => EventView::Print(*c),
            TerminalEvent::Execute(byte) => EventView::Execute(*byte),
            TerminalEvent::Csi { params, action } => EventView::Csi {
                params: params.deep_view(),
                action: *action,
            },
        }
    }
}

pub open spec fn events_view(events: Seq<TerminalEvent>) -> Seq<EventView> {
    events.map_values(|event: TerminalEvent| event@)
}

/// The parser of the `vte` crate.
#[verifier::external_type_specification]
#[verifier::external_body]
pub struct ExParser<const OSC_RAW_BUF_SIZE: usize>(vte::Parser<OSC_RAW_BUF_SIZE>);

/// The parameters of a control sequence, of the `vte` crate.
#[verifier::external_type_specification]
#[verifier::external_body]
pub struct ExParams(vte::Params);

/// The groups of parameters that a `vte::Params` holds.
pub uninterp spec fn params_held(params: vte::Params) -> Seq<Seq<u16>>;

/// The chunks of bytes that a parser holds the state of: those that it has
/// been fed since it was made.
pub uninterp spec fn chunks_fed(parser: vte::Parser) -> Seq<Seq<u8>>;

/// The characters, control bytes and control sequences that
/// `vte::Parser::advance` reports of `chunk` where the parser has been fed the
/// chunks `fed` before.
pub uninterp spec fn terminal_events(fed: Seq<Seq<u8>>, chunk: Seq<u8>) -> Seq<EventView>;

/// `vte::Params::iter`, which gives the groups of parameters in turn.
#[verifier::external_body]
fn params_to_vec(params: &vte::Params) -> (r: Vec<Vec<u16>>)
    ensures
        r.deep_view() == params_held(*params),
{
    params.iter().map(|group| group.to_vec()).collect()
}

/// The events of a parser, in the order in which it reports them.
pub struct EventRecorder {
    pub events: Vec<TerminalEvent>,
}

impl vte::Perform for EventRecorder {
    fn print(&mut self, c: char)
        ensures
            events_view(final(self).events@) == events_view(old(self).events@).push(
                EventView::Print(c),
            ),
    {
        let ghost before = self.events@;
        self.events.push(TerminalEvent::Print(c));
        proof {
            assert(events_view(self.events@) =~= events_view(before).push(EventView::Print(c)));
        }
    }

    fn execute(&mut self, byte: u8)
        ensures
            events_view(final(self).events@) == events_view(old(self).events@).push(
                EventView::Execute(byte),
            ),
    {
        let ghost before = self.events@;
        self.events.push(TerminalEvent::Execute(byte));
        proof {
            assert(events_view(self.events@) =~= events_view(before).push(
                EventView::Execute(byte),
            ));
        }
    }

    fn csi_dispatch(
        &mut self,
        params: &vte::Params,
        _intermediates: &[u8],
        _ignore: bool,
        action: char,
    )
        ensures
            events_view(final(self).events@) == events_view(old(self).events@).push(
                EventView::Csi { params: params_held(*params), action },
            ),
    {
        let ghost before = self.events@;
        let groups = params_to_vec(params);
        self.events.push(TerminalEvent::Csi { params: groups, action });
        proof {
            assert(events_view(self.events@) =~= events_view(before).push(
                EventView::Csi { params: params_held(*params), action },
            ));
        }
    }
}

/// `vte::Parser::new`, which makes a parser that has been fed nothing.
#[verifier::external_body]
fn new_parser() -> (parser: vte::Parser)
    ensures
        chunks_fed(parser) == Seq::<Seq<u8>>::empty(),
{
    vte::Parser::new()
}

/// Bytes of text without an escape.
pub open spec fn plain(bytes: Seq<u8>) -> bool {
    valid_utf8(bytes) && forall|i: int| 0 <= i < bytes.len() ==> #[trigger] bytes[i] != 0x1b
}

/// A control character: one below the blank, or one of those from U+0080 to
/// U+009F.
pub open spec fn is_control(c: char) -> bool {
    c < ' ' || ('\u{80}' <= c && c <= '\u{9f}')
}

/// What a character of plain text is: a control byte or a character to show.
pub open spec fn plain_event(c: char) -> EventView {
    if is_control(c) {
        EventView::Execute(c as u8)
    } else {
        EventView::Print(c)
    }
}

/// What plain bytes ask for, character by character.
pub open spec fn plain_events(bytes: Seq<u8>) -> Seq<EventView> {
    decode_utf8(bytes).map_values(|c: char| plain_event(c))
}

/// `vte::Parser::advance`, which feeds a chunk of bytes to a parser and hands
/// what it finds there to a `vte::Perform`, here one that records the
/// characters, control bytes and control sequences in the order in which they
/// come. What it reports depends on the chunks that the parser has been fed, and
/// is named `terminal_events`. UTF-8 text without an escape, after no other chunks
/// than such, is reported character by character: the characters below the blank
/// and those from U+0080 to U+009F as control bytes, every other as one to show.
#[verifier::external_body]
fn parse_chunk(parser: &mut vte::Parser, chunk: &[u8]) -> (events: Vec<TerminalEvent>)
    ensures
        events_view(events@) == terminal_events(chunks_fed(*old(parser)), chunk@),
        plain(chunk@) && (forall|i: int|
            0 <= i < chunks_fed(*old(parser)).len() ==> plain(
                #[trigger] chunks_fed(*old(parser))[i],
            )) ==> events_view(events@) == plain_events(chunk@),
        chunks_fed(*final(parser)) == chunks_fed(*old(parser)).push(chunk@),
{
    let mut recorder = EventRecorder { events: Vec::new() };
    parser.advance(&mut recorder, chunk);
    recorder.events
}

/// The first parameter of a control sequence, 0 where there is none.
pub open spec fn first_param(params: Seq<Seq<u16>>) -> int {
    if params.len() > 0 && params[0].len() > 0 {
        params[0][0] as int
    } else {
        0
    }
}

/// A count that is at least one.
pub open spec fn counted(n: int) -> int {
    if n >= 1 {
        n
    } else {
        1
    }
}

/// The screen after an event.
pub open spec fn stepped(s: ScreenView, event: EventView) -> ScreenView {
    match event {
        EventView::Print(c) => s.put(c),
        EventView::Execute(byte) => if byte == 0x0a {
            s.new_line()
        } else if byte == 0x0d {
            s.with_col(0)
        } else if byte == 0x08 {
            s.left(1)
        } else if byte == 0x09 {
            s.put_blanks(s.next_stop() - s.col)
        } else {
            s
        },
        EventView::Csi { params, action } => {
            let n = first_param(params);
            if action == 'C' {
                s.right(counted(n))
            } else if action == 'D' {
                s.left(counted(n))
            } else if action == 'G' {
                s.at_column(counted(n) - 1)
            } else if action == 'J' {
                s.erase_display(n)
            } else if action == 'K' {
                s.erase_line(n)
            } else {
                s
            }
        },
    }
}

/// Whether an event can be carried out: the cursor stays within the range of its
/// type, and what is to be erased can be.
pub open spec fn fits(s: ScreenView, event: EventView) -> bool {
    match event {
        EventView::Print(c) => s.col + columns(c) <= usize::MAX,
        EventView::Execute(byte) => {
            &&& byte == 0x0a ==> s.row < usize::MAX
            &&& byte == 0x09 ==> s.next_stop() <= usize::MAX
        },
        EventView::Csi { params, action } => {
            &&& action == 'J' ==> s.can_erase_display(first_param(params))
            &&& action == 'K' ==> s.can_erase_line(first_param(params))
        },
    }
}

/// The screen after a list of events.
pub open spec fn played(s: ScreenView, events: Seq<EventView>) -> ScreenView
    decreases events.len(),
{
    if events.len() == 0 {
        s
    } else {
        stepped(played(s, events.drop_last()), events.last())
    }
}

/// How many events there are before the first that does not fit.
pub open spec fn fitting(s: ScreenView, events: Seq<EventView>) -> int
    decreases events.len(),
{
    if events.len() == 0 {
        0
    } else {
        let before = fitting(s, events.drop_last());
        if before == events.len() - 1 && fits(played(s, events.drop_last()), events.last()) {
            before + 1
        } else {
            before
        }
    }
}

/// An event cannot be carried out.
#[derive(Debug, Clone, Copy, PartialEq, Eq, Structural)]
pub struct ConsoleHalt;

/// Rows that take the place of those from `dirty_from_row` on.
pub struct ConsoleTailUpdate {
    pub dirty_from_row: usize,
    pub logical_rows: Vec<Vec<ScreenCell>>,
}

/// A screen without rows.
pub open spec fn blank_screen() -> ScreenView {
    ScreenView { rows: Seq::empty(), row: 0, col: 0, dirty: None }
}

impl ScreenBuffer {
    /// Shows a character, if there is a column for the cursor behind it.
    pub fn print(&mut self, c: char) -> (done: bool)
        ensures
            done == fits(old(self)@, EventView::Print(c)),
            done ==> final(self)@ == stepped(old(self)@, EventView::Print(c)),
            !done ==> final(self)@ == old(self)@,
    {
        if !self.has_room_for(c) {
            return false;
        }
        self.put_char(c);
        true
    }

    /// Carries out a control byte, if the cursor stays in range; the bytes other
    /// than line feed, carriage return, backspace and tab do nothing.
    pub fn execute(&mut self, byte: u8) -> (done: bool)
        ensures
            done == fits(old(self)@, EventView::Execute(byte)),
            done ==> final(self)@ == stepped(old(self)@, EventView::Execute(byte)),
            !done ==> final(self)@ == old(self)@,
    {
        if byte == 0x0a {
            if !self.has_row_below() {
                return false;
            }
            self.new_line();
        } else if byte == 0x0d {
            self.carriage_return();
        } else if byte == 0x08 {
            self.backspace();
        } else if byte == 0x09 {
            if !self.has_tab_stop() {
                return false;
            }
            self.tab();
        }
        true
    }

    /// Carries out a control sequence, if what is to be erased can be; those
    /// other than the movements in a row and the two erasures do nothing.
    pub fn csi_dispatch(&mut self, params: &Vec<Vec<u16>>, action: char) -> (done: bool)
        ensures
            done == fits(old(self)@, EventView::Csi { params: params.deep_view(), action }),
            done ==> final(self)@ == stepped(
                old(self)@,
                EventView::Csi { params: params.deep_view(), action },
            ),
            !done ==> final(self)@ == old(self)@,
    {
        let first: usize = if params.len() > 0 && params[0].len() > 0 {
            params[0][0] as usize
        } else {
            0
        };
        proof {
            assert(first == first_param(params.deep_view()));
        }
        let count = if first >= 1 {
            first
        } else {
            1
        };
        if action == 'C' {
            self.move_right(count);
        } else if action == 'D' {
            self.move_left(count);
        } else if action == 'G' {
            self.set_cursor_column(count - 1);
        } else if action == 'J' {
            if !self.can_erase_in_display(first) {
                return false;
            }
            self.erase_in_display(first);
        } else if action == 'K' {
            if !self.can_erase_in_line(first) {
                return false;
            }
            self.erase_in_line(first);
        }
        true
    }

    /// Carries out an event, if it can be.
    pub fn perform(&mut self, event: &TerminalEvent) -> (done: bool)
        ensures
            done == fits(old(self)@, event@),
            done ==> final(self)@ == stepped(old(self)@, event@),
            !done ==> final(self)@ == old(self)@,
    {
        match event {
            TerminalEvent::Print(c) => self.print(*c),
            TerminalEvent::Execute(byte) => self.execute(*byte),
            TerminalEvent::Csi { params, action } => self.csi_dispatch(params, *action),
        }
    }
}

/// The rows of an update.
pub open spec fn update_shows(
    update: Option<ConsoleTailUpdate>,
    s: ScreenView,
) -> bool {
    match s.dirty {
        None => update is None,
        Some(first) => {
            &&& update is Some
            &&& update->Some_0.dirty_from_row == first
            &&& rows_view(update->Some_0.logical_rows@) == s.rows.skip(
                at_most(first, s.rows.len() as int),
            )
        },
    }
}

/// A parser and the screen that it writes to.
pub struct VirtualConsole {
    parser: vte::Parser,
    screen: ScreenBuffer,
}

impl VirtualConsole {
    /// What has been put out since the console was last cleared, chunk by chunk.
    pub closed spec fn fed(self) -> Seq<Seq<u8>> {
        chunks_fed(self.parser)
    }

    /// What the screen holds.
    pub closed spec fn screen(self) -> ScreenView {
        self.screen@
    }

    /// A console without output.
    pub fn new() -> (r: Self)
        ensures
            r.fed() == Seq::<Seq<u8>>::empty(),
            r.screen() == blank_screen(),
    {
        VirtualConsole { parser: new_parser(), screen: ScreenBuffer::new() }
    }

    /// Forgets all output.
    pub fn clear(&mut self)
        ensures
            final(self).fed() == Seq::<Seq<u8>>::empty(),
            final(self).screen() == blank_screen(),
    {
        self.parser = new_parser();
        self.screen = ScreenBuffer::new();
    }

    /// Plays events on the screen, up to the first that cannot be carried out,
    /// and gives the rows from the first changed one on.
    pub fn apply_events(&mut self, events: &Vec<TerminalEvent>) -> (r: Result<
        Option<ConsoleTailUpdate>,
        ConsoleHalt,
    >)
        ensures
            final(self).fed() == old(self).fed(),
            ({
                let views = events_view(events@);
                let start = old(self).screen().unmarked();
                let count = fitting(start, views);
                let end = played(start, views.take(count));
                &&& r is Ok == (count == views.len())
                &&& r is Ok ==> final(self).screen() == end.unmarked() && update_shows(r->Ok_0, end)
                &&& r is Err ==> final(self).screen() == end
            }),
    {
        self.screen.begin_update();
        let ghost start = self.screen@;
        let ghost views = events_view(events@);
        let mut i: usize = 0;
        proof {
            assert(views.take(0) =~= Seq::empty());
        }
        while i < events.len()
            invariant
                i <= events@.len(),
                views == events_view(events@),
                self.fed() == old(self).fed(),
                start == old(self).screen().unmarked(),
                fitting(start, views.take(i as int)) == i,
                self.screen@ == played(start, views.take(i as int)),
            decreases events.len() - i,
        {
            let ghost before = self.screen@;
            let done = self.screen.perform(&events[i]);
            proof {
                assert(views.take(i + 1).drop_last() =~= views.take(i as int));
                assert(views.take(i + 1).last() == views[i as int]);
            }
            if !done {
                proof {
                    fitting_stops(start, views, i as int);
                }
                return Err(ConsoleHalt);
            }
            i += 1;
        }
        proof {
            assert(views.take(i as int) =~= views);
        }
        match self.screen.take_dirty_from_row() {
            Some(first) => Ok(
                Some(
                    ConsoleTailUpdate {
                        dirty_from_row: first,
                        logical_rows: self.screen.logical_rows_from(first),
                    },
                ),
            ),
            None => Ok(None),
        }
    }

    /// Shows output and gives the rows from the first changed one on.
    pub fn push_output(&mut self, data: &[u8]) -> (r: Result<
        Option<ConsoleTailUpdate>,
        ConsoleHalt,
    >)
        ensures
            final(self).fed() == old(self).fed().push(data@),
            ({
                let views = terminal_events(old(self).fed(), data@);
                let start = old(self).screen().unmarked();
                let count = fitting(start, views);
                let end = played(start, views.take(count));
                &&& r is Ok == (count == views.len())
                &&& r is Ok ==> final(self).screen() == end.unmarked() && update_shows(r->Ok_0, end)
                &&& r is Err ==> final(self).screen() == end
                &&& plain(data@) && (forall|i: int|
                    0 <= i < old(self).fed().len() ==> plain(#[trigger] old(self).fed()[i]))
                    ==> views == plain_events(data@)
            }),
    {
        let events = parse_chunk(&mut self.parser, data);
        self.apply_events(&events)
    }
}

impl Default for VirtualConsole {
    fn default() -> (r: Self)
        ensures
            r.fed() == Seq::<Seq<u8>>::empty(),
            r.screen() == blank_screen(),
    {
        VirtualConsole::new()
    }
}

/// No event behind one that does not fit is counted.
proof fn fitting_stops(s: ScreenView, events: Seq<EventView>, i: int)
    requires
        0 <= i < events.len(),
        fitting(s, events.take(i)) == i,
        !fits(played(s, events.take(i)), events[i]),
    ensures
        fitting(s, events) == i,
    decreases events.len(),
{
    let init = events.drop_last();
    if i == events.len() - 1 {
        assert(init =~= events.take(i));
    } else {
        assert(init.take(i) =~= events.take(i));
        fitting_stops(s, init, i);
    }
}

} // verus!
