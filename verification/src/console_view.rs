//! The console as a widget: the output, the surface that shows it, and the
//! properties that the widget is built with.
use vstd::prelude::*;

use crate::console::{blank_screen, fitting, plain, plain_events, played, terminal_events, ConsoleHalt, ConsoleTailUpdate, VirtualConsole};
use crate::console_laws::{events_track, tail_update_catches_up};
use crate::screen::{at_most, rows_view, CellView, ScreenView};
use crate::screen_laws::sound;
use crate::surface::{ConsoleSurface, Orientation};
use crate::text::both_hold;

verus! {

/// The value of a widget's property.
#[derive(Debug, Clone, Copy, PartialEq, Eq, Structural)]
pub enum PropertyValue {
    Orientation(Orientation),
    Switch(bool),
    Pixels(i32),
}

/// A property that a widget is built with.
pub struct WidgetProperty {
    pub name: &'static str,
    pub value: PropertyValue,
}

/// The names and values of properties, in order.
pub open spec fn properties_view(list: Seq<WidgetProperty>) -> Seq<(Seq<char>, PropertyValue)> {
    list.map_values(|property: WidgetProperty| (property.name@, property.value))
}

/// The output of a process and the surface that shows it.
pub struct ConsoleView {
    surface: ConsoleSurface,
    console: VirtualConsole,
    monospace: bool,
    properties: Vec<WidgetProperty>,
}

impl ConsoleView {
    /// What the surface shows.
    pub closed spec fn shown(self) -> Seq<Seq<CellView>> {
        self.surface.rows()
    }

    /// What the screen of the console holds.
    pub closed spec fn screen(self) -> ScreenView {
        self.console.screen()
    }

    /// The output since the console was last cleared, chunk by chunk.
    pub closed spec fn fed(self) -> Seq<Seq<u8>> {
        self.console.fed()
    }

    pub closed spec fn is_monospace(self) -> bool {
        self.monospace
    }

    /// What the widget was built with.
    pub closed spec fn built_with(self) -> Seq<(Seq<char>, PropertyValue)> {
        properties_view(self.properties@)
    }

    /// The surface shows the rows of the screen, and has the font that the
    /// widget was given.
    pub closed spec fn wf(self) -> bool {
        &&& self.surface.rows() == self.console.screen().rows
        &&& self.surface.is_monospace() == self.monospace
        &&& sound(self.console.screen())
    }

    /// A console in good order shows the rows of its screen.
    pub proof fn shows_its_screen(self)
        requires
            self.wf(),
        ensures
            self.shown() == self.screen().rows,
            sound(self.screen()),
    {
    }

    /// A builder without properties.
    pub fn builder() -> (r: ConsoleViewBuilder)
        ensures
            r == no_properties(),
    {
        ConsoleViewBuilder {
            orientation: None,
            hexpand: None,
            vexpand: None,
            focusable: None,
            margin_top: None,
            margin_bottom: None,
            margin_start: None,
            margin_end: None,
            monospace: None,
        }
    }

    /// The surface of the console.
    pub fn surface(&self) -> (r: &ConsoleSurface)
        ensures
            r.rows() == self.shown(),
            self.wf() ==> r.is_monospace() == self.is_monospace(),
    {
        &self.surface
    }

    /// The properties that the widget was built with.
    pub fn properties(&self) -> (r: &Vec<WidgetProperty>)
        ensures
            properties_view(r@) == self.built_with(),
    {
        &self.properties
    }

    /// Whether the text is shown in a monospace font.
    pub fn monospace(&self) -> (r: bool)
        ensures
            r == self.is_monospace(),
    {
        self.monospace
    }

    /// Sets whether the text is shown in a monospace font.
    pub fn set_monospace(&mut self, monospace: bool)
        ensures
            old(self).wf() ==> final(self).wf(),
            final(self).is_monospace() == monospace,
            final(self).screen() == old(self).screen(),
            final(self).shown() == old(self).shown(),
            final(self).fed() == old(self).fed(),
            final(self).built_with() == old(self).built_with(),
    {
        self.monospace = monospace;
        self.surface.set_monospace(monospace);
    }

    /// Removes all output.
    pub fn clear(&mut self)
        ensures
            final(self).wf(),
            final(self).fed() == Seq::<Seq<u8>>::empty(),
            final(self).screen() == blank_screen(),
            final(self).shown() == Seq::<Seq<CellView>>::empty(),
            final(self).is_monospace() == old(self).is_monospace(),
            final(self).built_with() == old(self).built_with(),
    {
        self.console.clear();
        self.surface.clear();
        self.surface.set_monospace(self.monospace);
    }

    /// Shows output. Where something in it cannot be carried out, the screen
    /// stops before that and the surface stays as it was; the console has to be
    /// cleared then.
    pub fn append_output(&mut self, data: &[u8]) -> (r: Result<(), ConsoleHalt>)
        requires
            old(self).wf(),
        ensures
            final(self).fed() == old(self).fed().push(data@),
            final(self).is_monospace() == old(self).is_monospace(),
            final(self).built_with() == old(self).built_with(),
            ({
                let events = terminal_events(old(self).fed(), data@);
                let start = old(self).screen().unmarked();
                &&& r is Ok == (fitting(start, events) == events.len())
                &&& r is Ok ==> {
                    &&& final(self).wf()
                    &&& final(self).screen() == played(start, events).unmarked()
                    &&& final(self).shown() == played(start, events).rows
                }
                &&& r is Err ==> {
                    &&& final(self).screen() == played(
                        start,
                        events.take(fitting(start, events)),
                    )
                    &&& final(self).shown() == old(self).shown()
                }
                &&& plain(data@) && (forall|i: int|
                    0 <= i < old(self).fed().len() ==> plain(#[trigger] old(self).fed()[i]))
                    ==> events == plain_events(data@)
            }),
    {
        let ghost before = self.shown();
        let ghost start = self.screen().unmarked();
        let ghost events = terminal_events(self.fed(), data@);
        let update = match self.console.push_output(data) {
            Ok(update) => update,
            Err(halt) => return Err(halt),
        };
        proof {
            assert(events.take(events.len() as int) =~= events);
            events_track(before, start, events);
            let end = played(start, events);
            if end.dirty is Some {
                tail_update_catches_up(before, end);
            }
        }
        if let Some(update) = update {
            self.apply_tail_update(update);
        }
        Ok(())
    }

    /// Puts the rows of an update in the place of those that they replace.
    fn apply_tail_update(&mut self, update: ConsoleTailUpdate)
        ensures
            final(self).shown() == old(self).shown().take(
                at_most(update.dirty_from_row as int, old(self).shown().len() as int),
            ) + rows_view(update.logical_rows@),
            final(self).surface.is_monospace() == old(self).surface.is_monospace(),
            final(self).console == old(self).console,
            final(self).monospace == old(self).monospace,
            final(self).properties == old(self).properties,
    {
        self.surface.replace_tail(update.dirty_from_row, update.logical_rows);
    }
}

/// The properties that a console is to be built with.
pub struct ConsoleViewBuilder {
    pub orientation: Option<Orientation>,
    pub hexpand: Option<bool>,
    pub vexpand: Option<bool>,
    pub focusable: Option<bool>,
    pub margin_top: Option<i32>,
    pub margin_bottom: Option<i32>,
    pub margin_start: Option<i32>,
    pub margin_end: Option<i32>,
    pub monospace: Option<bool>,
}

impl Default for ConsoleViewBuilder {
    fn default() -> (r: Self)
        ensures
            r == no_properties(),
    {
        ConsoleView::builder()
    }
}

/// No properties.
pub open spec fn no_properties() -> ConsoleViewBuilder {
    ConsoleViewBuilder {
        orientation: None,
        hexpand: None,
        vexpand: None,
        focusable: None,
        margin_top: None,
        margin_bottom: None,
        margin_start: None,
        margin_end: None,
        monospace: None,
    }
}

/// A property under `name`, if it was given a value.
pub open spec fn switch(name: Seq<char>, value: Option<bool>) -> Seq<(Seq<char>, PropertyValue)> {
    match value {
        Some(on) => seq![(name, PropertyValue::Switch(on))],
        None => Seq::empty(),
    }
}

/// A property under `name`, if it was given a value.
pub open spec fn margin(name: Seq<char>, value: Option<i32>) -> Seq<(Seq<char>, PropertyValue)> {
    match value {
        Some(width) => seq![(name, PropertyValue::Pixels(width))],
        None => Seq::empty(),
    }
}

/// The properties that were given a value, under the names that they have in
/// the toolkit.
pub open spec fn given(b: ConsoleViewBuilder) -> Seq<(Seq<char>, PropertyValue)> {
    let orientation = match b.orientation {
        Some(orientation) => seq![("orientation"@, PropertyValue::Orientation(orientation))],
        None => Seq::empty(),
    };
    orientation + switch("hexpand"@, b.hexpand) + switch("vexpand"@, b.vexpand) + switch(
        "focusable"@,
        b.focusable,
    ) + margin("margin-top"@, b.margin_top) + margin("margin-bottom"@, b.margin_bottom) + margin(
        "margin-start"@,
        b.margin_start,
    ) + margin("margin-end"@, b.margin_end) + switch("monospace"@, b.monospace)
}

/// Adds a property, if it was given a value.
fn add_switch(list: &mut Vec<WidgetProperty>, name: &'static str, value: Option<bool>)
    ensures
        properties_view(final(list)@) == properties_view(old(list)@) + switch(name@, value),
{
    let ghost before = list@;
    if let Some(on) = value {
        list.push(WidgetProperty { name, value: PropertyValue::Switch(on) });
    }
    proof {
        assert(properties_view(list@) =~= properties_view(before) + switch(name@, value));
    }
}

/// Adds a property, if it was given a value.
fn add_margin(list: &mut Vec<WidgetProperty>, name: &'static str, value: Option<i32>)
    ensures
        properties_view(final(list)@) == properties_view(old(list)@) + margin(name@, value),
{
    let ghost before = list@;
    if let Some(width) = value {
        list.push(WidgetProperty { name, value: PropertyValue::Pixels(width) });
    }
    proof {
        assert(properties_view(list@) =~= properties_view(before) + margin(name@, value));
    }
}

impl ConsoleViewBuilder {
    pub fn orientation(self, orientation: Orientation) -> (r: Self)
        ensures
            r == (ConsoleViewBuilder { orientation: Some(orientation), ..self }),
    {
        ConsoleViewBuilder { orientation: Some(orientation), ..self }
    }

    pub fn hexpand(self, hexpand: bool) -> (r: Self)
        ensures
            r == (ConsoleViewBuilder { hexpand: Some(hexpand), ..self }),
    {
        ConsoleViewBuilder { hexpand: Some(hexpand), ..self }
    }

    pub fn vexpand(self, vexpand: bool) -> (r: Self)
        ensures
            r == (ConsoleViewBuilder { vexpand: Some(vexpand), ..self }),
    {
        ConsoleViewBuilder { vexpand: Some(vexpand), ..self }
    }

    pub fn focusable(self, focusable: bool) -> (r: Self)
        ensures
            r == (ConsoleViewBuilder { focusable: Some(focusable), ..self }),
    {
        ConsoleViewBuilder { focusable: Some(focusable), ..self }
    }

    pub fn margin_top(self, margin_top: i32) -> (r: Self)
        ensures
            r == (ConsoleViewBuilder { margin_top: Some(margin_top), ..self }),
    {
        ConsoleViewBuilder { margin_top: Some(margin_top), ..self }
    }

    pub fn margin_bottom(self, margin_bottom: i32) -> (r: Self)
        ensures
            r == (ConsoleViewBuilder { margin_bottom: Some(margin_bottom), ..self }),
    {
        ConsoleViewBuilder { margin_bottom: Some(margin_bottom), ..self }
    }

    pub fn margin_start(self, margin_start: i32) -> (r: Self)
        ensures
            r == (ConsoleViewBuilder { margin_start: Some(margin_start), ..self }),
    {
        ConsoleViewBuilder { margin_start: Some(margin_start), ..self }
    }

    pub fn margin_end(self, margin_end: i32) -> (r: Self)
        ensures
            r == (ConsoleViewBuilder { margin_end: Some(margin_end), ..self }),
    {
        ConsoleViewBuilder { margin_end: Some(margin_end), ..self }
    }

    pub fn monospace(self, monospace: bool) -> (r: Self)
        ensures
            r == (ConsoleViewBuilder { monospace: Some(monospace), ..self }),
    {
        ConsoleViewBuilder { monospace: Some(monospace), ..self }
    }

    /// A console without output, with the properties that were given a value.
    pub fn build(self) -> (r: ConsoleView)
        ensures
            r.wf(),
            r.fed() == Seq::<Seq<u8>>::empty(),
            r.screen() == blank_screen(),
            r.shown() == Seq::<Seq<CellView>>::empty(),
            r.is_monospace() == (self.monospace == Some(true)),
            r.built_with() == given(self),
    {
        let mut properties: Vec<WidgetProperty> = Vec::new();
        if let Some(orientation) = self.orientation {
            properties.push(
                WidgetProperty {
                    name: "orientation",
                    value: PropertyValue::Orientation(orientation),
                },
            );
        }
        proof {
            assert(properties_view(properties@) =~= match self.orientation {
                Some(orientation) => seq![
                    ("orientation"@, PropertyValue::Orientation(orientation)),
                ],
                None => Seq::empty(),
            });
        }
        add_switch(&mut properties, "hexpand", self.hexpand);
        add_switch(&mut properties, "vexpand", self.vexpand);
        add_switch(&mut properties, "focusable", self.focusable);
        add_margin(&mut properties, "margin-top", self.margin_top);
        add_margin(&mut properties, "margin-bottom", self.margin_bottom);
        add_margin(&mut properties, "margin-start", self.margin_start);
        add_margin(&mut properties, "margin-end", self.margin_end);
        add_switch(&mut properties, "monospace", self.monospace);
        let monospace = match self.monospace {
            Some(monospace) => monospace,
            None => false,
        };
        let mut surface = ConsoleSurface::new();
        surface.set_monospace(monospace);
        ConsoleView { surface, console: VirtualConsole::new(), monospace, properties }
    }
}

/// A widget has a property if and only if it was given a value for it, and has
/// that value.
pub proof fn widget_has_what_was_given(b: ConsoleViewBuilder, name: Seq<char>, value: PropertyValue)
    ensures
        given(b).contains((name, value)) <==> {
            ||| name == "orientation"@ && b.orientation is Some && value
                == PropertyValue::Orientation(b.orientation->Some_0)
            ||| name == "hexpand"@ && b.hexpand is Some && value == PropertyValue::Switch(
                b.hexpand->Some_0,
            )
            ||| name == "vexpand"@ && b.vexpand is Some && value == PropertyValue::Switch(
                b.vexpand->Some_0,
            )
            ||| name == "focusable"@ && b.focusable is Some && value == PropertyValue::Switch(
                b.focusable->Some_0,
            )
            ||| name == "margin-top"@ && b.margin_top is Some && value == PropertyValue::Pixels(
                b.margin_top->Some_0,
            )
            ||| name == "margin-bottom"@ && b.margin_bottom is Some && value
                == PropertyValue::Pixels(b.margin_bottom->Some_0)
            ||| name == "margin-start"@ && b.margin_start is Some && value
                == PropertyValue::Pixels(b.margin_start->Some_0)
            ||| name == "margin-end"@ && b.margin_end is Some && value == PropertyValue::Pixels(
                b.margin_end->Some_0,
            )
            ||| name == "monospace"@ && b.monospace is Some && value == PropertyValue::Switch(
                b.monospace->Some_0,
            )
        },
{
    let item = (name, value);
    let a1 = match b.orientation {
        Some(orientation) => seq![("orientation"@, PropertyValue::Orientation(orientation))],
        None => Seq::empty(),
    };
    if b.orientation is Some {
        assert(a1.contains(a1[0]));
    }
    let a2 = switch("hexpand"@, b.hexpand);
    let a3 = switch("vexpand"@, b.vexpand);
    let a4 = switch("focusable"@, b.focusable);
    let a5 = margin("margin-top"@, b.margin_top);
    let a6 = margin("margin-bottom"@, b.margin_bottom);
    let a7 = margin("margin-start"@, b.margin_start);
    let a8 = margin("margin-end"@, b.margin_end);
    let a9 = switch("monospace"@, b.monospace);
    switch_holds("hexpand"@, b.hexpand, item);
    switch_holds("vexpand"@, b.vexpand, item);
    switch_holds("focusable"@, b.focusable, item);
    margin_holds("margin-top"@, b.margin_top, item);
    margin_holds("margin-bottom"@, b.margin_bottom, item);
    margin_holds("margin-start"@, b.margin_start, item);
    margin_holds("margin-end"@, b.margin_end, item);
    switch_holds("monospace"@, b.monospace, item);
    both_hold(a1, a2, item);
    both_hold(a1 + a2, a3, item);
    both_hold(a1 + a2 + a3, a4, item);
    both_hold(a1 + a2 + a3 + a4, a5, item);
    both_hold(a1 + a2 + a3 + a4 + a5, a6, item);
    both_hold(a1 + a2 + a3 + a4 + a5 + a6, a7, item);
    both_hold(a1 + a2 + a3 + a4 + a5 + a6 + a7, a8, item);
    both_hold(a1 + a2 + a3 + a4 + a5 + a6 + a7 + a8, a9, item);
}

proof fn switch_holds(name: Seq<char>, value: Option<bool>, item: (Seq<char>, PropertyValue))
    ensures
        switch(name, value).contains(item) <==> {
            &&& value is Some
            &&& item.0 == name
            &&& item.1 == PropertyValue::Switch(value->Some_0)
        },
{
    let list = switch(name, value);
    if value is Some {
        assert(list.contains(list[0]));
    }
}

proof fn margin_holds(name: Seq<char>, value: Option<i32>, item: (Seq<char>, PropertyValue))
    ensures
        margin(name, value).contains(item) <==> {
            &&& value is Some
            &&& item.0 == name
            &&& item.1 == PropertyValue::Pixels(value->Some_0)
        },
{
    let list = margin(name, value);
    if value is Some {
        assert(list.contains(list[0]));
    }
}

/// A builder to which nothing was given makes a widget without properties.
pub proof fn nothing_given_nothing_had()
    ensures
        given(no_properties()).len() == 0,
{
}

} // verus!
