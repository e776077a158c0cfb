//! The Developers screen: diagnostics that are not user features.
//!
//! Reached from Settings > System > Developers. Chooses which frontlight panel
//! opens, and shows live heap figures — the numbers no build-time size report
//! can show, because Rust allocates through the firmware heap.
use vstd::prelude::*;

use crate::device::{DevSettings, DeviceWrite, Heap};
use crate::host::{translate, translates};
use crate::geometry::Size;
use crate::layout::stack::{Alignment, Axis, Stack};
use crate::screen::navigation::NavigationScreen;
use crate::screen::{Requests, Screen};
use crate::units::Units;
use crate::view::{Env, MakeFlag};
use crate::widgets::list::{List, ListRow};
use crate::widgets::section::Section;
use crate::widgets::toggle::Toggle;

verus! {

/// Everything this screen can be told.
#[derive(Copy, Clone, Debug, PartialEq, Eq, Structural)]
pub enum Msg {
    /// The framework hands back the state the toggle is moving to.
    RustPanel(bool),
    /// Any memory row: the scale applies to all of them, so they share it.
    CycleUnits,
}

/// Builds `RustPanel` from the state the toggle is moving to.
struct ToRustPanel;

impl MakeFlag<Msg> for ToRustPanel {
    fn make(&self, on: bool) -> (m: Msg)
        ensures
            m == Msg::RustPanel(on),
    {
        Msg::RustPanel(on)
    }
}

/// The screen's state: the scale byte figures are shown in, the latest
/// figures and setting as the firmware reports them, and the writes not yet
/// handed to it.
pub struct DevelopersScreen {
    units: Units,
    heap: Heap,
    rust_panel: bool,
    writes: Vec<DeviceWrite>,
}

impl DevelopersScreen {
    pub closed spec fn spec_units(&self) -> Units {
        self.units
    }

    pub closed spec fn spec_heap(&self) -> Heap {
        self.heap
    }

    pub closed spec fn spec_rust_panel(&self) -> bool {
        self.rust_panel
    }

    pub closed spec fn spec_writes(&self) -> Seq<DeviceWrite> {
        self.writes@
    }

    /// Opens on kilobytes, with no figures yet.
    pub fn new() -> (s: DevelopersScreen)
        ensures
            s.spec_units() == Units::Kilobytes,
            s.spec_heap() == (Heap { free: 0, largest_block: 0, min_free: 0 }),
            !s.spec_rust_panel(),
            s.spec_writes() == Seq::<DeviceWrite>::empty(),
    {
        DevelopersScreen {
            units: Units::Kilobytes,
            heap: Heap { free: 0, largest_block: 0, min_free: 0 },
            rust_panel: false,
            writes: Vec::new(),
        }
    }

    /// The firmware's current heap figures and panel setting, read before
    /// each frame so what is shown is always current.
    pub fn observe(&mut self, heap: Heap, rust_panel: bool)
        ensures
            final(self).spec_heap() == heap,
            final(self).spec_rust_panel() == rust_panel,
            final(self).spec_units() == old(self).spec_units(),
            final(self).spec_writes() == old(self).spec_writes(),
    {
        self.heap = heap;
        self.rust_panel = rust_panel;
    }

    /// Hands the queued writes over for the host to apply, oldest first.
    pub fn take_writes(&mut self) -> (w: Vec<DeviceWrite>)
        ensures
            w@ == old(self).spec_writes(),
            final(self).spec_writes() == Seq::<DeviceWrite>::empty(),
            final(self).spec_units() == old(self).spec_units(),
            final(self).spec_heap() == old(self).spec_heap(),
            final(self).spec_rust_panel() == old(self).spec_rust_panel(),
    {
        let mut taken = Vec::new();
        std::mem::swap(&mut taken, &mut self.writes);
        taken
    }

    /// Which frontlight panel opens, as a setting row.
    fn frontlight_panel_toggle(&self, env: &Env) -> (t: Toggle<Msg>)
        ensures
            t.spec_on() == self.spec_rust_panel(),
            t.spec_row().spec_rows()[0].spec_message() == Some(Msg::RustPanel(!self.spec_rust_panel())),
    {
        let label = translate(env.strings, "STR_FRONTLIGHT_PANEL_RUST");
        let on = translate(env.strings, "STR_STATE_ON");
        let off = translate(env.strings, "STR_STATE_OFF");
        Toggle::new(label.as_str(), self.rust_panel, on.as_str(), off.as_str()).on_change(&ToRustPanel)
    }

    /// The three heap figures, in the current scale. Tapping any of them
    /// cycles the scale for all.
    pub fn memory_usage_view(&self, env: &Env) -> (l: List<Msg>)
        ensures
            memory_rows(env, l, self.spec_units(), self.spec_heap(), Msg::CycleUnits),
    {
        memory_list(env, self.units, self.heap, Msg::CycleUnits)
    }
}

/// `list` shows the three heap figures of `heap` in `units`, in the order
/// free, largest block, lowest free, each under its translated label; every
/// row sends `message` when tapped.
pub open spec fn memory_rows<M>(env: &Env, list: List<M>, units: Units, heap: Heap, message: M) -> bool {
    let rows = list.spec_rows();
    &&& rows.len() == 3
    &&& labelled(env, rows[0], "STR_FREE_HEAP")
    &&& labelled(env, rows[1], "STR_LARGEST_BLOCK")
    &&& labelled(env, rows[2], "STR_MIN_FREE_HEAP")
    &&& rows[0].spec_value() == Some(units.spec_format(heap.free as int))
    &&& rows[1].spec_value() == Some(units.spec_format(heap.largest_block as int))
    &&& rows[2].spec_value() == Some(units.spec_format(heap.min_free as int))
    &&& forall|i: int| 0 <= i < 3 ==> (#[trigger] rows[i]).spec_message() == Some(message)
    &&& forall|i: int| 0 <= i < 3 ==> (#[trigger] rows[i]).spec_subtitle() is None
}

/// `row`'s title is a translation the host gives for `key`.
pub open spec fn labelled<M>(env: &Env, row: ListRow<M>, key: &str) -> bool {
    exists|t: String| #[trigger] translates(env.strings, key, t) && row.spec_title() == t@
}

/// One memory row: the translated label, the figure in `units`, and
/// `message` when tapped.
fn memory_row<M>(env: &Env, key: &str, units: Units, bytes: i32, message: M) -> (r: ListRow<M>)
    ensures
        labelled(env, r, key),
        r.spec_value() == Some(units.spec_format(bytes as int)),
        r.spec_message() == Some(message),
        r.spec_subtitle() is None,
{
    let label = translate(env.strings, key);
    let r = ListRow::new(label.as_str()).value(units.format(bytes)).on_tap(message);
    assert(translates(env.strings, key, label) && r.spec_title() == label@);
    r
}

/// The heap figures as a list whose rows all send `message`.
pub fn memory_list<M: Copy>(env: &Env, units: Units, heap: Heap, message: M) -> (l: List<M>)
    ensures
        memory_rows(env, l, units, heap, message),
{
    let free = memory_row(env, "STR_FREE_HEAP", units, heap.free, message);
    let largest = memory_row(env, "STR_LARGEST_BLOCK", units, heap.largest_block, message);
    let lowest = memory_row(env, "STR_MIN_FREE_HEAP", units, heap.min_free, message);
    let list = List::new().push(free).push(largest).push(lowest);
    assert(list.spec_rows() =~= seq![free, largest, lowest]);
    list
}

impl Screen for DevelopersScreen {
    type Message = Msg;

    type Body = NavigationScreen<Msg, Stack<Msg>>;

    /// The panel choice under the experimental heading, then the heap figures
    /// under the memory heading, one theme spacing apart.
    fn body(&self, env: &Env) -> (view: NavigationScreen<Msg, Stack<Msg>>)
        ensures
            view.spec_measured() == Size::zero_spec(),
            view.spec_content().spec_axis() == Axis::Vertical,
            view.spec_content().spec_spacing() == env.theme.vertical_spacing,
            view.spec_content().spec_alignment() == Alignment::Start,
            view.spec_content().spec_children().len() == 2,
            view.spec_content().spec_measured() == Size::zero_spec(),
    {
        let spacing = env.theme.vertical_spacing;
        let experimental = translate(env.strings, "STR_SECTION_EXPERIMENTAL");
        let memory = translate(env.strings, "STR_SECTION_MEMORY");
        let column = Stack::vertical(spacing).push(
            Box::new(Section::new(experimental.as_str(), self.frontlight_panel_toggle(env))),
        ).push(Box::new(Section::new(memory.as_str(), self.memory_usage_view(env))));
        NavigationScreen::new(column)
    }

    fn update(&mut self, message: Msg, requests: &mut Requests)
        ensures
            *final(requests) == *old(requests),
            final(self).spec_heap() == old(self).spec_heap(),
            final(self).spec_rust_panel() == old(self).spec_rust_panel(),
            message matches Msg::RustPanel(enabled) ==> {
                &&& final(self).spec_writes() == old(self).spec_writes().push(
                    DeviceWrite::RustFrontlightPanel(enabled),
                )
                &&& final(self).spec_units() == old(self).spec_units()
            },
            message is CycleUnits ==> {
                &&& final(self).spec_units() == old(self).spec_units().spec_next()
                &&& final(self).spec_writes() == old(self).spec_writes()
            },
    {
        match message {
            Msg::RustPanel(enabled) => DevSettings::set_frontlight_panel_rust(&mut self.writes, enabled),
            Msg::CycleUnits => {
                self.units = self.units.next();
            },
        }
    }
}

} // verus!
