//! The Developers screen in its first form: heap figures alone.
//!
//! Shows live heap figures — the numbers no build-time size report can show,
//! because Rust allocates through the firmware heap and so contributes almost
//! nothing to static sections.
use vstd::prelude::*;

use crate::activities::settings::developers_screen::{memory_list, memory_rows};
use crate::device::Heap;
use crate::geometry::Size;
use crate::host::{translate, translates};
use crate::screen::navigation::NavigationScreen;
use crate::screen::{Requests, Screen};
use crate::units::Units;
use crate::view::Env;
use crate::widgets::list::List;
use crate::widgets::section::Section;

verus! {

/// Everything this screen can be told.
#[derive(Copy, Clone, Debug, PartialEq, Eq, Structural)]
pub enum Msg {
    /// Any memory row: the unit applies to all of them, so they share it.
    CycleUnits,
}

/// The scale byte figures are shown in, and the latest figures as the
/// firmware reports them.
pub struct DevelopersScreen {
    units: Units,
    heap: Heap,
}

impl DevelopersScreen {
    pub closed spec fn spec_units(&self) -> Units {
        self.units
    }

    pub closed spec fn spec_heap(&self) -> Heap {
        self.heap
    }

    /// Opens on kilobytes, with no figures yet.
    pub fn new() -> (s: DevelopersScreen)
        ensures
            s.spec_units() == Units::Kilobytes,
            s.spec_heap() == (Heap { free: 0, largest_block: 0, min_free: 0 }),
    {
        DevelopersScreen { units: Units::Kilobytes, heap: Heap { free: 0, largest_block: 0, min_free: 0 } }
    }

    /// The firmware's current heap figures, read before each frame so the
    /// figures shown are always current.
    pub fn observe(&mut self, heap: Heap)
        ensures
            final(self).spec_heap() == heap,
            final(self).spec_units() == old(self).spec_units(),
    {
        self.heap = heap;
    }

    /// The three heap figures, in the current unit.
    pub fn memory_usage_view(&self, env: &Env) -> (l: List<Msg>)
        ensures
            memory_rows(env, l, self.spec_units(), self.spec_heap(), Msg::CycleUnits),
    {
        memory_list(env, self.units, self.heap, Msg::CycleUnits)
    }
}

impl Screen for DevelopersScreen {
    type Message = Msg;

    type Body = NavigationScreen<Msg, Section<Msg, List<Msg>>>;

    /// The heap figures under the memory heading: the only group on the
    /// screen, so it sits at the top of the content area.
    fn body(&self, env: &Env) -> (view: NavigationScreen<Msg, Section<Msg, List<Msg>>>)
        ensures
            view.spec_measured() == Size::zero_spec(),
            exists|heading: String|
                #[trigger] translates(env.strings, "STR_SECTION_MEMORY", heading)
                    && view.spec_content().spec_title() == heading@,
            memory_rows(
                env,
                view.spec_content().spec_content(),
                self.spec_units(),
                self.spec_heap(),
                Msg::CycleUnits,
            ),
            view.spec_content().spec_measured() == Size::zero_spec(),
    {
        let memory = translate(env.strings, "STR_SECTION_MEMORY");
        let section = Section::new(memory.as_str(), self.memory_usage_view(env));
        NavigationScreen::new(section)
    }

    fn update(&mut self, message: Msg, requests: &mut Requests)
        ensures
            *final(requests) == *old(requests),
            final(self).spec_heap() == old(self).spec_heap(),
            final(self).spec_units() == old(self).spec_units().spec_next(),
    {
        match message {
            Msg::CycleUnits => {
                self.units = self.units.next();
            },
        }
    }
}

} // verus!
