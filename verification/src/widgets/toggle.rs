//! A boolean setting, shown the way the firmware shows one.
use vstd::prelude::*;

use crate::geometry::{nonneg, Point, Size};
use crate::host::Renderer;
use crate::view::{builds_flag, build_flag, Env, Interactions, MakeFlag, Widget};
use crate::widgets::list::{List, ListRow};

verus! {

/// A boolean setting: a list row whose value reads the current state, and
/// whose tap sends the message for the state it is moving to — so a screen
/// never writes `!self.something`.
///
/// The firmware renders a setting as a row with an On/Off value rather than a
/// switch graphic, so this is one themed list row.
#[verifier::reject_recursive_types(M)]
pub struct Toggle<M> {
    label: String,
    on: bool,
    state: String,
    row: List<M>,
}

impl<M> Toggle<M> {
    pub closed spec fn spec_label(&self) -> Seq<char> {
        self.label@
    }

    pub closed spec fn spec_on(&self) -> bool {
        self.on
    }

    /// The text the row's value shows for the current state.
    pub closed spec fn spec_state(&self) -> Seq<char> {
        self.state@
    }

    /// The row that draws the setting.
    pub closed spec fn spec_row(&self) -> List<M> {
        self.row
    }

    /// A setting labelled `label`, currently `on`, whose value reads
    /// `on_text` or `off_text`.
    pub fn new(label: &str, on: bool, on_text: &str, off_text: &str) -> (t: Toggle<M>)
        ensures
            t.spec_label() == label@,
            t.spec_on() == on,
            t.spec_state() == if on {
                on_text@
            } else {
                off_text@
            },
            t.spec_row().spec_rows().len() == 1,
            t.spec_row().spec_rows()[0].spec_title() == label@,
            t.spec_row().spec_rows()[0].spec_value() == Some(t.spec_state()),
            t.spec_row().spec_rows()[0].spec_message() is None,
    {
        let state = String::from_str(if on {
            on_text
        } else {
            off_text
        });
        let row = ListRow::new(label).value(state.clone());
        Toggle { label: String::from_str(label), on, state, row: List::new().push(row) }
    }

    /// Sends the message for the next state when tapped or confirmed.
    pub fn on_change<F: MakeFlag<M>>(self, make: &F) -> (t: Toggle<M>)
        ensures
            t.spec_label() == self.spec_label(),
            t.spec_on() == self.spec_on(),
            t.spec_state() == self.spec_state(),
            t.spec_row().spec_rows().len() == 1,
            t.spec_row().spec_rows()[0].spec_title() == self.spec_label(),
            t.spec_row().spec_rows()[0].spec_value() == Some(self.spec_state()),
            t.spec_row().spec_rows()[0].spec_message() matches Some(m) && builds_flag(
                make,
                !self.spec_on(),
                m,
            ),
    {
        let message = build_flag(make, !self.on);
        let row = ListRow::new(self.label.as_str()).value(self.state.clone()).on_tap(message);
        Toggle { label: self.label, on: self.on, state: self.state, row: List::new().push(row) }
    }
}

impl<M: Clone> Widget<M> for Toggle<M> {
    open spec fn spec_size(&self) -> Size {
        self.spec_row().spec_size()
    }

    open spec fn spec_flexible(&self) -> bool {
        false
    }

    open spec fn spec_contributes(&self) -> bool {
        true
    }

    fn is_flexible(&self) -> (b: bool) {
        false
    }

    fn contributes_cross_size(&self) -> (b: bool) {
        true
    }

    /// The setting's row, measured against everything offered: a list fills
    /// the width it is given.
    fn measure(&mut self, available: Size, env: &Env)
        ensures
            final(self).spec_label() == old(self).spec_label(),
            final(self).spec_on() == old(self).spec_on(),
            final(self).spec_state() == old(self).spec_state(),
            exists|row: &mut List<M>|
                #[trigger] call_ensures(<List<M> as Widget<M>>::measure, (row, available, env), ()) && *row
                    == old(self).spec_row() && *final(row) == final(self).spec_row(),
    {
        self.row.measure(available, env);
    }

    fn size(&self) -> (s: Size) {
        self.row.size()
    }

    /// The setting's one row, as the list draws it.
    fn render(&self, origin: Point, out: &mut Renderer, env: &Env)
        ensures
            exists|drawn: &mut Renderer|
                #[trigger] call_ensures(
                    <List<M> as Widget<M>>::render,
                    (&self.spec_row(), origin, drawn, env),
                    (),
                ) && *drawn == *old(out) && *final(drawn) == *final(out),
    {
        self.row.render(origin, out, env);
    }

    /// The setting's one row, as the list declares it.
    fn interactions(&mut self, origin: Point, out: &mut Interactions<M>, env: &Env)
        ensures
            exists|row: &mut List<M>, declared: &mut Interactions<M>|
                #[trigger] call_ensures(<List<M> as Widget<M>>::interactions, (row, origin, declared, env), ())
                    && *row == old(self).spec_row() && *final(row) == final(self).spec_row() && *declared
                    == *old(out) && *final(declared) == *final(out),
            final(self).spec_label() == old(self).spec_label(),
            final(self).spec_on() == old(self).spec_on(),
            final(self).spec_state() == old(self).spec_state(),
    {
        self.row.interactions(origin, out, env);
    }
}

/// A setting row fills the width it is offered, and is no taller than
/// offered: measured against `available`, it is `available.width` wide (a
/// negative offer reading as zero) and its list's rows are kept.
pub proof fn lemma_toggle_fills_its_width<M: Clone>(
    before: Toggle<M>,
    after: Toggle<M>,
    available: Size,
    env: &Env,
)
    requires
        exists|t: &mut Toggle<M>|
            #[trigger] call_ensures(<Toggle<M> as Widget<M>>::measure, (t, available, env), ()) && *t == before
                && *final(t) == after,
    ensures
        after.spec_size().width == nonneg(available.width as int),
        0 <= after.spec_size().height <= nonneg(available.height as int),
        after.spec_row().spec_rows() == before.spec_row().spec_rows(),
        after.spec_label() == before.spec_label(),
        after.spec_on() == before.spec_on(),
{
}

} // verus!
