//! A modal option chooser.
use vstd::prelude::*;

use crate::geometry::{Point, Rect, Size};
use crate::host::{places_row, Chrome, DrawOp, Renderer, Theme};
use crate::view::{Env, Interactions, Widget};

verus! {

/// A centred dialog offering a list of options, drawn by the firmware theme.
///
/// Renders **over** whatever is already in the framebuffer — it does not
/// clear. Stateless like the other widgets: the screen owns which option is
/// selected and whether the modal is open.
pub struct Modal {
    title: String,
    options: Vec<String>,
    selected: i32,
    measured: Size,
}

impl Modal {
    pub closed spec fn spec_title(&self) -> Seq<char> {
        self.title@
    }

    pub closed spec fn spec_options(&self) -> Seq<String> {
        self.options@
    }

    pub closed spec fn spec_options_vec(&self) -> Vec<String> {
        self.options
    }

    pub closed spec fn spec_selected(&self) -> i32 {
        self.selected
    }

    pub closed spec fn spec_measured(&self) -> Size {
        self.measured
    }

    pub fn new(title: &str, options: Vec<String>) -> (m: Modal)
        ensures
            m.spec_title() == title@,
            m.spec_options() == options@,
            m.spec_options_vec() == options,
            m.spec_selected() == 0,
            m.spec_measured() == Size::zero_spec(),
    {
        Modal { title: String::from_str(title), options, selected: 0, measured: Size::zero() }
    }

    /// Highlights an option.
    pub fn selected(self, index: usize) -> (m: Modal)
        ensures
            m.spec_title() == self.spec_title(),
            m.spec_options() == self.spec_options(),
            m.spec_options_vec() == self.spec_options_vec(),
            m.spec_selected() == index as i32,
            m.spec_measured() == self.spec_measured(),
    {
        let mut m = self;
        m.selected = index as i32;
        m
    }

    pub fn len(&self) -> (n: usize)
        ensures
            n == self.spec_options().len(),
    {
        self.options.len()
    }

    pub fn is_empty(&self) -> (b: bool)
        ensures
            b == (self.spec_options().len() == 0),
    {
        self.options.len() == 0
    }

    /// Screen rect of one option row, for hit-testing a tap: `None` when the
    /// index is out of range. The geometry comes from the host, which already
    /// owns that math for its own popup.
    pub fn row_rect<C: Chrome + ?Sized>(&self, chrome: &C, index: usize) -> (r: Option<Rect>)
        ensures
            index >= self.spec_options().len() ==> r is None,
            index < self.spec_options().len() ==> places_row(
                chrome,
                self.spec_title(),
                self.spec_options_vec(),
                index,
                r,
            ),
    {
        if index >= self.options.len() {
            return None;
        }
        Theme::option_popup_row_rect(chrome, self.title.as_str(), &self.options, index)
    }

    /// The option whose row contains `point`, if any: the first such row,
    /// asking the host for rows in order until one contains it.
    pub fn option_at<C: Chrome + ?Sized>(&self, chrome: &C, point: Point) -> (r: Option<usize>)
        ensures
            exists|rows: Seq<Option<Rect>>|
                #[trigger] reported_rows(chrome, self.spec_title(), self.spec_options_vec(), rows)
                    && rows.len() <= self.spec_options().len() && first_containing(rows, point, r)
                    && (r is None ==> rows.len() == self.spec_options().len()),
    {
        let ghost mut rows: Seq<Option<Rect>> = Seq::empty();
        let mut i: usize = 0;
        while i < self.options.len()
            invariant
                0 <= i <= self.options@.len(),
                rows.len() == i,
                reported_rows(chrome, self.title@, self.options, rows),
                forall|j: int| 0 <= j < i ==> !row_contains(#[trigger] rows[j], point),
            decreases self.options@.len() - i,
        {
            let row = self.row_rect(chrome, i);
            proof {
                rows = rows.push(row);
            }
            match row {
                Some(rect) => {
                    if rect.contains_wide(point) {
                        assert(first_containing(rows, point, Some(i)));
                        assert(reported_rows(chrome, self.spec_title(), self.spec_options_vec(), rows));
                        return Some(i);
                    }
                },
                None => {},
            }
            i = i + 1;
        }
        assert(first_containing(rows, point, None));
        assert(reported_rows(chrome, self.spec_title(), self.spec_options_vec(), rows));
        None
    }
}

/// Whether a row the host reported contains `point`.
pub open spec fn row_contains(row: Option<Rect>, point: Point) -> bool {
    row matches Some(rect) && rect.spec_contains(point)
}

/// Each of `rows` is a rect the host can report for that row of the dialog.
pub open spec fn reported_rows<C: Chrome + ?Sized>(
    chrome: &C,
    title: Seq<char>,
    options: Vec<String>,
    rows: Seq<Option<Rect>>,
) -> bool {
    forall|i: int| 0 <= i < rows.len() ==> places_row(chrome, title, options, i as usize, #[trigger] rows[i])
}

/// `found` is the first of `rows` that contains `point`, or `None` when none
/// of them does.
pub open spec fn first_containing(rows: Seq<Option<Rect>>, point: Point, found: Option<usize>) -> bool {
    match found {
        Some(i) => {
            &&& i < rows.len()
            &&& row_contains(rows[i as int], point)
            &&& forall|j: int| 0 <= j < i ==> !row_contains(#[trigger] rows[j], point)
        },
        None => forall|j: int| 0 <= j < rows.len() ==> !row_contains(#[trigger] rows[j], point),
    }
}

impl<M> Widget<M> for Modal {
    open spec fn spec_size(&self) -> Size {
        self.spec_measured()
    }

    open spec fn spec_flexible(&self) -> bool {
        false
    }

    open spec fn spec_contributes(&self) -> bool {
        true
    }

    fn is_flexible(&self) -> (b: bool) {
        false
    }

    fn contributes_cross_size(&self) -> (b: bool) {
        true
    }

    /// The theme centres the dialog on screen and sizes it to its content, so
    /// the modal occupies the whole area offered.
    fn measure(&mut self, available: Size, env: &Env)
        ensures
            final(self).spec_measured() == available,
            final(self).spec_title() == old(self).spec_title(),
            final(self).spec_options() == old(self).spec_options(),
            final(self).spec_selected() == old(self).spec_selected(),
    {
        self.measured = available;
    }

    fn size(&self) -> (s: Size) {
        self.measured
    }

    /// The theme's own option popup; nothing when there are no options.
    fn render(&self, origin: Point, out: &mut Renderer, env: &Env)
        ensures
            self.spec_options().len() == 0 ==> final(out).ops@ == old(out).ops@,
            self.spec_options().len() > 0 ==> {
                &&& final(out).ops@.len() == old(out).ops@.len() + 1
                &&& final(out).ops@.last() matches DrawOp::OptionPopup { title, options, selected }
                    && title@ == self.spec_title() && options@ == self.spec_options()
                    && selected == self.spec_selected()
            },
    {
        if self.options.len() == 0 {
            proof {
                assert(out.ops@.take(old(out).ops@.len() as int) =~= old(out).ops@);
            }
            return ;
        }
        let options = self.options.clone();
        proof {
            assert forall|i: int| 0 <= i < options@.len() implies options@[i] == self.options@[i] by {
                assert(cloned::<String>(self.options[i], options[i]));
            }
            assert(options@ =~= self.options@);
        }
        Theme::draw_option_popup(out, self.title.clone(), options, self.selected);
        proof {
            assert(out.ops@.take(old(out).ops@.len() as int) =~= old(out).ops@);
        }
    }

    /// The screen routes input to a modal itself, so it declares nothing.
    fn interactions(&mut self, origin: Point, out: &mut Interactions<M>, env: &Env)
        ensures
            *final(out) == *old(out),
    {
    }
}

} // verus!
