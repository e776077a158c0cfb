//! A selectable list drawn by the host's theme.
use vstd::prelude::*;

use crate::geometry::{nonneg, Point, Rect, Size};
use crate::host::{
    coord, coord_limit, extent, metric_limit, opt_text_eq, point_in_range, size_in_range, DrawOp,
    Renderer, RowCells, RowField, Theme, ThemeMetric,
};
use crate::view::{Env, InputMask, Interaction, Interactions, Trigger, Widget};

verus! {

/// One row of a [`List`]: a title, optionally a subtitle and a value, and the
/// message a tap or Confirm sends. A row without a message is a read-out: it
/// neither responds nor takes focus.
pub struct ListRow<M> {
    title: String,
    subtitle: Option<String>,
    value: Option<String>,
    message: Option<M>,
}

impl<M> ListRow<M> {
    pub closed spec fn spec_title(&self) -> Seq<char> {
        self.title@
    }

    pub closed spec fn spec_subtitle(&self) -> Option<Seq<char>> {
        match self.subtitle {
            Some(s) => Some(s@),
            None => None,
        }
    }

    pub closed spec fn spec_value(&self) -> Option<Seq<char>> {
        match self.value {
            Some(s) => Some(s@),
            None => None,
        }
    }

    pub closed spec fn spec_message(&self) -> Option<M> {
        self.message
    }

    /// A read-out row showing `title`.
    pub fn new(title: &str) -> (r: ListRow<M>)
        ensures
            r.spec_title() == title@,
            r.spec_subtitle() is None,
            r.spec_value() is None,
            r.spec_message() is None,
    {
        ListRow { title: String::from_str(title), subtitle: None, value: None, message: None }
    }

    /// A second line under the title. Any row with one makes the theme use its
    /// taller two-line row for the whole list.
    pub fn subtitle(self, subtitle: &str) -> (r: ListRow<M>)
        ensures
            r.spec_title() == self.spec_title(),
            r.spec_subtitle() == Some(subtitle@),
            r.spec_value() == self.spec_value(),
            r.spec_message() == self.spec_message(),
    {
        let mut r = self;
        r.subtitle = Some(String::from_str(subtitle));
        r
    }

    /// A value shown at the row's trailing edge.
    pub fn value(self, value: String) -> (r: ListRow<M>)
        ensures
            r.spec_title() == self.spec_title(),
            r.spec_subtitle() == self.spec_subtitle(),
            r.spec_value() == Some(value@),
            r.spec_message() == self.spec_message(),
    {
        let mut r = self;
        r.value = Some(value);
        r
    }

    /// Sends `message` when the row is tapped or confirmed.
    pub fn on_tap(self, message: M) -> (r: ListRow<M>)
        ensures
            r.spec_title() == self.spec_title(),
            r.spec_subtitle() == self.spec_subtitle(),
            r.spec_value() == self.spec_value(),
            r.spec_message() == Some(message),
    {
        let mut r = self;
        r.message = Some(message);
        r
    }

    /// The text the theme asks for in one field, or `None` to omit it.
    pub fn field(&self, field: RowField) -> (t: Option<&str>)
        ensures
            field is Title ==> (t matches Some(s) && s@ == self.spec_title()),
            field is Subtitle ==> match self.spec_subtitle() {
                Some(v) => t matches Some(s) && s@ == v,
                None => t is None,
            },
            field is Value ==> match self.spec_value() {
                Some(v) => t matches Some(s) && s@ == v,
                None => t is None,
            },
    {
        match field {
            RowField::Title => Some(self.title.as_str()),
            RowField::Subtitle => match &self.subtitle {
                Some(s) => Some(s.as_str()),
                None => None,
            },
            RowField::Value => match &self.value {
                Some(s) => Some(s.as_str()),
                None => None,
            },
        }
    }

    /// All three fields, as the theme draws the row.
    fn cells(&self) -> (c: RowCells)
        ensures
            c.title matches Some(t) && t@ == self.spec_title(),
            opt_text_view(c.subtitle) == self.spec_subtitle(),
            opt_text_view(c.value) == self.spec_value(),
    {
        RowCells {
            title: Some(self.title.clone()),
            subtitle: match &self.subtitle {
                Some(s) => Some(s.clone()),
                None => None,
            },
            value: match &self.value {
                Some(s) => Some(s.clone()),
                None => None,
            },
        }
    }
}

/// `cells` are what the theme draws for `row`: its title, subtitle and value.
pub open spec fn shows_row<M>(cells: RowCells, row: ListRow<M>) -> bool {
    &&& cells.title matches Some(t) && t@ == row.spec_title()
    &&& opt_text_view(cells.subtitle) == row.spec_subtitle()
    &&& opt_text_view(cells.value) == row.spec_value()
}

/// What an optional string says.
pub open spec fn opt_text_view(s: Option<String>) -> Option<Seq<char>> {
    match s {
        Some(t) => Some(t@),
        None => None,
    }
}

/// Whether any row has a subtitle.
pub open spec fn any_subtitle<M>(rows: Seq<ListRow<M>>) -> bool {
    exists|i: int| 0 <= i < rows.len() && (#[trigger] rows[i]).spec_subtitle() is Some
}

/// The height the theme draws a row at.
pub open spec fn spec_row_height<M>(rows: Seq<ListRow<M>>, theme: Theme) -> int {
    if any_subtitle(rows) {
        theme.list_row_height_with_subtitle as int
    } else {
        theme.list_row_height as int
    }
}

/// The height a list of `n` rows asks for: every row, and the gap the theme
/// leaves between consecutive ones.
pub open spec fn list_height(n: int, row_height: int, gap: int) -> int {
    nonneg(row_height * n + gap * nonneg(n - 1))
}

/// The value `i32::try_from` gives for an index, or `-1` when it does not fit.
pub open spec fn index_or_none(index: int) -> i32 {
    if index <= i32::MAX {
        index as i32
    } else {
        -1i32
    }
}

/// A themed, selectable list filling the width it is given.
///
/// The theme owns row height, the selection highlight and pagination, so this
/// looks and behaves exactly like the firmware's own list screens.
pub struct List<M> {
    rows: Vec<ListRow<M>>,
    /// Explicit override; -1 means "let focus decide".
    selected: i32,
    /// Which row held focus at the last interactions walk, so `render` can
    /// highlight it without the screen tracking an index.
    focused_row: Option<usize>,
    measured: Size,
}

impl<M> List<M> {
    pub closed spec fn spec_rows(&self) -> Seq<ListRow<M>> {
        self.rows@
    }

    pub closed spec fn spec_selected(&self) -> i32 {
        self.selected
    }

    pub closed spec fn spec_focused_row(&self) -> Option<usize> {
        self.focused_row
    }

    pub closed spec fn spec_measured(&self) -> Size {
        self.measured
    }

    /// The row the theme should draw as selected: whichever holds focus, or
    /// the explicit override when a screen set one.
    pub open spec fn spec_highlighted(&self) -> i32 {
        match self.spec_focused_row() {
            Some(index) => index_or_none(index as int),
            None => self.spec_selected(),
        }
    }

    pub fn new() -> (l: List<M>)
        ensures
            l.spec_rows().len() == 0,
            l.spec_selected() == -1,
            l.spec_focused_row() is None,
            l.spec_measured() == Size::zero_spec(),
    {
        List { rows: Vec::new(), selected: -1, focused_row: None, measured: Size::zero() }
    }

    pub fn push(self, row: ListRow<M>) -> (l: List<M>)
        ensures
            l.spec_rows() == self.spec_rows().push(row),
            l.spec_selected() == self.spec_selected(),
            l.spec_focused_row() == self.spec_focused_row(),
            l.spec_measured() == self.spec_measured(),
    {
        let List { rows, selected, focused_row, measured } = self;
        let mut rows = rows;
        rows.push(row);
        List { rows, selected, focused_row, measured }
    }

    pub fn extend(self, rows: Vec<ListRow<M>>) -> (l: List<M>)
        ensures
            l.spec_rows() == self.spec_rows() + rows@,
            l.spec_selected() == self.spec_selected(),
            l.spec_focused_row() == self.spec_focused_row(),
            l.spec_measured() == self.spec_measured(),
    {
        let List { rows: mut all, selected, focused_row, measured } = self;
        let mut more = rows;
        all.append(&mut more);
        List { rows: all, selected, focused_row, measured }
    }

    /// Highlights a row explicitly, overriding the framework's focus.
    /// Out-of-range values highlight nothing.
    pub fn selected(self, index: usize) -> (l: List<M>)
        ensures
            l.spec_rows() == self.spec_rows(),
            l.spec_selected() == index_or_none(index as int),
            l.spec_focused_row() == self.spec_focused_row(),
            l.spec_measured() == self.spec_measured(),
    {
        let List { rows, selected: _, focused_row, measured } = self;
        let selected = if index <= i32::MAX as usize {
            index as i32
        } else {
            -1
        };
        List { rows, selected, focused_row, measured }
    }

    pub fn len(&self) -> (n: usize)
        ensures
            n == self.spec_rows().len(),
    {
        self.rows.len()
    }

    pub fn is_empty(&self) -> (b: bool)
        ensures
            b == (self.spec_rows().len() == 0),
    {
        self.rows.len() == 0
    }

    /// Whether any row carries a subtitle, which makes the theme use its
    /// taller two-line row.
    fn has_subtitle(&self) -> (b: bool)
        ensures
            b == any_subtitle(self.spec_rows()),
    {
        let mut i: usize = 0;
        while i < self.rows.len()
            invariant
                0 <= i <= self.rows@.len(),
                forall|j: int| 0 <= j < i ==> (#[trigger] self.rows@[j]).spec_subtitle() is None,
            decreases self.rows@.len() - i,
        {
            if self.rows[i].subtitle.is_some() {
                assert(self.rows@[i as int].spec_subtitle() is Some);
                return true;
            }
            i = i + 1;
        }
        false
    }

    /// Height of one row, as the active theme draws it.
    fn row_height(&self, theme: &Theme) -> (h: i32)
        ensures
            h == spec_row_height(self.spec_rows(), *theme),
    {
        theme.metric(
            if self.has_subtitle() {
                ThemeMetric::ListRowHeightWithSubtitle
            } else {
                ThemeMetric::ListRowHeight
            },
        )
    }

    /// Distance from the top of one row to the top of the next, gap included.
    fn row_pitch(&self, theme: &Theme) -> (p: i32)
        requires
            theme.wf(),
        ensures
            p == spec_row_height(self.spec_rows(), *theme) + theme.list_row_gap,
    {
        proof {
            theme.lemma_fields();
        }
        self.row_height(theme) + theme.metric(ThemeMetric::ListRowGap)
    }

    fn highlighted(&self) -> (h: i32)
        ensures
            h == self.spec_highlighted(),
    {
        match self.focused_row {
            Some(index) => if index <= i32::MAX as usize {
                index as i32
            } else {
                -1
            },
            None => self.selected,
        }
    }
}

impl<M> Default for List<M> {
    fn default() -> (l: List<M>)
        ensures
            l.spec_rows().len() == 0,
            l.spec_selected() == -1,
            l.spec_focused_row() is None,
    {
        List::new()
    }
}

/// Where row `index` sits in a list drawn at `origin`.
pub open spec fn row_rect(origin: Point, index: int, pitch: int, width: int, height: int) -> Rect {
    Rect::spec_new(origin.x as int, origin.y + index * pitch, width, height)
}

/// Whether row `index`'s band, `pitch` apart and `height` tall below
/// `origin`, ends within the reach of an `i32` coordinate. Rows past that
/// cannot be placed; the list declares none of them.
pub open spec fn band_fits(origin: Point, index: int, pitch: int, height: int) -> bool {
    origin.y + index * pitch + height <= i32::MAX
}

/// The rows among the first `k` that carry a message, in order: the ones a
/// list declares.
pub open spec fn declared_rows<M>(rows: Seq<ListRow<M>>, k: int) -> Seq<int>
    decreases k,
{
    if k <= 0 {
        Seq::empty()
    } else if rows[k - 1].spec_message() is Some {
        declared_rows(rows, k - 1).push(k - 1)
    } else {
        declared_rows(rows, k - 1)
    }
}

/// At least one: the row height or pitch a list hit-tests with.
pub open spec fn at_least_one(v: int) -> int {
    if v < 1 {
        1
    } else {
        v
    }
}

/// `item` is what a list drawn at `origin`, `width` wide, declares for `row`
/// at `index`: the row's band, a tap and focus stop, and a copy of its
/// message.
pub open spec fn row_declared<M: Clone>(
    item: Interaction<M>,
    row: ListRow<M>,
    index: int,
    origin: Point,
    pitch: int,
    width: int,
    height: int,
) -> bool {
    &&& item.rect == row_rect(origin, index, pitch, width, height)
    &&& item.mask == InputMask(3)
    &&& row.spec_message() matches Some(message) && item.trigger matches Trigger::Message(m)
        && cloned(message, m)
}

impl<M: Clone> Widget<M> for List<M> {
    open spec fn spec_size(&self) -> Size {
        self.spec_measured()
    }

    open spec fn spec_flexible(&self) -> bool {
        false
    }

    open spec fn spec_contributes(&self) -> bool {
        true
    }

    fn is_flexible(&self) -> (b: bool) {
        false
    }

    fn contributes_cross_size(&self) -> (b: bool) {
        true
    }


    /// Only as tall as the rows need, capped by what is offered. Claiming the
    /// whole band would stop several lists sharing one screen.
    fn measure(&mut self, available: Size, env: &Env)
        ensures
            final(self).spec_measured() == (Size {
                width: nonneg(available.width as int) as i32,
                height: nonneg(
                    vstd::math::min(
                        list_height(
                            old(self).spec_rows().len() as int,
                            spec_row_height(old(self).spec_rows(), env.theme),
                            env.theme.list_row_gap as int,
                        ),
                        available.height as int,
                    ),
                ) as i32,
            }),
            final(self).spec_rows() == old(self).spec_rows(),
            final(self).spec_selected() == old(self).spec_selected(),
            final(self).spec_focused_row() == old(self).spec_focused_row(),
    {
        proof {
            env.theme.lemma_fields();
        }
        let rows = self.rows.len() as i128;
        let row_height = self.row_height(&env.theme) as i128;
        let gap = env.theme.metric(ThemeMetric::ListRowGap) as i128;
        let gaps = if rows - 1 < 0 {
            0
        } else {
            rows - 1
        };
        proof {
            assert(row_height * rows <= 0x400_0000 * 0x1_0000_0000_0000_0000) by (nonlinear_arith)
                requires
                    0 <= row_height <= 0x400_0000,
                    0 <= rows <= 0x1_0000_0000_0000_0000,
            ;
            assert(gap * gaps <= 0x400_0000 * 0x1_0000_0000_0000_0000) by (nonlinear_arith)
                requires
                    0 <= gap <= 0x400_0000,
                    0 <= gaps <= 0x1_0000_0000_0000_0000,
            ;
            assert(row_height * rows >= 0) by (nonlinear_arith)
                requires
                    0 <= row_height,
                    0 <= rows,
            ;
            assert(gap * gaps >= 0) by (nonlinear_arith)
                requires
                    0 <= gap,
                    0 <= gaps,
            ;
        }
        let needed = row_height * rows + gap * gaps;
        let height = if needed < available.height as i128 {
            needed as i32
        } else {
            available.height
        };
        self.measured = Size::new(available.width, height);
    }

    fn size(&self) -> (s: Size) {
        self.measured
    }

    /// Declares one interaction per interactive row, in order, so focus moves
    /// down the list exactly as it reads. Rows are uniform, so each rect is the
    /// same row height the theme draws with.
    fn interactions(&mut self, origin: Point, out: &mut Interactions<M>, env: &Env)
        ensures
            final(self).spec_rows() == old(self).spec_rows(),
            final(self).spec_selected() == old(self).spec_selected(),
            final(self).spec_measured() == old(self).spec_measured(),
            final(out).spec_focus() == old(out).spec_focus(),
            final(out).spec_ignoring() == old(out).spec_ignoring(),
            old(out).counted() ==> final(out).counted(),
            final(self).spec_focused_row() matches Some(index) ==> {
                &&& index < old(self).spec_rows().len()
                &&& old(self).spec_rows()[index as int].spec_message() is Some
            },
            old(out).spec_ignoring() ==> final(out).spec_items() == old(out).spec_items(),
            !old(out).spec_ignoring() ==> exists|reach: int|
                #![trigger declared_rows(old(self).spec_rows(), reach)]
                {
                let pitch = at_least_one(spec_row_height(old(self).spec_rows(), env.theme) + env.theme.list_row_gap);
                let height = at_least_one(spec_row_height(old(self).spec_rows(), env.theme));
                let declared = declared_rows(old(self).spec_rows(), reach);
                let start = old(out).spec_items().len();
                &&& 0 <= reach <= old(self).spec_rows().len()
                &&& forall|i: int| 0 <= i < reach ==> #[trigger] band_fits(origin, i, pitch, height)
                &&& reach < old(self).spec_rows().len() ==> !band_fits(origin, reach, pitch, height)
                &&& final(out).spec_items().len() == start + declared.len()
                &&& final(out).spec_items().take(start as int) == old(out).spec_items()
                &&& forall|j: int|
                    0 <= j < declared.len() ==> row_declared(
                        #[trigger] final(out).spec_items()[start + j],
                        old(self).spec_rows()[declared[j]],
                        declared[j],
                        origin,
                        at_least_one(spec_row_height(old(self).spec_rows(), env.theme) + env.theme.list_row_gap),
                        old(self).spec_measured().width as int,
                        at_least_one(spec_row_height(old(self).spec_rows(), env.theme)),
                    )
            },
    {
        proof {
            env.theme.lemma_fields();
        }
        self.focused_row = None;
        let raw_height = self.row_height(&env.theme);
        let height = if raw_height < 1 {
            1
        } else {
            raw_height
        };
        let raw_pitch = self.row_pitch(&env.theme);
        let pitch = if raw_pitch < 1 {
            1
        } else {
            raw_pitch
        };
        let width = self.measured.width;
        let ghost start = out.spec_items();
        let ghost rows = self.rows@;
        let mut index: usize = 0;
        let mut more = true;
        while index < self.rows.len() && more
            invariant
                rows == old(self).rows@,
                start == old(out).spec_items(),
                height == at_least_one(spec_row_height(rows, env.theme)),
                pitch == at_least_one(spec_row_height(rows, env.theme) + env.theme.list_row_gap),
                old(out).spec_ignoring() ==> out.spec_items() == start,
                !old(out).spec_ignoring() ==> {
                    let declared = declared_rows(rows, index as int);
                    &&& out.spec_items().len() == start.len() + declared.len()
                    &&& out.spec_items().take(start.len() as int) == start
                    &&& forall|j: int|
                        0 <= j < declared.len() ==> row_declared(
                            #[trigger] out.spec_items()[start.len() + j],
                            rows[declared[j]],
                            declared[j],
                            origin,
                            pitch as int,
                            width as int,
                            height as int,
                        )
                },
                0 <= index <= self.rows@.len(),
                forall|i: int| 0 <= i < index ==> #[trigger] band_fits(origin, i, pitch as int, height as int),
                !more ==> index < self.rows@.len() && !band_fits(origin, index as int, pitch as int, height as int),
                self.rows@ == old(self).rows@,
                self.selected == old(self).selected,
                self.measured == old(self).measured,
                width == self.measured.width,
                size_in_range(self.measured),
                point_in_range(origin),
                1 <= height <= 0x400_0000,
                1 <= pitch <= 0x800_0000,
                out.wf(),
                out.spec_focus() == old(out).spec_focus(),
                out.spec_ignoring() == old(out).spec_ignoring(),
                old(out).counted() ==> out.counted(),
                self.focused_row matches Some(i) ==> i < index && self.rows@[i as int].spec_message() is Some,
            decreases self.rows@.len() - index + if more { 1int } else { 0int },
        {
            proof {
                assert(index * pitch <= 0x1_0000_0000_0000_0000 * 0x800_0000) by (nonlinear_arith)
                    requires
                        0 <= index <= 0x1_0000_0000_0000_0000,
                        1 <= pitch <= 0x800_0000,
                ;
                assert(index * pitch >= 0) by (nonlinear_arith)
                    requires
                        0 <= index,
                        1 <= pitch,
                ;
            }
            let bottom = origin.y as i128 + index as i128 * pitch as i128 + height as i128;
            if bottom > 0x7fff_ffff {
                more = false;
            } else {
                match &self.rows[index].message {
                    Some(message) => {
                        let message = message.clone();
                        let y = (origin.y as i128 + index as i128 * pitch as i128) as i32;
                        let rect = Rect::new(origin.x, y, width, height);
                        let ghost before = out.spec_items();
                        if out.declare(rect, InputMask::default_mask(), Trigger::Message(message)) {
                            self.focused_row = Some(index);
                        }
                        proof {
                            if !old(out).spec_ignoring() {
                                let declared = declared_rows(rows, index as int);
                                assert(declared_rows(rows, index + 1) == declared.push(index as int));
                                assert(out.spec_items().take(start.len() as int) =~= start) by {
                                    assert(before.take(start.len() as int) == start);
                                }
                                assert forall|j: int| 0 <= j < declared.len() + 1 implies row_declared(
                                    #[trigger] out.spec_items()[start.len() + j],
                                    rows[declared.push(index as int)[j]],
                                    declared.push(index as int)[j],
                                    origin,
                                    pitch as int,
                                    width as int,
                                    height as int,
                                ) by {
                                    if j < declared.len() {
                                        assert(out.spec_items()[start.len() + j] == before[start.len() + j]);
                                    } else {
                                        assert(out.spec_items()[start.len() + j] == out.spec_items().last());
                                        assert(rect == row_rect(origin, index as int, pitch as int, width as int, height as int));
                                    }
                                }
                            }
                        }
                    },
                    None => {},
                }
                index = index + 1;
            }
        }
        proof {
            if !old(out).spec_ignoring() {
                let reach = index as int;
                assert(reach < rows.len() ==> !band_fits(origin, reach, pitch as int, height as int));
            }
        }
    }

    fn render(&self, origin: Point, out: &mut Renderer, env: &Env)
        ensures
            final(out).ops.len() == old(out).ops.len() + 1,
            final(out).ops@.last() matches DrawOp::List { rect, rows, selected } && rect == (Rect {
                origin,
                size: self.spec_measured(),
            }) && rows@.len() == self.spec_rows().len() && selected == self.spec_highlighted() && forall|k: int|
                0 <= k < rows@.len() ==> shows_row(#[trigger] rows@[k], self.spec_rows()[k]),
    {
        let mut cells: Vec<RowCells> = Vec::new();
        let mut i: usize = 0;
        while i < self.rows.len()
            invariant
                0 <= i <= self.rows@.len(),
                cells@.len() == i,
                forall|k: int| 0 <= k < i ==> shows_row(#[trigger] cells@[k], self.rows@[k]),
            decreases self.rows@.len() - i,
        {
            cells.push(self.rows[i].cells());
            i = i + 1;
        }
        let highlighted = self.highlighted();
        crate::host::Theme::draw_list(out, Rect { origin, size: self.measured }, cells, highlighted);
        proof {
            assert(out.ops@.take(old(out).ops@.len() as int) =~= old(out).ops@);
        }
    }
}

/// A list draws its rows in order: the `k`th row the theme is handed shows
/// the title, subtitle and value of the list's `k`th row, the one a tap in
/// band `k` answers for, and no row is added or left out.
pub proof fn lemma_list_draws_rows_in_order<M: Clone>(
    list: List<M>,
    origin: Point,
    before: Renderer,
    after: Renderer,
    env: &Env,
)
    requires
        exists|out: &mut Renderer|
            #[trigger] call_ensures(<List<M> as Widget<M>>::render, (&list, origin, out, env), ()) && *out
                == before && *final(out) == after,
    ensures
        after.ops@.len() == before.ops@.len() + 1,
        after.ops@.last() matches DrawOp::List { rect, rows, selected } && rows@.len() == list.spec_rows().len()
            && forall|k: int|
            0 <= k < rows@.len() ==> {
                &&& (#[trigger] rows@[k]).title matches Some(t) && t@ == list.spec_rows()[k].spec_title()
                &&& opt_text_view(rows@[k].subtitle) == list.spec_rows()[k].spec_subtitle()
                &&& opt_text_view(rows@[k].value) == list.spec_rows()[k].spec_value()
            },
{
}

} // verus!
