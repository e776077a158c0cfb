//! Stacks: children laid out one after another along an axis.
use vstd::prelude::*;

use crate::geometry::{nonneg, Point, Rect, Size};
use crate::host::{coord, coord_limit, extent, in_layout_range, rect_in_range, saturate, size_in_range, Renderer};
use crate::units::div_toward_zero;
use crate::view::{declare_in, declares, draw_in, draws, measure_in, measures, Env, Interactions, Widget};

verus! {

/// The most children a stack lays out.
pub open spec fn max_children() -> int {
    0x10000
}

/// Which way a stack runs.
#[derive(Copy, Clone, Debug, PartialEq, Eq, Structural)]
pub enum Axis {
    /// Top to bottom.
    Vertical,
    /// Left to right.
    Horizontal,
}

/// Where children sit across a stack's axis.
#[derive(Copy, Clone, Debug, PartialEq, Eq, Structural)]
pub enum Alignment {
    /// Against the top of a row, the left of a column.
    Start,
    /// On the midline.
    Center,
    /// Against the bottom of a row, the right of a column.
    End,
}

/// A size's length along `axis`.
pub open spec fn along(axis: Axis, s: Size) -> int {
    match axis {
        Axis::Vertical => s.height as int,
        Axis::Horizontal => s.width as int,
    }
}

/// A size's extent across `axis`.
pub open spec fn across(axis: Axis, s: Size) -> int {
    match axis {
        Axis::Vertical => s.width as int,
        Axis::Horizontal => s.height as int,
    }
}

/// The size that is `main` long along `axis` and `cross` across it.
pub open spec fn oriented(axis: Axis, main: int, cross: int) -> Size {
    match axis {
        Axis::Vertical => Size { width: cross as i32, height: main as i32 },
        Axis::Horizontal => Size { width: main as i32, height: cross as i32 },
    }
}

/// Where child `k` starts along the axis, measured from the stack's start:
/// each child begins where the one before it ended, plus the spacing.
pub open spec fn lead(axis: Axis, sizes: Seq<Size>, spacing: int, k: int) -> int
    decreases k,
{
    if k <= 0 {
        0
    } else {
        lead(axis, sizes, spacing, k - 1) + along(axis, sizes[k - 1]) + spacing
    }
}

/// How far the first `k` children reach along the axis.
pub open spec fn reach(axis: Axis, sizes: Seq<Size>, spacing: int, k: int) -> int {
    if k <= 0 {
        0
    } else {
        lead(axis, sizes, spacing, k - 1) + along(axis, sizes[k - 1])
    }
}

/// The widest of the first `k` children that count across the axis, or zero
/// when none does.
pub open spec fn breadth(axis: Axis, sizes: Seq<Size>, counts: Seq<bool>, k: int) -> int
    decreases k,
{
    if k <= 0 {
        0
    } else {
        let before = breadth(axis, sizes, counts, k - 1);
        if counts[k - 1] && across(axis, sizes[k - 1]) > before {
            across(axis, sizes[k - 1])
        } else {
            before
        }
    }
}

/// A length as a dimension: negative reads as zero, past the layout range as
/// its edge.
pub open spec fn dimension(v: int) -> int {
    saturate(nonneg(v))
}

/// The size a stack settles on around children of `sizes`: their reach along
/// the axis, and the widest of those that count across it.
pub open spec fn stack_size(axis: Axis, sizes: Seq<Size>, counts: Seq<bool>, spacing: int) -> Size {
    oriented(
        axis,
        dimension(reach(axis, sizes, spacing, sizes.len() as int)),
        dimension(breadth(axis, sizes, counts, sizes.len() as int)),
    )
}

/// How far across the axis a child `child` wide sits inside a stack `total`
/// wide.
pub open spec fn inset_across(alignment: Alignment, total: int, child: int) -> int {
    match alignment {
        Alignment::Start => 0,
        Alignment::Center => div_toward_zero(total - child, 2),
        Alignment::End => total - child,
    }
}

/// One child of a stack.
#[verifier::reject_recursive_types(M)]
pub struct Child<M> {
    pub widget: Box<dyn Widget<M>>,
}

/// The sizes of `children`, in order.
pub open spec fn sizes_of<M>(children: Seq<Child<M>>) -> Seq<Size> {
    children.map(|i: int, c: Child<M>| c.widget.spec_size())
}

/// Whether each of `children` counts across a stack, in order.
pub open spec fn counts_of<M>(children: Seq<Child<M>>) -> Seq<bool> {
    children.map(|i: int, c: Child<M>| c.widget.spec_contributes())
}

/// Each child keeps whether it is flexible and whether it counts across.
pub open spec fn same_kinds<M>(a: Seq<Child<M>>, b: Seq<Child<M>>) -> bool {
    &&& a.len() == b.len()
    &&& forall|i: int|
        0 <= i < a.len() ==> (#[trigger] a[i]).widget.spec_flexible() == b[i].widget.spec_flexible()
            && a[i].widget.spec_contributes() == b[i].widget.spec_contributes()
}

/// Each child of `b` shows what the matching child of `a` shows, and sends
/// the same message when tapped.
pub open spec fn same_shown<M>(a: Seq<Child<M>>, b: Seq<Child<M>>) -> bool {
    &&& a.len() == b.len()
    &&& forall|i: int|
        0 <= i < a.len() ==> (#[trigger] b[i]).widget.spec_tap() == a[i].widget.spec_tap()
            && b[i].widget.spec_text() == a[i].widget.spec_text()
}

/// The sizes of all children are in layout range.
pub open spec fn all_in_range<M>(children: Seq<Child<M>>) -> bool {
    forall|i: int| 0 <= i < children.len() ==> size_in_range(#[trigger] children[i].widget.spec_size())
}

/// The point `main` along `axis` and `cross` across it.
pub open spec fn point_along(axis: Axis, main: int, cross: int) -> Point {
    match axis {
        Axis::Vertical => Point { x: cross as i32, y: main as i32 },
        Axis::Horizontal => Point { x: main as i32, y: cross as i32 },
    }
}

/// A point's coordinate along `axis`.
pub open spec fn point_main(axis: Axis, p: Point) -> int {
    match axis {
        Axis::Vertical => p.y as int,
        Axis::Horizontal => p.x as int,
    }
}

/// A point's coordinate across `axis`.
pub open spec fn point_cross(axis: Axis, p: Point) -> int {
    match axis {
        Axis::Vertical => p.x as int,
        Axis::Horizontal => p.y as int,
    }
}

/// Where a child of size `child`, starting `start` along the axis, sits in a
/// stack of size `measured` drawn at `origin` — aligned across the axis — or
/// `None` when it would fall outside layout range.
pub open spec fn place_at(
    axis: Axis,
    alignment: Alignment,
    origin: Point,
    measured: Size,
    child: Size,
    start: int,
) -> Option<Point> {
    let main = point_main(axis, origin) + start;
    let cross = point_cross(axis, origin) + inset_across(
        alignment,
        across(axis, measured),
        across(axis, child),
    );
    let at = point_along(axis, main, cross);
    if coord(main) && coord(cross) && rect_in_range(Rect { origin: at, size: child }) {
        Some(at)
    } else {
        None
    }
}

/// `children` with `child` after them.
fn append_child<M>(children: Vec<Child<M>>, child: Child<M>) -> (r: Vec<Child<M>>)
    ensures
        r@ == children@.push(child),
        r@.len() == children@.len() + 1,
        r@.take(children@.len() as int) == children@,
        r@.last() == child,
{
    let mut r = children;
    r.push(child);
    assert(r@.take(children@.len() as int) =~= children@);
    r
}

/// Where a child of size `child` sits in a stack drawn at `origin`, given
/// how far along the axis it starts. Shared by `render` and `interactions`,
/// so they cannot drift.
fn place_child(axis: Axis, alignment: Alignment, origin: Point, measured: Size, child: Size, start: i64) -> (p:
    Option<Point>)
    requires
        -0x1_0000_0000_0000 <= start <= 0x1_0000_0000_0000,
    ensures
        p == place_at(axis, alignment, origin, measured, child, start as int),
{
    let (main0, cross0, total, width) = match axis {
        Axis::Vertical => (origin.y as i64, origin.x as i64, measured.width as i64, child.width as i64),
        Axis::Horizontal => (origin.x as i64, origin.y as i64, measured.height as i64, child.height as i64),
    };
    let inset: i64 = match alignment {
        Alignment::Start => 0,
        Alignment::Center => (total - width) / 2,
        Alignment::End => total - width,
    };
    let main = main0 + start;
    let cross = cross0 + inset;
    if main < -0x3fff_ffff || main > 0x3fff_ffff || cross < -0x3fff_ffff || cross > 0x3fff_ffff {
        return None;
    }
    let at = match axis {
        Axis::Vertical => Point { x: cross as i32, y: main as i32 },
        Axis::Horizontal => Point { x: main as i32, y: cross as i32 },
    };
    if in_layout_range(Rect { origin: at, size: child }) {
        Some(at)
    } else {
        None
    }
}

/// How many of the first `k` children are flexible.
pub open spec fn flexible_count<M>(children: Seq<Child<M>>, k: int) -> int
    decreases k,
{
    if k <= 0 {
        0
    } else {
        flexible_count(children, k - 1) + if children[k - 1].widget.spec_flexible() {
            1int
        } else {
            0int
        }
    }
}

/// How long the first `k` children that are not flexible are along the axis,
/// end to end.
pub open spec fn rigid_length<M>(axis: Axis, children: Seq<Child<M>>, k: int) -> int
    decreases k,
{
    if k <= 0 {
        0
    } else {
        rigid_length(axis, children, k - 1) + if children[k - 1].widget.spec_flexible() {
            0int
        } else {
            along(axis, children[k - 1].widget.spec_size())
        }
    }
}

/// The space `n` children leave between them.
pub open spec fn gaps(spacing: int, n: int) -> int {
    if n > 0 {
        spacing * (n - 1)
    } else {
        0
    }
}

/// What each of `flexible` children is offered along the axis: an equal share
/// of what the rigid children and the gaps leave of `room`.
pub open spec fn share(room: int, rigid: int, gaps: int, flexible: int) -> int {
    if flexible <= 0 {
        0
    } else {
        dimension(nonneg(room - rigid - gaps) / flexible)
    }
}

/// What a stack along `axis`, offered `available`, offers each of its flexible
/// `children` once the rigid ones are measured: an equal share along the axis
/// of what the rigid ones and the gaps leave, and everything offered across.
pub open spec fn flexible_offer<M>(axis: Axis, available: Size, children: Seq<Child<M>>, spacing: int) -> Size {
    let n = children.len() as int;
    oriented(
        axis,
        share(
            along(axis, available),
            rigid_length(axis, children, n),
            gaps(spacing, n),
            flexible_count(children, n),
        ),
        across(axis, available),
    )
}

/// Measuring the flexible children changes neither the rigid length nor the
/// flexible count.
pub proof fn lemma_rigid_unchanged<M>(axis: Axis, a: Seq<Child<M>>, b: Seq<Child<M>>, k: int)
    requires
        0 <= k <= a.len(),
        a.len() == b.len(),
        forall|i: int| 0 <= i < a.len() ==> (#[trigger] b[i]).widget.spec_flexible() == a[i].widget.spec_flexible(),
        forall|i: int| 0 <= i < a.len() && !(#[trigger] a[i]).widget.spec_flexible() ==> b[i] == a[i],
    ensures
        rigid_length(axis, a, k) == rigid_length(axis, b, k),
        flexible_count(a, k) == flexible_count(b, k),
    decreases k,
{
    if k > 0 {
        lemma_rigid_unchanged(axis, a, b, k - 1);
        assert(b[k - 1].widget.spec_flexible() == a[k - 1].widget.spec_flexible());
        if !a[k - 1].widget.spec_flexible() {
            assert(b[k - 1] == a[k - 1]);
        }
    }
}

/// Measures each child whose flexibility is `flexible` against `offer`, and
/// leaves the others as they were.
fn measure_children<M>(children: &mut Vec<Child<M>>, flexible: bool, offer: Size, env: &Env)
    requires
        env.wf(),
        size_in_range(offer),
    ensures
        same_kinds(final(children)@, old(children)@),
        same_shown(old(children)@, final(children)@),
        forall|i: int|
            0 <= i < old(children)@.len() && (#[trigger] old(children)@[i]).widget.spec_flexible()
                != flexible ==> final(children)@[i] == old(children)@[i],
        forall|i: int|
            0 <= i < old(children)@.len() && (#[trigger] old(children)@[i]).widget.spec_flexible()
                == flexible ==> size_in_range(final(children)@[i].widget.spec_size()),
        forall|i: int|
            0 <= i < old(children)@.len() && (#[trigger] old(children)@[i]).widget.spec_flexible()
                == flexible ==> exists|moved: &mut dyn Widget<M>|
                #[trigger] measures(moved, offer, env) && &*moved == &*old(children)@[i].widget && &*final(moved)
                    == &*final(children)@[i].widget,
{
    let mut pending: Vec<Child<M>> = Vec::new();
    std::mem::swap(&mut pending, children);
    let ghost from = pending@;
    let ghost mut k: int = 0;
    while pending.len() > 0
        invariant
            env.wf(),
            size_in_range(offer),
            0 <= k <= from.len(),
            pending@ == from.skip(k),
            children@.len() == k,
            forall|i: int|
                0 <= i < k ==> (#[trigger] children@[i]).widget.spec_flexible()
                    == from[i].widget.spec_flexible() && children@[i].widget.spec_contributes()
                    == from[i].widget.spec_contributes() && children@[i].widget.spec_tap()
                    == from[i].widget.spec_tap() && children@[i].widget.spec_text()
                    == from[i].widget.spec_text(),
            forall|i: int|
                0 <= i < k && from[i].widget.spec_flexible() != flexible ==> #[trigger] children@[i]
                    == from[i],
            forall|i: int|
                0 <= i < k && from[i].widget.spec_flexible() == flexible ==> size_in_range(
                    #[trigger] children@[i].widget.spec_size(),
                ),
            forall|i: int|
                0 <= i < k && (#[trigger] from[i]).widget.spec_flexible() == flexible ==> exists|
                    moved: &mut dyn Widget<M>,
                |
                    #[trigger] measures(moved, offer, env) && &*moved == &*from[i].widget && &*final(moved)
                        == &*children@[i].widget,
        decreases pending@.len(),
    {
        let mut child = pending.remove(0);
        proof {
            assert(child == from[k]);
            assert(pending@ =~= from.skip(k + 1));
        }
        if child.widget.is_flexible() == flexible {
            measure_in(&mut *child.widget, offer, env);
        }
        let ghost placed = child;
        children.push(child);
        proof {
            assert(children@[k] == placed);
        }
        proof {
            k = k + 1;
        }
    }
    proof {
        assert(k == from.len());
    }
}

/// How many children are flexible, and how long the others are end to end.
fn rigid_extent<M>(children: &Vec<Child<M>>, axis: Axis) -> (r: (usize, i64))
    requires
        children@.len() <= max_children(),
        forall|i: int|
            0 <= i < children@.len() && !(#[trigger] children@[i]).widget.spec_flexible()
                ==> size_in_range(children@[i].widget.spec_size()),
    ensures
        r.0 == flexible_count(children@, children@.len() as int),
        r.0 <= children@.len(),
        r.1 == rigid_length(axis, children@, children@.len() as int),
        0 <= r.1 <= children@.len() * 0x3fff_ffff,
{
    let mut flexible: usize = 0;
    let mut length: i64 = 0;
    let mut k: usize = 0;
    while k < children.len()
        invariant
            k <= children@.len(),
            children@.len() <= max_children(),
            forall|i: int|
                0 <= i < children@.len() && !(#[trigger] children@[i]).widget.spec_flexible()
                    ==> size_in_range(children@[i].widget.spec_size()),
            flexible == flexible_count(children@, k as int),
            flexible <= k,
            length == rigid_length(axis, children@, k as int),
            0 <= length <= k * 0x3fff_ffff,
        decreases children@.len() - k,
    {
        if children[k].widget.is_flexible() {
            flexible = flexible + 1;
        } else {
            let size = children[k].widget.size();
            let along_axis = match axis {
                Axis::Vertical => size.height,
                Axis::Horizontal => size.width,
            };
            length = length + along_axis as i64;
        }
        k = k + 1;
    }
    (flexible, length)
}

/// How far the children reach along the axis, and the widest of those that
/// count across it.
fn span<M>(children: &Vec<Child<M>>, axis: Axis, spacing: i32) -> (r: (i64, i64))
    requires
        children@.len() <= max_children(),
        all_in_range(children@),
    ensures
        r.0 == reach(axis, sizes_of(children@), spacing as int, children@.len() as int),
        r.1 == breadth(axis, sizes_of(children@), counts_of(children@), children@.len() as int),
        0 <= r.1 <= 0x3fff_ffff,
{
    let ghost sizes = sizes_of(children@);
    let ghost counts = counts_of(children@);
    let mut total: i64 = 0;
    let mut widest: i64 = 0;
    let mut k: usize = 0;
    while k < children.len()
        invariant
            k <= children@.len(),
            children@.len() <= max_children(),
            all_in_range(children@),
            sizes == sizes_of(children@),
            counts == counts_of(children@),
            total == reach(axis, sizes, spacing as int, k as int),
            -(k as int) * 0x8000_0000 <= total <= (k as int) * 0xbfff_ffff,
            widest == breadth(axis, sizes, counts, k as int),
            0 <= widest <= 0x3fff_ffff,
        decreases children@.len() - k,
    {
        let size = children[k].widget.size();
        let contributes = children[k].widget.contributes_cross_size();
        proof {
            assert(sizes[k as int] == size);
            assert(counts[k as int] == contributes);
            assert(size_in_range(children@[k as int].widget.spec_size()));
        }
        let (main, cross) = match axis {
            Axis::Vertical => (size.height as i64, size.width as i64),
            Axis::Horizontal => (size.width as i64, size.height as i64),
        };
        if k == 0 {
            total = main;
        } else {
            total = total + spacing as i64 + main;
        }
        if contributes && cross > widest {
            widest = cross;
        }
        proof {
            assert(total == reach(axis, sizes, spacing as int, k + 1));
        }
        k = k + 1;
    }
    (total, widest)
}

/// Children laid out one after another along an axis, `spacing` apart, and
/// aligned across it.
///
/// Children that are not flexible are measured first, against everything
/// offered; flexible ones then share what is left along the axis equally.
#[verifier::reject_recursive_types(M)]
pub struct Stack<M> {
    axis: Axis,
    spacing: i32,
    alignment: Alignment,
    children: Vec<Child<M>>,
    measured: Size,
    /// What each child showed and sent on a tap when it was added, in order.
    shown: Ghost<Seq<(Option<Seq<char>>, Option<M>)>>,
}

impl<M> Stack<M> {
    /// What each child showed, and sent on a tap, when it was added, in the
    /// order the children were added.
    pub closed spec fn spec_shown(&self) -> Seq<(Option<Seq<char>>, Option<M>)> {
        self.shown@
    }

    /// A stack never holds more children than it can lay out.
    #[verifier::type_invariant]
    spec fn bounded(&self) -> bool {
        self.children@.len() <= max_children()
    }

    pub closed spec fn spec_axis(&self) -> Axis {
        self.axis
    }

    pub closed spec fn spec_spacing(&self) -> i32 {
        self.spacing
    }

    pub closed spec fn spec_alignment(&self) -> Alignment {
        self.alignment
    }

    pub closed spec fn spec_children(&self) -> Seq<Child<M>> {
        self.children@
    }

    pub closed spec fn spec_measured(&self) -> Size {
        self.measured
    }

    /// An empty stack along `axis`, its children `spacing` apart and aligned
    /// to the start across it.
    pub fn new(axis: Axis, spacing: i32) -> (s: Stack<M>)
        ensures
            s.spec_axis() == axis,
            s.spec_spacing() == spacing,
            s.spec_alignment() == Alignment::Start,
            s.spec_children().len() == 0,
            s.spec_measured() == Size::zero_spec(),
            s.spec_shown().len() == 0,
    {
        Stack {
            axis,
            spacing,
            alignment: Alignment::Start,
            children: Vec::new(),
            measured: Size::zero(),
            shown: Ghost(Seq::empty()),
        }
    }

    /// Children one above another, top to bottom, `spacing` apart.
    pub fn vertical(spacing: i32) -> (s: Stack<M>)
        ensures
            s.spec_axis() == Axis::Vertical,
            s.spec_spacing() == spacing,
            s.spec_alignment() == Alignment::Start,
            s.spec_children().len() == 0,
            s.spec_measured() == Size::zero_spec(),
            s.spec_shown().len() == 0,
    {
        Stack::new(Axis::Vertical, spacing)
    }

    /// Children side by side, left to right, `spacing` apart.
    pub fn horizontal(spacing: i32) -> (s: Stack<M>)
        ensures
            s.spec_axis() == Axis::Horizontal,
            s.spec_spacing() == spacing,
            s.spec_alignment() == Alignment::Start,
            s.spec_children().len() == 0,
            s.spec_measured() == Size::zero_spec(),
            s.spec_shown().len() == 0,
    {
        Stack::new(Axis::Horizontal, spacing)
    }

    /// Adds a child after the others.
    pub fn push(self, child: Box<dyn Widget<M>>) -> (s: Stack<M>)
        requires
            self.spec_children().len() < max_children(),
        ensures
            s.spec_children().len() == self.spec_children().len() + 1,
            s.spec_children().take(self.spec_children().len() as int) == self.spec_children(),
            s.spec_shown().len() == self.spec_shown().len() + 1,
            s.spec_shown().take(self.spec_shown().len() as int) == self.spec_shown(),
            s.spec_shown().last().0 == child.spec_text(),
            s.spec_shown().last().1 == child.spec_tap(),
            s.spec_axis() == self.spec_axis(),
            s.spec_spacing() == self.spec_spacing(),
            s.spec_alignment() == self.spec_alignment(),
            s.spec_measured() == self.spec_measured(),
    {
        let ghost record = (child.spec_text(), child.spec_tap());
        let Stack { axis, spacing, alignment, children, measured, shown } = self;
        let children = append_child(children, Child { widget: child });
        let ghost grown = shown@.push(record);
        assert(grown.take(shown@.len() as int) =~= shown@);
        Stack { axis, spacing, alignment, children, measured, shown: Ghost(grown) }
    }

    /// Adds `child` after the others, recording what it shows and what a tap
    /// on it sends.
    pub fn push_widget<W: Widget<M> + 'static>(self, child: W) -> (s: Stack<M>)
        requires
            self.spec_children().len() < max_children(),
        ensures
            s.spec_children().len() == self.spec_children().len() + 1,
            s.spec_children().take(self.spec_children().len() as int) == self.spec_children(),
            s.spec_shown() == self.spec_shown().push((child.spec_text(), child.spec_tap())),
            s.spec_axis() == self.spec_axis(),
            s.spec_spacing() == self.spec_spacing(),
            s.spec_alignment() == self.spec_alignment(),
            s.spec_measured() == self.spec_measured(),
    {
        let ghost record = (child.spec_text(), child.spec_tap());
        let boxed: Box<dyn Widget<M>> = Box::new(child);
        let Stack { axis, spacing, alignment, children, measured, shown } = self;
        let children = append_child(children, Child { widget: boxed });
        Stack { axis, spacing, alignment, children, measured, shown: Ghost(shown@.push(record)) }
    }

    /// Adds a child after the others when `condition` holds.
    pub fn push_if(self, condition: bool, child: Box<dyn Widget<M>>) -> (s: Stack<M>)
        requires
            self.spec_children().len() < max_children(),
        ensures
            condition ==> s.spec_children().len() == self.spec_children().len() + 1
                && s.spec_children().take(self.spec_children().len() as int) == self.spec_children(),
            !condition ==> s.spec_children() == self.spec_children(),
            s.spec_axis() == self.spec_axis(),
            s.spec_spacing() == self.spec_spacing(),
            s.spec_alignment() == self.spec_alignment(),
            s.spec_measured() == self.spec_measured(),
    {
        push_child_if(self, condition, child)
    }

    /// Aligns the children across the axis.
    pub fn align(self, alignment: Alignment) -> (s: Stack<M>)
        ensures
            s.spec_children() == self.spec_children(),
            s.spec_shown() == self.spec_shown(),
            s.spec_axis() == self.spec_axis(),
            s.spec_spacing() == self.spec_spacing(),
            s.spec_alignment() == alignment,
            s.spec_measured() == self.spec_measured(),
    {
        proof {
            use_type_invariant(&self);
        }
        let Stack { axis, spacing, alignment: _, children, measured, shown } = self;
        Stack { axis, spacing, alignment, children, measured, shown }
    }

    pub fn len(&self) -> (n: usize)
        ensures
            n == self.spec_children().len(),
    {
        self.children.len()
    }

    pub fn is_empty(&self) -> (b: bool)
        ensures
            b == (self.spec_children().len() == 0),
    {
        self.children.len() == 0
    }
}

/// `stack` with `child` after its children when `condition` holds.
fn push_child_if<M>(stack: Stack<M>, condition: bool, child: Box<dyn Widget<M>>) -> (s: Stack<M>)
    requires
        stack.spec_children().len() < max_children(),
    ensures
        condition ==> s.spec_children().len() == stack.spec_children().len() + 1
            && s.spec_children().take(stack.spec_children().len() as int) == stack.spec_children(),
        !condition ==> s.spec_children() == stack.spec_children(),
        s.spec_axis() == stack.spec_axis(),
        s.spec_spacing() == stack.spec_spacing(),
        s.spec_alignment() == stack.spec_alignment(),
        s.spec_measured() == stack.spec_measured(),
{
    if condition {
        stack.push(child)
    } else {
        stack
    }
}

/// Where child `k` of `children` sits in a stack drawn at `origin`, or
/// `None` when it would fall outside layout range and is skipped.
pub open spec fn child_origin<M>(
    children: Seq<Child<M>>,
    axis: Axis,
    alignment: Alignment,
    spacing: int,
    measured: Size,
    origin: Point,
    k: int,
) -> Option<Point> {
    place_at(
        axis,
        alignment,
        origin,
        measured,
        sizes_of(children)[k],
        lead(axis, sizes_of(children), spacing, k),
    )
}

/// Draws each child where it sits, skipping any that would fall outside
/// layout range.
fn render_children<M>(
    children: &Vec<Child<M>>,
    axis: Axis,
    alignment: Alignment,
    spacing: i32,
    measured: Size,
    origin: Point,
    out: &mut Renderer,
    env: &Env,
)
    requires
        env.wf(),
        children@.len() <= max_children(),
    ensures
        final(out).screen == old(out).screen,
        final(out).title == old(out).title,
        old(out).ops@.len() <= final(out).ops@.len(),
        final(out).ops@.take(old(out).ops@.len() as int) == old(out).ops@,
        exists|states: Seq<Renderer>|
            states.len() == children@.len() + 1 && states[0] == *old(out) && states.last() == *final(out)
                && forall|k: int|
                0 <= k < children@.len() ==> match #[trigger] child_origin(
                    children@,
                    axis,
                    alignment,
                    spacing as int,
                    measured,
                    origin,
                    k,
                ) {
                    Some(at) => exists|drawn: &mut Renderer|
                        #[trigger] draws(&*children@[k].widget, at, drawn, env) && *drawn == states[k]
                            && *final(drawn) == states[k + 1],
                    None => states[k + 1] == states[k],
                },
{
    let ghost sizes = sizes_of(children@);
    let ghost before = out.ops@;
    let ghost mut states: Seq<Renderer> = seq![*out];
    let mut start: i64 = 0;
    let mut k: usize = 0;
    while k < children.len()
        invariant
            env.wf(),
            k <= children@.len(),
            children@.len() <= max_children(),
            sizes == sizes_of(children@),
            start == lead(axis, sizes, spacing as int, k as int),
            -(k as int) * 0x1_0000_0000 <= start <= (k as int) * 0x1_0000_0000,
            out.screen == old(out).screen,
            out.title == old(out).title,
            before == old(out).ops@,
            before.len() <= out.ops@.len(),
            out.ops@.take(before.len() as int) == before,
            states.len() == k + 1,
            states[0] == *old(out),
            states.last() == *out,
            forall|j: int|
                0 <= j < k ==> match #[trigger] child_origin(
                    children@,
                    axis,
                    alignment,
                    spacing as int,
                    measured,
                    origin,
                    j,
                ) {
                    Some(at) => exists|drawn: &mut Renderer|
                        #[trigger] draws(&*children@[j].widget, at, drawn, env) && *drawn == states[j]
                            && *final(drawn) == states[j + 1],
                    None => states[j + 1] == states[j],
                },
        decreases children@.len() - k,
    {
        let size = children[k].widget.size();
        proof {
            assert(sizes[k as int] == size);
        }
        match place_child(axis, alignment, origin, measured, size, start) {
            Some(at) => {
                let ghost mid = out.ops@;
                draw_in(&*children[k].widget, at, out, env);
                proof {
                    assert(out.ops@.take(before.len() as int) =~= before) by {
                        assert(mid.take(before.len() as int) == before);
                        assert(out.ops@.take(mid.len() as int) == mid);
                        assert(out.ops@.take(before.len() as int) =~= out.ops@.take(mid.len() as int).take(
                            before.len() as int,
                        ));
                    }
                }
            },
            None => {},
        }
        proof {
            assert(child_origin(children@, axis, alignment, spacing as int, measured, origin, k as int)
                == place_at(axis, alignment, origin, measured, size, start as int));
            states = states.push(*out);
        }
        let along_axis = match axis {
            Axis::Vertical => size.height,
            Axis::Horizontal => size.width,
        };
        start = start + along_axis as i64 + spacing as i64;
        k = k + 1;
    }
}

/// Declares each child's regions where it sits, skipping any that would
/// fall outside layout range. The children keep their sizes and kinds.
fn declare_children<M>(
    children: &mut Vec<Child<M>>,
    axis: Axis,
    alignment: Alignment,
    spacing: i32,
    measured: Size,
    origin: Point,
    out: &mut Interactions<M>,
    env: &Env,
)
    requires
        env.wf(),
        old(children)@.len() <= max_children(),
        old(out).wf(),
    ensures
        final(out).wf(),
        same_kinds(final(children)@, old(children)@),
        sizes_of(final(children)@) == sizes_of(old(children)@),
        exists|outs: Seq<Interactions<M>>|
            outs.len() == old(children)@.len() + 1 && outs[0] == *old(out) && outs.last() == *final(out)
                && forall|k: int|
                0 <= k < old(children)@.len() ==> match #[trigger] child_origin(
                    old(children)@,
                    axis,
                    alignment,
                    spacing as int,
                    measured,
                    origin,
                    k,
                ) {
                    Some(at) => exists|moved: &mut dyn Widget<M>, declared: &mut Interactions<M>|
                        #[trigger] declares(moved, at, declared, env) && &*moved == &*old(children)@[k].widget
                            && &*final(moved) == &*final(children)@[k].widget && *declared == outs[k]
                            && *final(declared) == outs[k + 1],
                    None => outs[k + 1] == outs[k] && &*final(children)@[k].widget == &*old(children)@[k].widget,
                },
{
    let ghost mut outs: Seq<Interactions<M>> = seq![*out];
    let mut pending: Vec<Child<M>> = Vec::new();
    std::mem::swap(&mut pending, children);
    let ghost from = pending@;
    let ghost sizes = sizes_of(from);
    let mut start: i64 = 0;
    let mut k: usize = 0;
    while pending.len() > 0
        invariant
            env.wf(),
            k <= from.len(),
            from.len() <= max_children(),
            sizes == sizes_of(from),
            pending@ == from.skip(k as int),
            children@.len() == k,
            forall|i: int|
                0 <= i < k ==> (#[trigger] children@[i]).widget.spec_flexible()
                    == from[i].widget.spec_flexible() && children@[i].widget.spec_contributes()
                    == from[i].widget.spec_contributes() && children@[i].widget.spec_size()
                    == from[i].widget.spec_size(),
            start == lead(axis, sizes, spacing as int, k as int),
            -(k as int) * 0x1_0000_0000 <= start <= (k as int) * 0x1_0000_0000,
            out.wf(),
            from == old(children)@,
            outs.len() == k + 1,
            outs[0] == *old(out),
            outs.last() == *out,
            forall|j: int| 0 <= j < k ==> match #[trigger] child_origin(
                    from,
                    axis,
                    alignment,
                    spacing as int,
                    measured,
                    origin,
                    j,
                ) {
                    Some(at) => exists|moved: &mut dyn Widget<M>, declared: &mut Interactions<M>|
                        #[trigger] declares(moved, at, declared, env) && &*moved == &*from[j].widget
                            && &*final(moved) == &*children@[j].widget && *declared == outs[j]
                            && *final(declared) == outs[j + 1],
                    None => outs[j + 1] == outs[j] && &*children@[j].widget == &*from[j].widget,
                },
        decreases pending@.len(),
    {
        let mut child = pending.remove(0);
        proof {
            assert(child == from[k as int]);
            assert(pending@ =~= from.skip(k + 1));
        }
        let size = child.widget.size();
        match place_child(axis, alignment, origin, measured, size, start) {
            Some(at) => {
                declare_in(&mut *child.widget, at, out, env);
            },
            None => {},
        }
        let ghost placed = child;
        children.push(child);
        proof {
            assert(child_origin(from, axis, alignment, spacing as int, measured, origin, k as int)
                == place_at(axis, alignment, origin, measured, size, start as int));
            assert(children@[k as int] == placed);
            outs = outs.push(*out);
        }
        let along_axis = match axis {
            Axis::Vertical => size.height,
            Axis::Horizontal => size.width,
        };
        start = start + along_axis as i64 + spacing as i64;
        k = k + 1;
    }
    proof {
        assert(sizes_of(children@) =~= sizes_of(from));
    }
}

impl<M> Widget<M> for Stack<M> {
    open spec fn spec_size(&self) -> Size {
        self.spec_measured()
    }

    open spec fn spec_flexible(&self) -> bool {
        false
    }

    open spec fn spec_contributes(&self) -> bool {
        true
    }

    fn is_flexible(&self) -> (b: bool) {
        false
    }

    fn contributes_cross_size(&self) -> (b: bool) {
        true
    }

    /// Rigid children first, against everything offered; flexible ones then
    /// share what the rigid ones and the gaps leave along the axis. The stack
    /// is as long as its children reach and as wide as the widest that
    /// counts across it.
    #[verifier::rlimit(40)]
    fn measure(&mut self, available: Size, env: &Env)
        ensures
            same_kinds(final(self).spec_children(), old(self).spec_children()),
            same_shown(old(self).spec_children(), final(self).spec_children()),
            final(self).spec_shown() == old(self).spec_shown(),
            all_in_range(final(self).spec_children()),
            final(self).spec_measured() == stack_size(
                old(self).spec_axis(),
                sizes_of(final(self).spec_children()),
                counts_of(final(self).spec_children()),
                old(self).spec_spacing() as int,
            ),
            final(self).spec_axis() == old(self).spec_axis(),
            final(self).spec_spacing() == old(self).spec_spacing(),
            final(self).spec_alignment() == old(self).spec_alignment(),
            forall|i: int|
                0 <= i < old(self).spec_children().len() && (#[trigger] old(self).spec_children()[i]).widget.spec_flexible()
                    ==> exists|moved: &mut dyn Widget<M>|
                    #[trigger] measures(
                        moved,
                        flexible_offer(
                            old(self).spec_axis(),
                            available,
                            final(self).spec_children(),
                            old(self).spec_spacing() as int,
                        ),
                        env,
                    ) && &*moved == &*old(self).spec_children()[i].widget && &*final(moved)
                        == &*final(self).spec_children()[i].widget,
            forall|i: int|
                0 <= i < old(self).spec_children().len() && !(#[trigger] old(self).spec_children()[i]).widget.spec_flexible()
                    ==> exists|moved: &mut dyn Widget<M>|
                    #[trigger] measures(moved, available, env) && &*moved == &*old(self).spec_children()[i].widget
                        && &*final(moved) == &*final(self).spec_children()[i].widget,
    {
        proof {
            use_type_invariant(&*self);
        }
        let mut children: Vec<Child<M>> = Vec::new();
        std::mem::swap(&mut children, &mut self.children);
        let ghost from = children@;
        measure_children(&mut children, false, available, env);
        let ghost rigid_done = children@;
        let (flexible, rigid) = rigid_extent(&children, self.axis);
        let n = children.len();
        let gaps: i64 = if n > 0 {
            assert(-0x8000_0000 * 0x10000 <= self.spacing * (n - 1) <= 0x8000_0000 * 0x10000) by (nonlinear_arith)
                requires
                    0 < n <= 0x10000,
                    -0x8000_0000 <= self.spacing <= 0x7fff_ffff,
            ;
            self.spacing as i64 * (n as i64 - 1)
        } else {
            0
        };
        let room: i64 = match self.axis {
            Axis::Vertical => available.height as i64,
            Axis::Horizontal => available.width as i64,
        };
        let left = room - rigid - gaps;
        let share_len: i64 = if flexible == 0 {
            0
        } else {
            let even = (if left < 0 {
                0
            } else {
                left
            }) / flexible as i64;
            if even > 0x3fff_ffff {
                0x3fff_ffff
            } else {
                even
            }
        };
        let offer = match self.axis {
            Axis::Vertical => Size { width: available.width, height: share_len as i32 },
            Axis::Horizontal => Size { width: share_len as i32, height: available.height },
        };
        measure_children(&mut children, true, offer, env);
        proof {
            lemma_rigid_unchanged(self.axis, rigid_done, children@, children@.len() as int);
            assert(offer == flexible_offer(self.axis, available, children@, self.spacing as int));
            assert forall|i: int|
                0 <= i < from.len() && !(#[trigger] from[i]).widget.spec_flexible() implies exists|
                    moved: &mut dyn Widget<M>,
                |
                    #[trigger] measures(moved, available, env) && &*moved == &*from[i].widget && &*final(moved)
                        == &*children@[i].widget by {
                assert(children@[i] == rigid_done[i]);
            }
            assert forall|i: int|
                0 <= i < from.len() && (#[trigger] from[i]).widget.spec_flexible() implies exists|
                    moved: &mut dyn Widget<M>,
                |
                    #[trigger] measures(
                        moved,
                        flexible_offer(self.axis, available, children@, self.spacing as int),
                        env,
                    ) && &*moved == &*from[i].widget && &*final(moved) == &*children@[i].widget by {
                assert(rigid_done[i] == from[i]);
                assert(rigid_done[i].widget.spec_flexible());
                let moved = choose|moved: &mut dyn Widget<M>|
                    #[trigger] measures(moved, offer, env) && &*moved == &*rigid_done[i].widget && &*final(moved)
                        == &*children@[i].widget;
                assert(measures(moved, flexible_offer(self.axis, available, children@, self.spacing as int), env));
            }
        }
        proof {
            assert(all_in_range(children@)) by {
                assert forall|i: int| 0 <= i < children@.len() implies size_in_range(
                    #[trigger] children@[i].widget.spec_size(),
                ) by {
                    if rigid_done[i].widget.spec_flexible() {
                    } else {
                        assert(children@[i] == rigid_done[i]);
                    }
                }
            }
        }
        let (total, widest) = span(&children, self.axis, self.spacing);
        let main: i32 = if total < 0 {
            0
        } else if total > 0x3fff_ffff {
            0x3fff_ffff
        } else {
            total as i32
        };
        let cross: i32 = if widest > 0x3fff_ffff {
            0x3fff_ffff
        } else {
            widest as i32
        };
        self.children = children;
        self.measured = match self.axis {
            Axis::Vertical => Size { width: cross, height: main },
            Axis::Horizontal => Size { width: main, height: cross },
        };
    }

    fn size(&self) -> (s: Size) {
        self.measured
    }

    /// Each child where it sits: after the one before it and the spacing,
    /// aligned across the axis. A child that would fall outside layout range
    /// is skipped.
    fn render(&self, origin: Point, out: &mut Renderer, env: &Env)
        ensures
            exists|states: Seq<Renderer>|
                states.len() == self.spec_children().len() + 1 && states[0] == *old(out) && states.last()
                    == *final(out) && forall|k: int|
                    0 <= k < self.spec_children().len() ==> match #[trigger] child_origin(
                        self.spec_children(),
                        self.spec_axis(),
                        self.spec_alignment(),
                        self.spec_spacing() as int,
                        self.spec_measured(),
                        origin,
                        k,
                    ) {
                        Some(at) => exists|drawn: &mut Renderer|
                            #[trigger] draws(&*self.spec_children()[k].widget, at, drawn, env) && *drawn
                                == states[k] && *final(drawn) == states[k + 1],
                        None => states[k + 1] == states[k],
                    },
    {
        proof {
            use_type_invariant(self);
        }
        render_children(&self.children, self.axis, self.alignment, self.spacing, self.measured, origin, out, env);
    }

    /// Each child's regions, where `render` draws it.
    fn interactions(&mut self, origin: Point, out: &mut Interactions<M>, env: &Env)
        ensures
            same_kinds(final(self).spec_children(), old(self).spec_children()),
            sizes_of(final(self).spec_children()) == sizes_of(old(self).spec_children()),
            final(self).spec_axis() == old(self).spec_axis(),
            final(self).spec_spacing() == old(self).spec_spacing(),
            final(self).spec_alignment() == old(self).spec_alignment(),
            final(self).spec_measured() == old(self).spec_measured(),
            exists|outs: Seq<Interactions<M>>|
                outs.len() == old(self).spec_children().len() + 1 && outs[0] == *old(out) && outs.last()
                    == *final(out) && forall|k: int|
                    0 <= k < old(self).spec_children().len() ==> match #[trigger] child_origin(
                        old(self).spec_children(),
                        old(self).spec_axis(),
                        old(self).spec_alignment(),
                        old(self).spec_spacing() as int,
                        old(self).spec_measured(),
                        origin,
                        k,
                    ) {
                        Some(at) => exists|moved: &mut dyn Widget<M>, declared: &mut Interactions<M>|
                            #[trigger] declares(moved, at, declared, env) && &*moved
                                == &*old(self).spec_children()[k].widget && &*final(moved)
                                == &*final(self).spec_children()[k].widget && *declared == outs[k]
                                && *final(declared) == outs[k + 1],
                        None => outs[k + 1] == outs[k] && &*final(self).spec_children()[k].widget
                            == &*old(self).spec_children()[k].widget,
                    },
    {
        proof {
            use_type_invariant(&*self);
        }
        let mut children: Vec<Child<M>> = Vec::new();
        std::mem::swap(&mut children, &mut self.children);
        declare_children(&mut children, self.axis, self.alignment, self.spacing, self.measured, origin, out, env);
        self.children = children;
    }
}

/// Each child starts where the one before it ended, plus the spacing.
pub proof fn lemma_children_follow_on(axis: Axis, sizes: Seq<Size>, spacing: int, k: int)
    requires
        0 <= k,
    ensures
        lead(axis, sizes, spacing, k + 1) == lead(axis, sizes, spacing, k) + along(axis, sizes[k])
            + spacing,
{
}

/// With a spacing of zero or more, no child starts before an earlier one has
/// ended: children never overlap along the axis.
pub proof fn lemma_children_do_not_overlap(axis: Axis, sizes: Seq<Size>, spacing: int, j: int, k: int)
    requires
        spacing >= 0,
        0 <= j < k <= sizes.len(),
        forall|i: int| 0 <= i < sizes.len() ==> along(axis, #[trigger] sizes[i]) >= 0,
    ensures
        lead(axis, sizes, spacing, j) + along(axis, sizes[j]) <= lead(axis, sizes, spacing, k),
    decreases k - j,
{
    if k == j + 1 {
    } else {
        lemma_children_do_not_overlap(axis, sizes, spacing, j, k - 1);
        assert(along(axis, sizes[k - 1]) >= 0);
    }
}

/// With a spacing of zero or more, the stack reaches at least as far as
/// every child's end: none of them sticks out past it along the axis.
pub proof fn lemma_reach_covers_children(axis: Axis, sizes: Seq<Size>, spacing: int, k: int)
    requires
        spacing >= 0,
        0 <= k < sizes.len(),
        forall|i: int| 0 <= i < sizes.len() ==> along(axis, #[trigger] sizes[i]) >= 0,
    ensures
        lead(axis, sizes, spacing, k) + along(axis, sizes[k]) <= reach(
            axis,
            sizes,
            spacing,
            sizes.len() as int,
        ),
{
    let n = sizes.len() as int;
    if k < n - 1 {
        lemma_children_do_not_overlap(axis, sizes, spacing, k, n - 1);
        assert(along(axis, sizes[n - 1]) >= 0);
    }
}

/// The stack is at least as wide across its axis as every child that counts,
/// and its width is one of theirs — or zero when none counts.
pub proof fn lemma_breadth_is_widest(axis: Axis, sizes: Seq<Size>, counts: Seq<bool>, n: int)
    requires
        0 <= n <= sizes.len(),
        n <= counts.len(),
    ensures
        forall|k: int| 0 <= k < n && counts[k] ==> across(axis, #[trigger] sizes[k]) <= breadth(axis, sizes, counts, n),
        breadth(axis, sizes, counts, n) == 0 || exists|k: int|
            0 <= k < n && counts[k] && across(axis, #[trigger] sizes[k]) == breadth(
                axis,
                sizes,
                counts,
                n,
            ),
        breadth(axis, sizes, counts, n) >= 0,
    decreases n,
{
    if n > 0 {
        lemma_breadth_is_widest(axis, sizes, counts, n - 1);
        let before = breadth(axis, sizes, counts, n - 1);
        if counts[n - 1] && across(axis, sizes[n - 1]) > before {
            assert(across(axis, sizes[n - 1]) == breadth(axis, sizes, counts, n));
        }
    }
}

/// A child no wider than the stack stays inside it across the axis, whatever
/// the alignment; centred, the space on either side differs by at most one.
pub proof fn lemma_alignment_keeps_child_inside(alignment: Alignment, total: int, child: int)
    requires
        0 <= child <= total,
    ensures
        0 <= inset_across(alignment, total, child) <= total - child,
        alignment == Alignment::Start ==> inset_across(alignment, total, child) == 0,
        alignment == Alignment::End ==> inset_across(alignment, total, child) + child == total,
        alignment == Alignment::Center ==> {
            let before = inset_across(alignment, total, child);
            let after = total - child - before;
            0 <= after - before <= 1
        },
{
}

/// A stack with a flexible child counts it among its flexible ones.
pub proof fn lemma_flexible_counted<M>(children: Seq<Child<M>>, k: int, i: int)
    requires
        0 <= i < k <= children.len(),
        children[i].widget.spec_flexible(),
    ensures
        flexible_count(children, k) >= 1,
    decreases k,
{
    if i < k - 1 {
        lemma_flexible_counted(children, k - 1, i);
    }
    lemma_flexible_count_nonneg(children, k - 1);
}

/// Counting never goes below zero.
pub proof fn lemma_flexible_count_nonneg<M>(children: Seq<Child<M>>, k: int)
    ensures
        flexible_count(children, k) >= 0,
    decreases k,
{
    if k > 0 {
        lemma_flexible_count_nonneg(children, k - 1);
    }
}

/// A stack's flexible children absorb the room its rigid children and gaps
/// leave: each is measured against everything offered across the axis and a
/// share along it such that the rigid children, the gaps and all the shares
/// together fit what was offered, leaving less than one unit per flexible
/// child — whenever the rigid children and gaps fit and a share is within
/// layout range.
pub proof fn lemma_flexible_children_share_the_rest<M>(
    before: Stack<M>,
    after: Stack<M>,
    available: Size,
    env: &Env,
    i: int,
)
    requires
        exists|s: &mut Stack<M>|
            #[trigger] call_ensures(<Stack<M> as Widget<M>>::measure, (s, available, env), ()) && *s == before
                && *final(s) == after,
        0 <= i < before.spec_children().len(),
        before.spec_children()[i].widget.spec_flexible(),
    ensures
        exists|moved: &mut dyn Widget<M>, offer: Size|
            #![trigger measures(moved, offer, env)]
            {
                let axis = before.spec_axis();
                let n = after.spec_children().len() as int;
                let flexible = flexible_count(after.spec_children(), n);
                let rigid = rigid_length(axis, after.spec_children(), n);
                let gap = gaps(before.spec_spacing() as int, n);
                let room = along(axis, available);
                &&& measures(moved, offer, env)
                &&& &*moved == &*before.spec_children()[i].widget
                &&& &*final(moved) == &*after.spec_children()[i].widget
                &&& across(axis, offer) == across(axis, available)
                &&& flexible >= 1
                &&& (rigid + gap <= room && (room - rigid - gap) / flexible <= coord_limit()) ==> {
                    &&& rigid + gap + flexible * along(axis, offer) <= room
                    &&& room < rigid + gap + flexible * (along(axis, offer) + 1)
                }
            },
{
    let axis = before.spec_axis();
    let n = after.spec_children().len() as int;
    let offer = flexible_offer(axis, available, after.spec_children(), before.spec_spacing() as int);
    let flexible = flexible_count(after.spec_children(), n);
    let rigid = rigid_length(axis, after.spec_children(), n);
    let gap = gaps(before.spec_spacing() as int, n);
    let room = along(axis, available);
    assert(after.spec_children()[i].widget.spec_flexible());
    lemma_flexible_counted(after.spec_children(), n, i);
    let moved = choose|moved: &mut dyn Widget<M>|
        #[trigger] measures(moved, offer, env) && &*moved == &*before.spec_children()[i].widget && &*final(moved)
            == &*after.spec_children()[i].widget;
    if rigid + gap <= room && (room - rigid - gap) / flexible <= coord_limit() {
        let left = room - rigid - gap;
        let q = left / flexible;
        assert(0 <= q);
        assert(along(axis, offer) == q);
        assert(flexible * q <= left && left < flexible * (q + 1)) by (nonlinear_arith)
            requires
                flexible >= 1,
                left >= 0,
                q == left / flexible,
        ;
    }
    assert(measures(moved, offer, env));
}

} // verus!
