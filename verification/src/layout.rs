//! Modifiers that wrap any widget: flexibility along a stack's axis, and a
//! touch target that reports a message.
use vstd::prelude::*;

pub mod spacer;
pub mod stack;

use crate::geometry::{nonneg, Point, Rect, Size};
use crate::host::{coord, extent, point_in_range, size_in_range, Renderer, ThemeMetric};
use crate::view::{bounds, declared_one, Env, InputMask, Interaction, Interactions, Trigger, Widget};

verus! {

/// Makes any widget absorb leftover space along its parent's stacking axis.
///
/// A slider between fixed `-` and `+` glyphs needs this: without it the slider
/// reports its natural size and the row does not fill the width.
pub struct Flexible<V> {
    child: V,
}

impl<V> Flexible<V> {
    pub closed spec fn spec_child(&self) -> V {
        self.child
    }

    pub fn new(child: V) -> (f: Flexible<V>)
        ensures
            f.spec_child() == child,
    {
        Flexible { child }
    }
}

impl<M, V: Widget<M>> Widget<M> for Flexible<V> {
    open spec fn spec_size(&self) -> Size {
        self.spec_child().spec_size()
    }


    /// The child, measured against the same space.
    fn measure(&mut self, available: Size, env: &Env)
        ensures
            exists|child: &mut V|
                #[trigger] call_ensures(V::measure, (child, available, env), ()) && *child
                    == old(self).spec_child() && *final(child) == final(self).spec_child(),
    {
        self.child.measure(available, env);
    }

    fn size(&self) -> (s: Size) {
        self.child.size()
    }

    /// The child, drawn where the wrapper is.
    fn render(&self, origin: Point, out: &mut Renderer, env: &Env)
        ensures
            exists|drawn: &mut Renderer|
                #[trigger] call_ensures(V::render, (&self.spec_child(), origin, drawn, env), ()) && *drawn
                    == *old(out) && *final(drawn) == *final(out),
    {
        self.child.render(origin, out, env);
    }

    /// The child's regions, declared where the wrapper is.
    fn interactions(&mut self, origin: Point, out: &mut Interactions<M>, env: &Env)
        ensures
            exists|child: &mut V, declared: &mut Interactions<M>|
                #[trigger] call_ensures(V::interactions, (child, origin, declared, env), ()) && *child
                    == old(self).spec_child() && *final(child) == final(self).spec_child() && *declared
                    == *old(out) && *final(declared) == *final(out),
    {
        self.child.interactions(origin, out, env);
    }

    open spec fn spec_flexible(&self) -> bool {
        true
    }

    /// Making a widget flexible says nothing about whether it draws anything,
    /// so the child still decides.
    open spec fn spec_contributes(&self) -> bool {
        self.spec_child().spec_contributes()
    }

    fn is_flexible(&self) -> (b: bool) {
        true
    }

    fn contributes_cross_size(&self) -> (b: bool) {
        self.child.contributes_cross_size()
    }
}

/// How much a touch target grows on each side along one axis so that it spans
/// at least `minimum`: half the shortfall, rounded up.
pub open spec fn touch_growth(minimum: int, drawn: int) -> int {
    (nonneg(minimum - drawn) + 1) / 2
}

/// The hit area a `Tappable` declares around a child drawn in `drawn`: the
/// same centre, grown to the theme's minimum touch target.
pub open spec fn touch_area(drawn: Rect, minimum: int) -> Rect {
    let gx = touch_growth(minimum, drawn.size.width as int);
    let gy = touch_growth(minimum, drawn.size.height as int);
    Rect::spec_new(
        drawn.origin.x - gx,
        drawn.origin.y - gy,
        drawn.size.width + gx * 2,
        drawn.size.height + gy * 2,
    )
}

/// Makes any widget report a touch as a message.
///
/// The visible size is unchanged; only the *hit* area grows, to at least the
/// theme's minimum touch target. A 6px "−" glyph is a legitimate control but
/// an impossible thing to hit with a finger, so the target is widened around
/// it.
pub struct Tappable<V, M> {
    child: V,
    message: M,
    mask: InputMask,
}

impl<V, M> Tappable<V, M> {
    pub closed spec fn spec_child(&self) -> V {
        self.child
    }

    pub closed spec fn spec_message(&self) -> M {
        self.message
    }

    pub closed spec fn spec_mask(&self) -> InputMask {
        self.mask
    }

    /// Taps and button focus, the default for an ordinary control.
    pub fn new(child: V, message: M) -> (t: Tappable<V, M>)
        ensures
            t.spec_child() == child,
            t.spec_message() == message,
            t.spec_mask() == InputMask(3),
    {
        Tappable { child, message, mask: InputMask::default_mask() }
    }

    /// Replaces the accepted input kinds.
    pub fn accepting(self, mask: InputMask) -> (t: Tappable<V, M>)
        ensures
            t.spec_child() == self.spec_child(),
            t.spec_message() == self.spec_message(),
            t.spec_mask() == mask,
    {
        let mut t = self;
        t.mask = mask;
        t
    }
}

impl<V: Widget<M>, M: Clone> Widget<M> for Tappable<V, M> {
    open spec fn spec_size(&self) -> Size {
        self.spec_child().spec_size()
    }

    open spec fn spec_tap(&self) -> Option<M> {
        Some(self.spec_message())
    }

    open spec fn spec_text(&self) -> Option<Seq<char>> {
        self.spec_child().spec_text()
    }


    fn measure(&mut self, available: Size, env: &Env)
        ensures
            final(self).spec_message() == old(self).spec_message(),
            final(self).spec_mask() == old(self).spec_mask(),
    {
        self.child.measure(available, env);
    }

    fn size(&self) -> (s: Size) {
        self.child.size()
    }

    /// The child, drawn where the wrapper is: the hit area is never drawn.
    fn render(&self, origin: Point, out: &mut Renderer, env: &Env)
        ensures
            exists|drawn: &mut Renderer|
                #[trigger] call_ensures(V::render, (&self.spec_child(), origin, drawn, env), ()) && *drawn
                    == *old(out) && *final(drawn) == *final(out),
    {
        self.child.render(origin, out, env);
    }

    /// The child declares first, so wrapping a container still resolves to the
    /// innermost control when both cover the point; then the grown area.
    fn interactions(&mut self, origin: Point, out: &mut Interactions<M>, env: &Env)
        ensures
            final(self).spec_message() == old(self).spec_message(),
            final(self).spec_mask() == old(self).spec_mask(),
            exists|child: &mut V, declared: &mut Interactions<M>|
                #[trigger] call_ensures(V::interactions, (child, origin, declared, env), ()) && *child
                    == old(self).spec_child() && *final(child) == final(self).spec_child() && *declared
                    == *old(out) && exists|m: M|
                    #[trigger] declared_one(
                        *final(declared),
                        *final(out),
                        Interaction {
                            rect: touch_area(
                                Rect { origin, size: old(self).spec_size() },
                                env.theme.min_touch_size as int,
                            ),
                            mask: old(self).spec_mask(),
                            trigger: Trigger::Message(m),
                        },
                    ) && cloned(old(self).spec_message(), m),
            !final(out).spec_ignoring() ==> {
                let last = final(out).spec_items().last();
                &&& final(out).spec_items().len() > 0
                &&& last.rect == touch_area(
                    Rect { origin, size: old(self).spec_size() },
                    env.theme.min_touch_size as int,
                )
                &&& last.mask == old(self).spec_mask()
                &&& last.trigger matches Trigger::Message(m) && cloned(old(self).spec_message(), m)
            },
    {
        self.child.interactions(origin, out, env);

        // Grow to the theme's minimum touch target, centred on what was drawn.
        let drawn = bounds(&self.child, origin);
        let minimum = env.theme.metric(ThemeMetric::MinTouchSize);
        proof {
            env.theme.lemma_fields();
        }
        let short_x = minimum - drawn.width();
        let short_y = minimum - drawn.height();
        let grow_x = ((if short_x < 0 { 0 } else { short_x }) + 1) / 2;
        let grow_y = ((if short_y < 0 { 0 } else { short_y }) + 1) / 2;
        let area = Rect::new(
            drawn.x() - grow_x,
            drawn.y() - grow_y,
            drawn.width() + grow_x * 2,
            drawn.height() + grow_y * 2,
        );
        let message = self.message.clone();
        let ghost sent = message;
        let ghost mid = *out;
        out.declare(area, self.mask, Trigger::Message(message));
        proof {
            assert(area == touch_area(Rect { origin, size: old(self).spec_size() }, env.theme.min_touch_size as int));
            assert(declared_one(
                mid,
                *out,
                Interaction {
                    rect: touch_area(Rect { origin, size: old(self).spec_size() }, env.theme.min_touch_size as int),
                    mask: old(self).spec_mask(),
                    trigger: Trigger::Message(sent),
                },
            ));
        }
    }

    open spec fn spec_flexible(&self) -> bool {
        self.spec_child().spec_flexible()
    }

    open spec fn spec_contributes(&self) -> bool {
        self.spec_child().spec_contributes()
    }

    fn is_flexible(&self) -> (b: bool) {
        self.child.is_flexible()
    }

    fn contributes_cross_size(&self) -> (b: bool) {
        self.child.contributes_cross_size()
    }
}

/// The grown touch target always covers what was drawn, keeps its centre,
/// and is at least as wide and tall as the theme's minimum.
pub proof fn lemma_touch_area_covers(drawn: Rect, minimum: int, p: Point)
    requires
        drawn.size.wf(),
        extent(minimum),
        point_in_range(drawn.origin),
        size_in_range(drawn.size),
    ensures
        drawn.spec_contains(p) ==> touch_area(drawn, minimum).spec_contains(p),
        touch_area(drawn, minimum).size.width >= drawn.size.width,
        touch_area(drawn, minimum).size.height >= drawn.size.height,
        touch_area(drawn, minimum).size.width >= minimum,
        touch_area(drawn, minimum).size.height >= minimum,
        touch_area(drawn, minimum).origin.x + touch_area(drawn, minimum).size.width / 2
            == drawn.origin.x + drawn.size.width / 2,
{
    let gx = touch_growth(minimum, drawn.size.width as int);
    let gy = touch_growth(minimum, drawn.size.height as int);
    assert(gx >= 0 && gy >= 0);
    assert((drawn.size.width + gx * 2) / 2 == drawn.size.width / 2 + gx);
}

} // verus!
