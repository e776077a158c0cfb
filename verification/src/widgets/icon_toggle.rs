//! An icon that both shows and flips a boolean.
use vstd::prelude::*;

use crate::geometry::{nonneg, Point, Rect, Size};
use crate::host::{saturate, DrawOp, IconRef, Renderer, Theme, ThemeMetric};
use crate::units::div_toward_zero;
use crate::view::{builds_flag, Env, InputMask, Interaction, Interactions, lemma_kinds_distinct, MakeFlag, Trigger, Widget};

verus! {

/// An icon whose fill shows a boolean, and whose tap flips it.
///
/// Solid means on, outline means off. The glyph keeps its natural size, but
/// the *control* reserves the theme's minimum touch target, so two sitting side
/// by side each own a full finger's worth of space instead of competing for one
/// tap.
///
/// Touch only: it deliberately stays out of the button focus order. A panel
/// meant for a finger should not grow focus stops that Up/Down has to walk
/// past.
pub struct IconToggle<M> {
    icon: IconRef,
    on: bool,
    /// The edge of the square the control reserves.
    target: i32,
    /// Set by `on_change`; absent leaves the icon display-only, so it still
    /// draws.
    message: Option<M>,
    measured: Size,
}

impl<M> IconToggle<M> {
    pub closed spec fn spec_icon(&self) -> IconRef {
        self.icon
    }

    pub closed spec fn spec_on(&self) -> bool {
        self.on
    }

    pub closed spec fn spec_target(&self) -> i32 {
        self.target
    }

    pub closed spec fn spec_message(&self) -> Option<M> {
        self.message
    }

    pub closed spec fn spec_measured(&self) -> Size {
        self.measured
    }

    /// An icon standing for `on`, drawn solid when true.
    pub fn new(icon: IconRef, on: bool, theme: &Theme) -> (t: IconToggle<M>)
        ensures
            t.spec_icon() == (IconRef { variant: if on { 1 } else { 0 }, ..icon }),
            t.spec_on() == on,
            t.spec_target() == theme.min_touch_size,
            t.spec_message() is None,
            t.spec_measured() == Size::zero_spec(),
    {
        let target = theme.metric(ThemeMetric::MinTouchSize);
        let variant: u8 = if on {
            1
        } else {
            0
        };
        IconToggle {
            icon: IconRef { kind: icon.kind, variant, size: icon.size },
            on,
            target,
            message: None,
            measured: Size::zero(),
        }
    }

    /// Sends the message for the next state when tapped. The framework flips
    /// the value, so the screen never writes `!self.something`.
    pub fn on_change<F: MakeFlag<M>>(self, make: &F) -> (t: IconToggle<M>)
        ensures
            t.spec_icon() == self.spec_icon(),
            t.spec_on() == self.spec_on(),
            t.spec_target() == self.spec_target(),
            t.spec_message() matches Some(m) && builds_flag(make, !self.spec_on(), m),
            t.spec_measured() == self.spec_measured(),
    {
        let message = make.make(!self.on);
        let mut t = self;
        t.message = Some(message);
        t
    }
}

impl<M: Clone> Widget<M> for IconToggle<M> {
    open spec fn spec_size(&self) -> Size {
        self.spec_measured()
    }

    open spec fn spec_flexible(&self) -> bool {
        false
    }

    open spec fn spec_contributes(&self) -> bool {
        true
    }

    fn is_flexible(&self) -> (b: bool) {
        false
    }

    fn contributes_cross_size(&self) -> (b: bool) {
        true
    }

    /// A square of the theme's minimum touch target, whatever is offered.
    fn measure(&mut self, available: Size, env: &Env)
        ensures
            final(self).spec_measured() == (Size {
                width: nonneg(saturate(old(self).spec_target() as int)) as i32,
                height: nonneg(saturate(old(self).spec_target() as int)) as i32,
            }),
            final(self).spec_icon() == old(self).spec_icon(),
            final(self).spec_on() == old(self).spec_on(),
            final(self).spec_target() == old(self).spec_target(),
            final(self).spec_message() == old(self).spec_message(),
    {
        let side = if self.target > 0x3fff_ffff {
            0x3fff_ffff
        } else {
            self.target
        };
        self.measured = Size::new(side, side);
    }

    fn size(&self) -> (s: Size) {
        self.measured
    }

    /// The glyph, centred in the reserved square.
    fn render(&self, origin: Point, out: &mut Renderer, env: &Env)
        ensures
            final(out).ops@ == old(out).ops@.push(
                DrawOp::Icon {
                    origin: Point {
                        x: (origin.x + div_toward_zero(self.spec_measured().width - self.spec_icon().size, 2)) as i32,
                        y: (origin.y + div_toward_zero(self.spec_measured().height - self.spec_icon().size, 2)) as i32,
                    },
                    icon: self.spec_icon(),
                },
            ),
    {
        let dx = (self.measured.width as i64 - self.icon.size as i64) / 2;
        let dy = (self.measured.height as i64 - self.icon.size as i64) / 2;
        let at = Point { x: (origin.x as i64 + dx) as i32, y: (origin.y as i64 + dy) as i32 };
        out.draw_icon(at, self.icon);
    }

    /// The whole control, not just the glyph: the square is already at the
    /// theme minimum, so nothing needs growing afterwards. Touch only.
    fn interactions(&mut self, origin: Point, out: &mut Interactions<M>, env: &Env)
        ensures
            final(self).spec_message() == old(self).spec_message(),
            old(self).spec_message() is None ==> *final(out) == *old(out),
            final(out).spec_focusable() == old(out).spec_focusable(),
            final(out).spec_focus() == old(out).spec_focus(),
            old(out).spec_ignoring() ==> final(out).spec_items() == old(out).spec_items(),
            old(self).spec_message() matches Some(msg) ==> !old(out).spec_ignoring() ==> {
                let last = final(out).spec_items().last();
                &&& final(out).spec_items().len() == old(out).spec_items().len() + 1
                &&& final(out).spec_items().take(old(out).spec_items().len() as int)
                    == old(out).spec_items()
                &&& last.rect == (Rect { origin, size: old(self).spec_measured() })
                &&& last.mask == InputMask(1)
                &&& last.trigger matches Trigger::Message(m) && cloned(msg, m)
            },
    {
        let message = match &self.message {
            Some(message) => message.clone(),
            None => return ,
        };
        out.declare(Rect { origin, size: self.measured }, InputMask::tap(), Trigger::Message(message));
        proof {
            lemma_kinds_distinct();
            assert(out.spec_items().take(old(out).spec_items().len() as int) =~= old(out).spec_items());
        }
    }
}

} // verus!
