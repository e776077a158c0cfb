//! A value slider.
use vstd::prelude::*;

use crate::geometry::{nonneg, Point, Rect, Size};
use crate::host::{coord, extent, point_in_range, size_in_range, DrawOp, Renderer, ThemeMetric};
use crate::units::div_toward_zero;
use crate::view::{
    bounds, share, Env, InputMask, Interactions, MakeMessage, Trigger, Widget, KNOB_WIDTH,
    TRACK_INSET,
};
use std::rc::Rc;

verus! {

/// Geometry copied from the firmware's own slider so the two look identical.
pub const TRACK_HEIGHT: i32 = 4;

pub const KNOB_HEIGHT: i32 = 22;

/// The larger of two numbers.
pub open spec fn max_of(a: int, b: int) -> int {
    if a < b {
        b
    } else {
        a
    }
}

/// `v` held within `lo..=hi`.
pub open spec fn clamp_to(v: int, lo: int, hi: int) -> int {
    if v < lo {
        lo
    } else if v > hi {
        hi
    } else {
        v
    }
}

/// The track a slider of `size` draws at `origin`: inset at both ends,
/// centred vertically.
pub open spec fn track_rect(origin: Point, size: Size) -> Rect {
    let content_width = nonneg(size.width - TRACK_INSET * 2);
    Rect::spec_new(
        origin.x + TRACK_INSET,
        origin.y + div_toward_zero(size.height - TRACK_HEIGHT, 2),
        content_width,
        TRACK_HEIGHT as int,
    )
}

/// The knob a slider of `size` draws at `origin` for `value` of `max`. The
/// knob's left edge moves across the travel, so its centre never quite
/// reaches either end.
pub open spec fn knob_rect(origin: Point, size: Size, value: int, max: int) -> Rect {
    let content_width = nonneg(size.width - TRACK_INSET * 2);
    let m = max_of(max, 1);
    let v = clamp_to(value, 0, m);
    let travel = nonneg(content_width - KNOB_WIDTH);
    Rect::spec_new(
        origin.x + TRACK_INSET + (travel * v) / m,
        origin.y + div_toward_zero(size.height - KNOB_HEIGHT, 2),
        KNOB_WIDTH as int,
        KNOB_HEIGHT as int,
    )
}

/// What a slider of `size` draws at `origin` for `value` of a positive
/// `max`: the track in grey, the filled part of it in black when there is
/// any, then the knob, filled and outlined.
pub open spec fn slider_ops(origin: Point, size: Size, value: int, max: int) -> Seq<DrawOp> {
    let track = track_rect(origin, size);
    let knob = knob_rect(origin, size, value, max);
    let filled = (track.size.width * clamp_to(value, 0, max)) / max;
    seq![DrawOp::FillDither { rect: track, light: true }] + (if filled > 0 {
        seq![
            DrawOp::FillRect {
                rect: Rect::spec_new(
                    track.origin.x as int,
                    track.origin.y as int,
                    filled,
                    track.size.height as int,
                ),
                black: true,
            },
        ]
    } else {
        Seq::empty()
    }) + seq![DrawOp::FillRect { rect: knob, black: true }, DrawOp::StrokeRect { rect: knob }]
}

/// A horizontal slider showing `value` out of `max`.
///
/// Stateless by design: it draws the value it is given and never changes it.
/// The screen owns the value. Give it `on_change` and the framework converts a
/// touch into a value, applying the same rounding the firmware's screens use.
#[verifier::reject_recursive_types(M)]
pub struct Slider<M> {
    value: i32,
    max: i32,
    /// Built when a drag or tap lands on the track; `None` leaves the slider
    /// display-only.
    make: Option<Rc<Box<dyn MakeMessage<M>>>>,
    measured: Size,
}

impl<M> Slider<M> {
    pub closed spec fn spec_value(&self) -> i32 {
        self.value
    }

    pub closed spec fn spec_max(&self) -> i32 {
        self.max
    }

    pub closed spec fn spec_make(&self) -> Option<Rc<Box<dyn MakeMessage<M>>>> {
        self.make
    }

    pub closed spec fn spec_measured(&self) -> Size {
        self.measured
    }

    /// A slider at `value` of `max`. A `max` of zero renders empty rather than
    /// dividing by zero.
    pub fn new(value: i32, max: i32) -> (s: Slider<M>)
        ensures
            s.spec_value() == value,
            s.spec_max() == max,
            s.spec_make() is None,
            s.spec_measured() == Size::zero_spec(),
    {
        Slider { value, max, make: None, measured: Size::zero() }
    }

    /// A slider at `percent` of the way along.
    pub fn percent(percent: i32) -> (s: Slider<M>)
        ensures
            s.spec_value() == clamp_to(percent as int, 0, 100),
            s.spec_max() == 100,
            s.spec_make() is None,
            s.spec_measured() == Size::zero_spec(),
    {
        let clamped = if percent < 0 {
            0
        } else if percent > 100 {
            100
        } else {
            percent
        };
        Slider::new(clamped, 100)
    }

    /// Reports drags and taps by building a message from the new value.
    pub fn on_change(self, make: Rc<Box<dyn MakeMessage<M>>>) -> (s: Slider<M>)
        ensures
            s.spec_value() == self.spec_value(),
            s.spec_max() == self.spec_max(),
            s.spec_make() == Some(make),
            s.spec_measured() == self.spec_measured(),
    {
        let mut s = self;
        s.make = Some(make);
        s
    }

    /// The track and the knob, drawn at `origin`.
    pub fn geometry(&self, origin: Point) -> (r: (Rect, Rect))
        requires
            point_in_range(origin),
            size_in_range(self.spec_measured()),
            self.spec_measured().wf(),
        ensures
            r.0 == track_rect(origin, self.spec_measured()),
            r.1 == knob_rect(origin, self.spec_measured(), self.spec_value() as int, self.spec_max() as int),
    {
        let raw_width = self.measured.width - TRACK_INSET * 2;
        let content_width = if raw_width < 0 {
            0
        } else {
            raw_width
        };
        let content_x = origin.x + TRACK_INSET;

        let track = Rect::new(
            content_x,
            origin.y + (self.measured.height - TRACK_HEIGHT) / 2,
            content_width,
            TRACK_HEIGHT,
        );

        let max = if self.max < 1 {
            1
        } else {
            self.max
        };
        let value = if self.value < 0 {
            0
        } else if self.value > max {
            max
        } else {
            self.value
        };
        let raw_travel = content_width - KNOB_WIDTH;
        let travel = if raw_travel < 0 {
            0
        } else {
            raw_travel
        };
        proof {
            lemma_knob_offset(travel as int, value as int, max as int);
            assert(travel * value <= 0x3fff_ffff * 0x7fff_ffff) by (nonlinear_arith)
                requires
                    0 <= travel <= 0x3fff_ffff,
                    0 <= value <= 0x7fff_ffff,
            ;
        }
        let knob = Rect::new(
            content_x + (travel as i64 * value as i64 / max as i64) as i32,
            origin.y + (self.measured.height - KNOB_HEIGHT) / 2,
            KNOB_WIDTH,
            KNOB_HEIGHT,
        );
        (track, knob)
    }
}

/// The knob never leaves its travel: its offset lies between zero and the
/// travel itself.
pub proof fn lemma_knob_offset(travel: int, value: int, max: int)
    requires
        travel >= 0,
        max >= 1,
        0 <= value <= max,
    ensures
        0 <= (travel * value) / max <= travel,
{
    assert(0 <= travel * value <= travel * max) by (nonlinear_arith)
        requires
            travel >= 0,
            0 <= value <= max,
    ;
    assert((travel * value) / max >= 0) by (nonlinear_arith)
        requires
            travel * value >= 0,
            max >= 1,
    ;
    vstd::arithmetic::div_mod::lemma_div_is_ordered(travel * value, travel * max, max);
    vstd::arithmetic::div_mod::lemma_div_by_multiple(travel, max);
    assert(travel * max == max * travel) by (nonlinear_arith);
    vstd::arithmetic::div_mod::lemma_div_multiples_vanish(travel, max);
}

impl<M> Widget<M> for Slider<M> {
    open spec fn spec_size(&self) -> Size {
        self.spec_measured()
    }

    open spec fn spec_flexible(&self) -> bool {
        false
    }

    open spec fn spec_contributes(&self) -> bool {
        true
    }

    fn is_flexible(&self) -> (b: bool) {
        false
    }

    fn contributes_cross_size(&self) -> (b: bool) {
        true
    }


    /// One themed row tall, so a slider lines up with list rows beside it.
    fn measure(&mut self, available: Size, env: &Env)
        ensures
            final(self).spec_measured() == (Size {
                width: nonneg(available.width as int) as i32,
                height: max_of(env.theme.list_row_height as int, KNOB_HEIGHT as int) as i32,
            }),
            final(self).spec_value() == old(self).spec_value(),
            final(self).spec_max() == old(self).spec_max(),
            final(self).spec_make() == old(self).spec_make(),
    {
        let row_height = env.theme.metric(ThemeMetric::ListRowHeight);
        proof {
            env.theme.lemma_fields();
        }
        let row = if row_height < KNOB_HEIGHT {
            KNOB_HEIGHT
        } else {
            row_height
        };
        self.measured = Size::new(available.width, row);
    }

    fn size(&self) -> (s: Size) {
        self.measured
    }

    /// Touch only: drags so the framework feeds held frames here and nowhere
    /// else, taps so a jab on the track jumps to that value.
    fn interactions(&mut self, origin: Point, out: &mut Interactions<M>, env: &Env)
        ensures
            final(self).spec_value() == old(self).spec_value(),
            final(self).spec_max() == old(self).spec_max(),
            final(self).spec_make() == old(self).spec_make(),
            old(self).spec_make() is None ==> *final(out) == *old(out),
            old(self).spec_make() matches Some(make) ==> !old(out).spec_ignoring()
                ==> final(out).spec_items() == old(out).spec_items().push(
                crate::view::Interaction {
                    rect: Rect { origin, size: old(self).spec_measured() },
                    mask: InputMask(1u8 | 4u8),
                    trigger: Trigger::Value { make, max: old(self).spec_max() },
                },
            ),
    {
        let make = match &self.make {
            Some(make) => share(make),
            None => return ,
        };
        let area = Rect { origin, size: self.measured };
        out.declare(
            area,
            InputMask::tap().union(InputMask::drag()),
            Trigger::Value { make, max: self.max },
        );
    }

    /// A dithered track, a solid fill up to the value, then the knob over both.
    fn render(&self, origin: Point, out: &mut Renderer, env: &Env)
        ensures
            self.spec_measured().is_empty_spec() || self.spec_max() <= 0 ==> final(out).ops@
                == old(out).ops@,
            !(self.spec_measured().is_empty_spec() || self.spec_max() <= 0) ==> final(out).ops@
                == old(out).ops@ + slider_ops(
                origin,
                self.spec_measured(),
                self.spec_value() as int,
                self.spec_max() as int,
            ),
    {
        if self.measured.is_empty() || self.max <= 0 {
            return ;
        }
        let (track, knob) = self.geometry(origin);

        out.fill_rect_dither(track, true);

        let clamped = if self.value < 0 {
            0
        } else if self.value > self.max {
            self.max
        } else {
            self.value
        };
        proof {
            lemma_knob_offset(track.size.width as int, clamped as int, self.max as int);
            assert(track.size.width * clamped <= 0x3fff_ffff * 0x7fff_ffff) by (nonlinear_arith)
                requires
                    0 <= track.size.width <= 0x3fff_ffff,
                    0 <= clamped <= 0x7fff_ffff,
            ;
        }
        let filled = (track.width() as i64 * clamped as i64 / self.max as i64) as i32;
        let ghost dithered = out.ops@;
        if filled > 0 {
            out.fill_rect(Rect::new(track.x(), track.y(), filled, track.height()), true);
        }
        out.fill_rect(knob, true);
        out.stroke_rect(knob);
        proof {
            assert(out.ops@.take(old(out).ops@.len() as int) =~= old(out).ops@);
            assert(filled == (track.size.width * clamp_to(self.value as int, 0, self.max as int)) / (self.max as int));
            assert(out.ops@ =~= old(out).ops@ + slider_ops(
                origin,
                self.spec_measured(),
                self.spec_value() as int,
                self.spec_max() as int,
            ));
        }
    }
}

} // verus!
