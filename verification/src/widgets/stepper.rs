//! A value on a track between `-` and `+` glyphs.
use vstd::prelude::*;

use crate::geometry::{Point, Rect, Size};
use crate::host::{gives_font, FontRole, FontStyle, Renderer, TextMetrics};
use crate::layout::stack::{Alignment, Stack};
use crate::layout::{Flexible, Tappable};
use crate::view::{
    declare_in, declared_one, declares, draw_in, draws, share, Env, InputMask, Interaction, Interactions, MakeMessage, Trigger, Widget,
};
use crate::widgets::slider::Slider;
use crate::widgets::text::Text;
use std::rc::Rc;

verus! {

/// A value out of 100 on a track, with a `-` glyph before it and a `+` glyph
/// after it.
///
/// The whole control is **one** focus stop that Left/Right nudge, however
/// many touch targets it offers: the glyphs step, the track takes drags and
/// taps. Up/Down therefore move between settings rather than walking through
/// the pieces of one.
#[verifier::reject_recursive_types(M)]
pub struct Stepper<M> {
    value: i32,
    /// Built from a touch on the track.
    make: Option<Rc<Box<dyn MakeMessage<M>>>>,
    /// Built from a nudge: `-1` or `+1`.
    step: Option<Rc<Box<dyn MakeMessage<M>>>>,
    /// The glyphs and the track, laid out at the last `measure`.
    row: Stack<M>,
}

impl<M> Stepper<M> {
    pub closed spec fn spec_value(&self) -> i32 {
        self.value
    }

    pub closed spec fn spec_make(&self) -> Option<Rc<Box<dyn MakeMessage<M>>>> {
        self.make
    }

    pub closed spec fn spec_step(&self) -> Option<Rc<Box<dyn MakeMessage<M>>>> {
        self.step
    }

    pub closed spec fn spec_row(&self) -> Stack<M> {
        self.row
    }

    /// A stepper showing `value` out of 100, inert until given messages.
    pub fn new(value: i32) -> (s: Stepper<M>)
        ensures
            s.spec_value() == value,
            s.spec_make() is None,
            s.spec_step() is None,
            s.spec_row().spec_children().len() == 0,
            s.spec_row().spec_measured() == Size::zero_spec(),
    {
        Stepper { value, make: None, step: None, row: Stack::horizontal(0) }
    }

    /// Reports drags and taps on the track by building a message from the
    /// value they land on.
    pub fn on_change(self, make: Rc<Box<dyn MakeMessage<M>>>) -> (s: Stepper<M>)
        ensures
            s.spec_value() == self.spec_value(),
            s.spec_make() == Some(make),
            s.spec_step() == self.spec_step(),
            s.spec_row() == self.spec_row(),
    {
        Stepper { value: self.value, make: Some(make), step: self.step, row: self.row }
    }

    /// Reports nudges — the glyphs, and Left/Right while it holds focus — by
    /// building a message from `-1` or `+1`.
    pub fn on_step(self, step: Rc<Box<dyn MakeMessage<M>>>) -> (s: Stepper<M>)
        ensures
            s.spec_value() == self.spec_value(),
            s.spec_make() == self.spec_make(),
            s.spec_step() == Some(step),
            s.spec_row() == self.spec_row(),
    {
        Stepper { value: self.value, make: self.make, step: Some(step), row: self.row }
    }
}

/// `after` is `before` with the whole control declared as the focus stop
/// that Left/Right nudge, when it has a step builder; `before` unchanged
/// otherwise.
pub open spec fn declared_step<M>(
    before: Interactions<M>,
    after: Interactions<M>,
    step: Option<Rc<Box<dyn MakeMessage<M>>>>,
    origin: Point,
    size: Size,
) -> bool {
    match step {
        Some(make) => declared_one(
            before,
            after,
            Interaction { rect: Rect { origin, size }, mask: InputMask(18), trigger: Trigger::Step { make } },
        ),
        None => after == before,
    }
}

/// A stepper's row, as `shown` records it, begins with a `-` glyph and ends
/// with a `+` glyph; with a step builder, a tap on the `-` sends what it
/// builds for `-1`, and a tap on the `+` what it builds for `+1`; without one,
/// neither glyph responds.
pub open spec fn glyphs_carry_their_sign<M>(
    shown: Seq<(Option<Seq<char>>, Option<M>)>,
    step: Option<Rc<Box<dyn MakeMessage<M>>>>,
) -> bool {
    &&& shown.len() == 3
    &&& shown[0].0 == Some(seq!['-'])
    &&& shown[2].0 == Some(seq!['+'])
    &&& match step {
        Some(make) => {
            &&& shown[0].1 matches Some(m) && (&**make).makes(-1i32, m)
            &&& shown[2].1 matches Some(m) && (&**make).makes(1i32, m)
        },
        None => shown[0].1 is None && shown[2].1 is None,
    }
}

/// One of a stepper's `-`/`+` glyphs: plain text, or text that sends a step
/// when tapped.
#[verifier::reject_recursive_types(M)]
pub enum Glyph<M> {
    Plain(Text),
    Stepping(Tappable<Text, M>),
}

/// A glyph that steps by `delta` when tapped, or a plain glyph when there is
/// nothing to step.
fn glyph<M: Clone + 'static>(
    label: &str,
    delta: i32,
    step: &Option<Rc<Box<dyn MakeMessage<M>>>>,
    fonts: &dyn TextMetrics,
) -> (g: Glyph<M>)
    ensures
        match *step {
            Some(make) => g matches Glyph::Stepping(t) && t.spec_child().spec_content() == label@
                && gives_font(fonts, FontRole::Ui, t.spec_child().spec_font().spec_id())
                && t.spec_child().spec_font().spec_style() == FontStyle::Regular
                && t.spec_child().spec_measured() == Size::zero_spec() && t.spec_mask() == InputMask(1)
                && (&**make).makes(delta, t.spec_message()),
            None => g matches Glyph::Plain(t) && t.spec_content() == label@ && gives_font(
                fonts,
                FontRole::Ui,
                t.spec_font().spec_id(),
            ) && t.spec_font().spec_style() == FontStyle::Regular && t.spec_measured()
                == Size::zero_spec(),
        },
{
    let text = Text::new(label, fonts);
    match step {
        Some(step) => {
            let message = (&***step).make(delta);
            Glyph::Stepping(Tappable::new(text, message).accepting(InputMask::tap()))
        },
        None => Glyph::Plain(text),
    }
}

impl<M: Clone> Widget<M> for Glyph<M> {
    open spec fn spec_size(&self) -> Size {
        match self {
            Glyph::Plain(t) => t.spec_measured(),
            Glyph::Stepping(t) => t.spec_child().spec_measured(),
        }
    }

    open spec fn spec_tap(&self) -> Option<M> {
        match self {
            Glyph::Plain(_) => None,
            Glyph::Stepping(t) => Some(t.spec_message()),
        }
    }

    open spec fn spec_text(&self) -> Option<Seq<char>> {
        match self {
            Glyph::Plain(t) => Some(t.spec_content()),
            Glyph::Stepping(t) => Some(t.spec_child().spec_content()),
        }
    }

    open spec fn spec_flexible(&self) -> bool {
        false
    }

    open spec fn spec_contributes(&self) -> bool {
        true
    }

    fn is_flexible(&self) -> (b: bool) {
        false
    }

    fn contributes_cross_size(&self) -> (b: bool) {
        true
    }

    /// As wide and tall as its text.
    fn measure(&mut self, available: Size, env: &Env)
        ensures
            match *old(self) {
                Glyph::Plain(_) => exists|t: &mut Text|
                    #[trigger] call_ensures(<Text as Widget<M>>::measure, (t, available, env), ())
                        && Glyph::<M>::Plain(*t) == *old(self) && Glyph::<M>::Plain(*final(t)) == *final(self),
                Glyph::Stepping(_) => exists|t: &mut Tappable<Text, M>|
                    #[trigger] call_ensures(<Tappable<Text, M> as Widget<M>>::measure, (t, available, env), ())
                        && Glyph::Stepping(*t) == *old(self) && Glyph::Stepping(*final(t)) == *final(self),
            },
    {
        match self {
            Glyph::Plain(t) => <Text as Widget<M>>::measure(t, available, env),
            Glyph::Stepping(t) => t.measure(available, env),
        }
    }

    fn size(&self) -> (s: Size) {
        match self {
            Glyph::Plain(t) => <Text as Widget<M>>::size(t),
            Glyph::Stepping(t) => t.size(),
        }
    }

    /// Its text, as the text draws itself.
    fn render(&self, origin: Point, out: &mut Renderer, env: &Env)
        ensures
            match *self {
                Glyph::Plain(t) => exists|drawn: &mut Renderer|
                    #[trigger] call_ensures(<Text as Widget<M>>::render, (&t, origin, drawn, env), ())
                        && *drawn == *old(out) && *final(drawn) == *final(out),
                Glyph::Stepping(t) => exists|drawn: &mut Renderer|
                    #[trigger] call_ensures(
                        <Tappable<Text, M> as Widget<M>>::render,
                        (&t, origin, drawn, env),
                        (),
                    ) && *drawn == *old(out) && *final(drawn) == *final(out),
            },
    {
        match self {
            Glyph::Plain(t) => <Text as Widget<M>>::render(t, origin, out, env),
            Glyph::Stepping(t) => t.render(origin, out, env),
        }
    }

    /// Nothing for plain text; the grown tap target for a stepping glyph.
    fn interactions(&mut self, origin: Point, out: &mut Interactions<M>, env: &Env)
        ensures
            match *old(self) {
                Glyph::Plain(_) => *final(out) == *old(out) && *final(self) == *old(self),
                Glyph::Stepping(_) => (*final(self)) is Stepping && exists|
                    t: &mut Tappable<Text, M>,
                    declared: &mut Interactions<M>,
                |
                    #[trigger] call_ensures(
                        <Tappable<Text, M> as Widget<M>>::interactions,
                        (t, origin, declared, env),
                        (),
                    ) && Glyph::Stepping(*t) == *old(self) && Glyph::Stepping(*final(t)) == *final(self)
                        && *declared == *old(out) && *final(declared) == *final(out),
            },
    {
        match self {
            Glyph::Plain(t) => <Text as Widget<M>>::interactions(t, origin, out, env),
            Glyph::Stepping(t) => t.interactions(origin, out, env),
        }
    }
}

impl<M: Clone + 'static> Widget<M> for Stepper<M> {
    open spec fn spec_size(&self) -> Size {
        self.spec_row().spec_measured()
    }

    open spec fn spec_flexible(&self) -> bool {
        false
    }

    open spec fn spec_contributes(&self) -> bool {
        true
    }

    fn is_flexible(&self) -> (b: bool) {
        false
    }

    fn contributes_cross_size(&self) -> (b: bool) {
        true
    }

    /// The `-` glyph, the track taking whatever the glyphs leave, and the
    /// `+` glyph, in a row centred across, the theme's spacing apart.
    fn measure(&mut self, available: Size, env: &Env)
        ensures
            final(self).spec_value() == old(self).spec_value(),
            final(self).spec_make() == old(self).spec_make(),
            final(self).spec_step() == old(self).spec_step(),
            final(self).spec_row().spec_children().len() == 3,
            final(self).spec_row().spec_alignment() == Alignment::Center,
            glyphs_carry_their_sign(final(self).spec_row().spec_shown(), old(self).spec_step()),
    {
        let mut track: Slider<M> = Slider::new(self.value, 100);
        match &self.make {
            Some(make) => {
                track = track.on_change(share(make));
            },
            None => {},
        }
        let minus = glyph("-", -1, &self.step, env.fonts);
        let plus = glyph("+", 1, &self.step, env.fonts);
        proof {
            reveal_strlit("-");
            reveal_strlit("+");
        }
        let ghost signs = (minus.spec_text(), minus.spec_tap());
        let led = Stack::horizontal(env.theme.vertical_spacing).align(Alignment::Center).push_widget(minus);
        let tracked_row = led.push(Box::new(Flexible::new(track)));
        proof {
            assert(tracked_row.spec_shown()[0] == tracked_row.spec_shown().take(1)[0]);
        }
        let row = tracked_row.push_widget(plus);
        proof {
            assert(row.spec_shown()[0] == tracked_row.spec_shown()[0]);
            assert(row.spec_shown()[0] == signs);
            assert(row.spec_shown().len() == 3);
            assert(row.spec_shown()[0].0 == Some(seq!['-']));
            assert(row.spec_shown()[2].0 == Some(seq!['+']));
            assert(glyphs_carry_their_sign(row.spec_shown(), self.spec_step()));
        }
        self.row = row;
        self.row.measure(available, env);
    }

    fn size(&self) -> (s: Size) {
        self.row.size()
    }

    /// The row of glyphs and track, as the row draws it.
    fn render(&self, origin: Point, out: &mut Renderer, env: &Env)
        ensures
            exists|drawn: &mut Renderer|
                #[trigger] draws(&self.spec_row(), origin, drawn, env) && *drawn == *old(out) && *final(drawn)
                    == *final(out),
    {
        draw_in(&self.row, origin, out, env);
    }

    /// The whole control as the focus stop that Left/Right nudge, declared
    /// first, then the glyphs and the track as touch targets only.
    fn interactions(&mut self, origin: Point, out: &mut Interactions<M>, env: &Env)
        ensures
            final(self).spec_value() == old(self).spec_value(),
            final(self).spec_make() == old(self).spec_make(),
            final(self).spec_step() == old(self).spec_step(),
            exists|mid: Interactions<M>|
                #[trigger] declared_step(*old(out), mid, old(self).spec_step(), origin, old(self).spec_row().spec_measured())
                    && exists|row: &mut Stack<M>, declared: &mut Interactions<M>|
                    #[trigger] declares(row, origin, declared, env) && *row == old(self).spec_row()
                        && *final(row) == final(self).spec_row() && *declared == mid && *final(declared)
                        == *final(out),
    {
        let ghost start = *out;
        match &self.step {
            Some(step) => {
                let area = Rect { origin, size: self.row.size() };
                out.declare(
                    area,
                    InputMask::focus().union(InputMask::adjust()),
                    Trigger::Step { make: share(step) },
                );
            },
            None => {},
        }
        proof {
            assert(InputMask(2u8 | 16u8) == InputMask(18)) by {
                assert(2u8 | 16u8 == 18u8) by (bit_vector);
            }
            assert(declared_step(start, *out, self.spec_step(), origin, self.spec_row().spec_measured()));
        }
        declare_in(&mut self.row, origin, out, env);
    }
}

/// A stepper's end glyphs carry the sign they show: once measured, its row
/// of three begins with a `-` whose tap sends what the step builder makes of
/// `-1` and ends with a `+` whose tap sends what it makes of `+1`; a stepper
/// with no step builder shows the same glyphs, and neither responds.
pub proof fn lemma_stepper_glyphs_carry_their_sign<M: Clone + 'static>(
    before: Stepper<M>,
    after: Stepper<M>,
    available: Size,
    env: &Env,
)
    requires
        exists|s: &mut Stepper<M>|
            #[trigger] call_ensures(<Stepper<M> as Widget<M>>::measure, (s, available, env), ()) && *s == before
                && *final(s) == after,
    ensures
        after.spec_row().spec_children().len() == 3,
        after.spec_row().spec_shown().len() == 3,
        after.spec_row().spec_shown()[0].0 == Some(seq!['-']),
        after.spec_row().spec_shown()[2].0 == Some(seq!['+']),
        after.spec_step() == before.spec_step(),
        before.spec_step() matches Some(make) ==> {
            &&& after.spec_row().spec_shown()[0].1 matches Some(m) && (&**make).makes(-1i32, m)
            &&& after.spec_row().spec_shown()[2].1 matches Some(m) && (&**make).makes(1i32, m)
        },
        before.spec_step() is None ==> after.spec_row().spec_shown()[0].1 is None
            && after.spec_row().spec_shown()[2].1 is None,
{
}

} // verus!
