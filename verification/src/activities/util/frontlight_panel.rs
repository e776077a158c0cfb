//! The frontlight quick panel.
//!
//! A drop-down over whatever is on screen: brightness and warmth controls that
//! drive the light live, plus sun and moon toggles. The panel decides; the
//! firmware is told through the writes it queues, which the host applies
//! after each frame.
use vstd::prelude::*;

use crate::device::{clamp_percent, DeviceWrite, Display, Frontlight, IconRole};
use crate::host::{translate, translates, Button};
use crate::layout::spacer::Spacer;
use crate::layout::stack::{Alignment, Axis, Stack};
use crate::screen::overlay::{OverlayPanel, Scrim};
use crate::screen::{finish_screen, Requests, Screen};
use crate::units::{div_toward_zero, plain_decimal, push_plain};
use crate::view::{Env, MakeFlag, MakeMessage, Widget};
use crate::widgets::icon_toggle::IconToggle;
use crate::widgets::stepper::Stepper;
use crate::widgets::text::Text;
use std::rc::Rc;

verus! {

/// Everything the panel can be told.
#[derive(Copy, Clone, Debug, PartialEq, Eq, Structural)]
pub enum Msg {
    /// A new absolute value, from dragging or tapping a track.
    Brightness(i32),
    Warmth(i32),
    /// A relative nudge, from the -/+ glyphs or the side buttons.
    StepBrightness(i32),
    StepWarmth(i32),
    /// The state a glyph is moving to, as the toggle reports it.
    Light(bool),
    Inverted(bool),
    Dismiss,
}

/// The writes that switching the light to `on` costs: none when it already is.
pub open spec fn light_writes(light_on: bool, on: bool) -> Seq<DeviceWrite> {
    if light_on == on {
        Seq::empty()
    } else {
        seq![DeviceWrite::LightOn(on)]
    }
}

/// The writes that asking for brightness `target` costs from `brightness`:
/// none when the clamped value is unchanged, else the new value and, since
/// brightness doubles as an "I want light" intent, switching the light on.
pub open spec fn brightness_writes(brightness: i32, light_on: bool, target: int) -> Seq<DeviceWrite> {
    let next = clamp_percent(target);
    if next == brightness {
        Seq::empty()
    } else {
        seq![DeviceWrite::Brightness(next as i32)] + light_writes(light_on, true)
    }
}

/// The writes that asking for warmth `target` costs: the new value, or none
/// when it is unchanged. Warmth never touches the light switch.
pub open spec fn warmth_writes(warmth: i32, target: int) -> Seq<DeviceWrite> {
    let next = clamp_percent(target);
    if next == warmth {
        Seq::empty()
    } else {
        seq![DeviceWrite::Warmth(next as i32)]
    }
}

/// The light's state after asking for brightness `target`.
pub open spec fn light_after_brightness(brightness: i32, light_on: bool, target: int) -> bool {
    light_on || clamp_percent(target) != brightness
}

/// `value` held within 0-100, computed wide so no nudge can overflow.
fn clamp_wide(value: i64) -> (r: i32)
    ensures
        r == clamp_percent(value as int),
{
    if value < 0 {
        0
    } else if value > 100 {
        100
    } else {
        value as i32
    }
}

/// The frontlight panel's state: what the light is doing, as last told to or
/// reported by the firmware, and the writes not yet handed to it.
pub struct FrontlightPanel {
    brightness: i32,
    warmth: i32,
    light_on: bool,
    inverted: bool,
    has_warmth: bool,
    writes: Vec<DeviceWrite>,
}

impl FrontlightPanel {
    pub closed spec fn spec_brightness(&self) -> i32 {
        self.brightness
    }

    pub closed spec fn spec_warmth(&self) -> i32 {
        self.warmth
    }

    pub closed spec fn spec_light_on(&self) -> bool {
        self.light_on
    }

    pub closed spec fn spec_inverted(&self) -> bool {
        self.inverted
    }

    pub closed spec fn spec_has_warmth(&self) -> bool {
        self.has_warmth
    }

    /// The writes queued for the firmware, oldest first.
    pub closed spec fn spec_writes(&self) -> Seq<DeviceWrite> {
        self.writes@
    }

    /// A panel opened on the light as the firmware reports it.
    pub fn new(brightness: i32, warmth: i32, light_on: bool, inverted: bool, has_warmth: bool) -> (p:
        FrontlightPanel)
        ensures
            p.spec_brightness() == brightness,
            p.spec_warmth() == warmth,
            p.spec_light_on() == light_on,
            p.spec_inverted() == inverted,
            p.spec_has_warmth() == has_warmth,
            p.spec_writes() == Seq::<DeviceWrite>::empty(),
    {
        FrontlightPanel { brightness, warmth, light_on, inverted, has_warmth, writes: Vec::new() }
    }

    pub fn brightness(&self) -> (v: i32)
        ensures
            v == self.spec_brightness(),
    {
        self.brightness
    }

    pub fn warmth(&self) -> (v: i32)
        ensures
            v == self.spec_warmth(),
    {
        self.warmth
    }

    pub fn light_on(&self) -> (b: bool)
        ensures
            b == self.spec_light_on(),
    {
        self.light_on
    }

    pub fn inverted(&self) -> (b: bool)
        ensures
            b == self.spec_inverted(),
    {
        self.inverted
    }

    pub fn has_warmth(&self) -> (b: bool)
        ensures
            b == self.spec_has_warmth(),
    {
        self.has_warmth
    }

    /// Hands the queued writes over for the host to apply, oldest first.
    pub fn take_writes(&mut self) -> (w: Vec<DeviceWrite>)
        ensures
            w@ == old(self).spec_writes(),
            final(self).spec_writes() == Seq::<DeviceWrite>::empty(),
            final(self).spec_brightness() == old(self).spec_brightness(),
            final(self).spec_warmth() == old(self).spec_warmth(),
            final(self).spec_light_on() == old(self).spec_light_on(),
            final(self).spec_inverted() == old(self).spec_inverted(),
            final(self).spec_has_warmth() == old(self).spec_has_warmth(),
    {
        let mut taken = Vec::new();
        std::mem::swap(&mut taken, &mut self.writes);
        taken
    }

    /// The firmware's word on inversion after a toggle. It owns the flag, so
    /// the panel takes its report rather than the state the glyph assumed.
    pub fn report_inverted(&mut self, inverted: bool)
        ensures
            final(self).spec_inverted() == inverted,
            final(self).spec_brightness() == old(self).spec_brightness(),
            final(self).spec_warmth() == old(self).spec_warmth(),
            final(self).spec_light_on() == old(self).spec_light_on(),
            final(self).spec_has_warmth() == old(self).spec_has_warmth(),
            final(self).spec_writes() == old(self).spec_writes(),
    {
        self.inverted = inverted;
    }

    /// Switches the light, telling the firmware only on a real change.
    fn set_light(&mut self, on: bool)
        ensures
            final(self).spec_light_on() == on,
            final(self).spec_writes() == old(self).spec_writes() + light_writes(
                old(self).spec_light_on(),
                on,
            ),
            final(self).spec_brightness() == old(self).spec_brightness(),
            final(self).spec_warmth() == old(self).spec_warmth(),
            final(self).spec_inverted() == old(self).spec_inverted(),
            final(self).spec_has_warmth() == old(self).spec_has_warmth(),
    {
        if self.light_on == on {
            assert(self.writes@ + light_writes(old(self).light_on, on) =~= self.writes@);
            return ;
        }
        self.light_on = on;
        Frontlight::set_on(&mut self.writes, on);
    }

    /// Brightness doubles as an "I want light" intent, so raising it turns the
    /// light on. Warmth deliberately does not.
    fn set_brightness(&mut self, value: i32)
        ensures
            final(self).spec_brightness() == clamp_percent(value as int),
            final(self).spec_light_on() == light_after_brightness(
                old(self).spec_brightness(),
                old(self).spec_light_on(),
                value as int,
            ),
            final(self).spec_writes() == old(self).spec_writes() + brightness_writes(
                old(self).spec_brightness(),
                old(self).spec_light_on(),
                value as int,
            ),
            final(self).spec_warmth() == old(self).spec_warmth(),
            final(self).spec_inverted() == old(self).spec_inverted(),
            final(self).spec_has_warmth() == old(self).spec_has_warmth(),
    {
        let next = clamp_wide(value as i64);
        if next == self.brightness {
            assert(self.writes@ + brightness_writes(old(self).brightness, old(self).light_on, value as int)
                =~= self.writes@);
            return ;
        }
        self.brightness = next;
        let ghost pushed = self.writes@;
        Frontlight::set_brightness(&mut self.writes, next);
        assert(clamp_percent(next as int) == next);
        self.set_light(true);
        assert(self.writes@ =~= old(self).writes@ + brightness_writes(
            old(self).brightness,
            old(self).light_on,
            value as int,
        ));
    }

    fn set_warmth(&mut self, value: i32)
        ensures
            final(self).spec_warmth() == clamp_percent(value as int),
            final(self).spec_writes() == old(self).spec_writes() + warmth_writes(
                old(self).spec_warmth(),
                value as int,
            ),
            final(self).spec_brightness() == old(self).spec_brightness(),
            final(self).spec_light_on() == old(self).spec_light_on(),
            final(self).spec_inverted() == old(self).spec_inverted(),
            final(self).spec_has_warmth() == old(self).spec_has_warmth(),
    {
        let next = clamp_wide(value as i64);
        if next == self.warmth {
            assert(self.writes@ + warmth_writes(old(self).warmth, value as int) =~= self.writes@);
            return ;
        }
        self.warmth = next;
        Frontlight::set_warmth(&mut self.writes, next);
        assert(clamp_percent(next as int) == next);
        assert(self.writes@ =~= old(self).writes@ + warmth_writes(old(self).warmth, value as int));
    }
}

/// Builds `Brightness` from a track reading.
struct ToBrightness;

impl MakeMessage<Msg> for ToBrightness {
    open spec fn makes(&self, value: i32, m: Msg) -> bool {
        m == Msg::Brightness(value)
    }

    fn make(&self, value: i32) -> (m: Msg)
        ensures
            m == Msg::Brightness(value),
    {
        Msg::Brightness(value)
    }
}

/// Builds `Warmth` from a track reading.
struct ToWarmth;

impl MakeMessage<Msg> for ToWarmth {
    open spec fn makes(&self, value: i32, m: Msg) -> bool {
        m == Msg::Warmth(value)
    }

    fn make(&self, value: i32) -> (m: Msg)
        ensures
            m == Msg::Warmth(value),
    {
        Msg::Warmth(value)
    }
}

/// Builds `StepBrightness` from a nudge.
struct NudgeBrightness;

impl MakeMessage<Msg> for NudgeBrightness {
    open spec fn makes(&self, delta: i32, m: Msg) -> bool {
        m == Msg::StepBrightness(delta)
    }

    fn make(&self, delta: i32) -> (m: Msg)
        ensures
            m == Msg::StepBrightness(delta),
    {
        Msg::StepBrightness(delta)
    }
}

/// Builds `StepWarmth` from a nudge.
struct NudgeWarmth;

impl MakeMessage<Msg> for NudgeWarmth {
    open spec fn makes(&self, delta: i32, m: Msg) -> bool {
        m == Msg::StepWarmth(delta)
    }

    fn make(&self, delta: i32) -> (m: Msg)
        ensures
            m == Msg::StepWarmth(delta),
    {
        Msg::StepWarmth(delta)
    }
}

/// Builds `Light` from the state the sun glyph is moving to.
struct ToLight;

impl MakeFlag<Msg> for ToLight {
    fn make(&self, on: bool) -> (m: Msg)
        ensures
            m == Msg::Light(on),
    {
        Msg::Light(on)
    }
}

/// Builds `Inverted` from the state the moon glyph is moving to.
struct ToInverted;

impl MakeFlag<Msg> for ToInverted {
    fn make(&self, on: bool) -> (m: Msg)
        ensures
            m == Msg::Inverted(on),
    {
        Msg::Inverted(on)
    }
}

/// A track reading builder, shared the way the framework holds one.
fn maker(make: Box<dyn MakeMessage<Msg>>) -> (shared: Rc<Box<dyn MakeMessage<Msg>>>)
    ensures
        *shared == make,
{
    let ghost given = make;
    let shared = Rc::new(make);
    assert(*shared == given);
    shared
}

/// A reading as the panel labels it: the translated name, two spaces, the
/// value and a percent sign.
fn reading(env: &Env, key: &str, value: i32) -> (text: String)
    ensures
        exists|name: String|
            #[trigger] translates(env.strings, key, name) && text@ == name@ + seq![' ', ' ']
                + plain_decimal(value as int) + seq!['%'],
{
    let mut label = translate(env.strings, key);
    let ghost name = label;
    proof {
        reveal_strlit("  ");
        reveal_strlit("%");
    }
    label.append("  ");
    push_plain(&mut label, value);
    label.append("%");
    assert(label@ =~= name@ + seq![' ', ' '] + plain_decimal(value as int) + seq!['%']);
    label
}

impl FrontlightPanel {
    /// The brightness reading, and the two glyphs standing for inversion and
    /// light. Filled marks the active state: a solid sun means light on.
    fn header_row(&self, env: &Env) -> (row: Stack<Msg>)
        ensures
            row.spec_axis() == Axis::Horizontal,
            row.spec_spacing() == env.theme.vertical_spacing,
            row.spec_alignment() == Alignment::Center,
            row.spec_children().len() == 4,
    {
        let gap = env.theme.vertical_spacing;
        let title = reading(env, "STR_BRIGHTNESS", self.brightness);
        let moon: IconToggle<Msg> = IconToggle::new(IconRole::Moon.icon_ref(), self.inverted, &env.theme).on_change(
            &ToInverted,
        );
        let sun: IconToggle<Msg> = IconToggle::new(IconRole::Sun.icon_ref(), self.light_on, &env.theme).on_change(
            &ToLight,
        );
        Stack::horizontal(gap).push(Box::new(Text::new(title.as_str(), env.fonts))).push(
            Box::new(Spacer::new()),
        ).push(Box::new(moon)).push(Box::new(sun)).align(Alignment::Center)
    }

    /// The brightness track: it shows the brightness, a reading `v` on it
    /// sends `Brightness(v)`, and a nudge `d` sends `StepBrightness(d)`.
    pub fn brightness_control(&self) -> (control: Stepper<Msg>)
        ensures
            control.spec_value() == self.spec_brightness(),
            control.spec_make() matches Some(make) && forall|v: i32, m: Msg|
                #[trigger] (&**make).makes(v, m) <==> m == Msg::Brightness(v),
            control.spec_step() matches Some(step) && forall|d: i32, m: Msg|
                #[trigger] (&**step).makes(d, m) <==> m == Msg::StepBrightness(d),
    {
        Stepper::new(self.brightness).on_change(maker(Box::new(ToBrightness))).on_step(
            maker(Box::new(NudgeBrightness)),
        )
    }

    /// The warmth track: it shows the warmth, a reading `v` on it sends
    /// `Warmth(v)`, and a nudge `d` sends `StepWarmth(d)`.
    pub fn warmth_stepper(&self) -> (control: Stepper<Msg>)
        ensures
            control.spec_value() == self.spec_warmth(),
            control.spec_make() matches Some(make) && forall|v: i32, m: Msg|
                #[trigger] (&**make).makes(v, m) <==> m == Msg::Warmth(v),
            control.spec_step() matches Some(step) && forall|d: i32, m: Msg|
                #[trigger] (&**step).makes(d, m) <==> m == Msg::StepWarmth(d),
    {
        let stepper = Stepper::new(self.warmth).on_change(maker(Box::new(ToWarmth))).on_step(
            maker(Box::new(NudgeWarmth)),
        );
        stepper
    }

    /// Warmth carries its own label, since it appears only on hardware that
    /// has a warm channel and would otherwise be an unexplained second track.
    fn warmth_control(&self, env: &Env) -> (column: Stack<Msg>)
        ensures
            column.spec_axis() == Axis::Vertical,
            column.spec_spacing() == div_toward_zero(env.theme.vertical_spacing as int, 2),
            column.spec_children().len() == 2,
    {
        let gap = env.theme.vertical_spacing;
        let title = reading(env, "STR_WARMTH", self.warmth);
        let stepper = self.warmth_stepper();
        Stack::vertical(gap / 2).push(Box::new(Text::new(title.as_str(), env.fonts))).push(
            Box::new(stepper),
        )
    }
}

impl Screen for FrontlightPanel {
    type Message = Msg;

    type Body = OverlayPanel<Msg, Stack<Msg>>;

    /// The header row and the brightness control, then the warmth control on
    /// hardware that has a warm channel, in a panel over a dimmed screen that
    /// a tap below dismisses.
    fn body(&self, env: &Env) -> (view: OverlayPanel<Msg, Stack<Msg>>)
        ensures
            view.spec_scrim() == Scrim::Dim,
            view.spec_content().spec_axis() == Axis::Vertical,
            view.spec_content().spec_spacing() == env.theme.vertical_spacing,
            view.spec_content().spec_children().len() == if self.spec_has_warmth() { 3nat } else { 2nat },
            view.spec_scrim_tap() == Some(Msg::Dismiss),
            view.spec_title() is None,
    {
        let gap = env.theme.vertical_spacing;
        let column = Stack::vertical(gap).push(Box::new(self.header_row(env))).push(
            Box::new(self.brightness_control()),
        ).push_if(self.has_warmth, Box::new(self.warmth_control(env)));
        OverlayPanel::new(column).scrim(Scrim::Dim).on_scrim_tap(Msg::Dismiss)
    }

    fn update(&mut self, message: Msg, requests: &mut Requests)
        ensures
            final(self).spec_has_warmth() == old(self).spec_has_warmth(),
            match message {
                Msg::Brightness(value) => applied_brightness(*old(self), *final(self), value as int),
                Msg::StepBrightness(delta) => applied_brightness(
                    *old(self),
                    *final(self),
                    old(self).spec_brightness() + delta,
                ),
                Msg::Warmth(value) => applied_warmth(*old(self), *final(self), value as int),
                Msg::StepWarmth(delta) => applied_warmth(
                    *old(self),
                    *final(self),
                    old(self).spec_warmth() + delta,
                ),
                Msg::Light(on) => applied_light(*old(self), *final(self), on),
                Msg::Inverted(_) => {
                    &&& final(self).spec_writes() == old(self).spec_writes().push(
                        DeviceWrite::ToggleInverted,
                    )
                    &&& unchanged_light(*old(self), *final(self))
                    &&& final(self).spec_inverted() == old(self).spec_inverted()
                },
                Msg::Dismiss => {
                    &&& final(self).spec_writes() == old(self).spec_writes()
                    &&& unchanged_light(*old(self), *final(self))
                    &&& final(self).spec_inverted() == old(self).spec_inverted()
                },
            },
            message is Dismiss ==> final(requests).finish,
            !(message is Dismiss) ==> final(requests).finish == old(requests).finish,
            final(requests).update == old(requests).update,
    {
        match message {
            Msg::Brightness(value) => self.set_brightness(value),
            Msg::Warmth(value) => self.set_warmth(value),
            Msg::StepBrightness(delta) => {
                let target = clamp_wide(self.brightness as i64 + delta as i64);
                self.set_brightness(target);
            },
            Msg::StepWarmth(delta) => {
                let target = clamp_wide(self.warmth as i64 + delta as i64);
                self.set_warmth(target);
            },
            Msg::Light(on) => self.set_light(on),
            // The firmware owns this flag: the panel takes its report of the
            // new state once the toggle has been applied.
            Msg::Inverted(_) => Display::toggle_inverted(&mut self.writes),
            Msg::Dismiss => finish_screen(requests),
        }
    }

    /// Confirm is the light switch wherever focus happens to be. Everything
    /// else is left to the runtime: Up/Down move focus between the brightness
    /// and warmth rows, and Left/Right nudge whichever holds it.
    fn on_key(&self, key: Button) -> (m: Option<Msg>)
        ensures
            key == Button::Confirm ==> m == Some(Msg::Light(!self.spec_light_on())),
            key != Button::Confirm ==> m is None,
    {
        match key {
            Button::Confirm => Some(Msg::Light(!self.light_on)),
            _ => None,
        }
    }

    /// The screen underneath stays visible, and a tap on it dismisses.
    fn is_overlay(&self) -> (b: bool)
        ensures
            b,
    {
        true
    }

    /// One write on the way out, not per adjustment: flash has a finite erase
    /// budget.
    fn on_exit(&mut self)
        ensures
            final(self).spec_writes() == old(self).spec_writes().push(DeviceWrite::SaveLight),
            unchanged_light(*old(self), *final(self)),
            final(self).spec_inverted() == old(self).spec_inverted(),
            final(self).spec_has_warmth() == old(self).spec_has_warmth(),
    {
        Frontlight::save(&mut self.writes);
    }

    /// Consumed: the gesture dismisses the panel, not the screen below.
    fn handle_home_gesture(&mut self, requests: &mut Requests) -> (consumed: bool)
        ensures
            consumed,
            final(requests).finish,
            final(requests).update == old(requests).update,
            *final(self) == *old(self),
    {
        finish_screen(requests);
        true
    }
}

/// The light, brightness and warmth are as they were.
pub open spec fn unchanged_light(before: FrontlightPanel, after: FrontlightPanel) -> bool {
    &&& after.spec_brightness() == before.spec_brightness()
    &&& after.spec_warmth() == before.spec_warmth()
    &&& after.spec_light_on() == before.spec_light_on()
}

/// `after` is `before` asked for brightness `target`: held to 0-100, the
/// light switched on by any change, and the firmware told only what changed.
pub open spec fn applied_brightness(before: FrontlightPanel, after: FrontlightPanel, target: int) -> bool {
    &&& after.spec_brightness() == clamp_percent(target)
    &&& after.spec_light_on() == light_after_brightness(
        before.spec_brightness(),
        before.spec_light_on(),
        target,
    )
    &&& after.spec_writes() == before.spec_writes() + brightness_writes(
        before.spec_brightness(),
        before.spec_light_on(),
        target,
    )
    &&& after.spec_warmth() == before.spec_warmth()
    &&& after.spec_inverted() == before.spec_inverted()
}

/// `after` is `before` asked for warmth `target`: held to 0-100, the light
/// left alone, and the firmware told only on a change.
pub open spec fn applied_warmth(before: FrontlightPanel, after: FrontlightPanel, target: int) -> bool {
    &&& after.spec_warmth() == clamp_percent(target)
    &&& after.spec_writes() == before.spec_writes() + warmth_writes(before.spec_warmth(), target)
    &&& after.spec_brightness() == before.spec_brightness()
    &&& after.spec_light_on() == before.spec_light_on()
    &&& after.spec_inverted() == before.spec_inverted()
}

/// `after` is `before` with the light switched to `on`, the firmware told
/// only on a change.
pub open spec fn applied_light(before: FrontlightPanel, after: FrontlightPanel, on: bool) -> bool {
    &&& after.spec_light_on() == on
    &&& after.spec_writes() == before.spec_writes() + light_writes(before.spec_light_on(), on)
    &&& after.spec_brightness() == before.spec_brightness()
    &&& after.spec_warmth() == before.spec_warmth()
    &&& after.spec_inverted() == before.spec_inverted()
}

/// Whatever the panel is asked for, brightness and warmth end up within
/// 0-100.
pub proof fn lemma_levels_in_range(target: int)
    ensures
        0 <= clamp_percent(target) <= 100,
        0 <= target <= 100 ==> clamp_percent(target) == target,
{
}

/// The firmware is told only about real changes: asking for what is already
/// set writes nothing, and any change writes exactly the new value — plus,
/// for brightness, switching on a light that was off.
pub proof fn lemma_writes_only_on_change(level: i32, light_on: bool, target: int, on: bool)
    ensures
        (brightness_writes(level, light_on, target).len() == 0) == (clamp_percent(target) == level),
        (warmth_writes(level, target).len() == 0) == (clamp_percent(target) == level),
        (light_writes(light_on, on).len() == 0) == (light_on == on),
        clamp_percent(target) != level ==> brightness_writes(level, light_on, target)[0]
            == DeviceWrite::Brightness(clamp_percent(target) as i32),
        clamp_percent(target) != level && !light_on ==> brightness_writes(
            level,
            light_on,
            target,
        ) == seq![
            DeviceWrite::Brightness(clamp_percent(target) as i32),
            DeviceWrite::LightOn(true),
        ],
        clamp_percent(target) != level && light_on ==> brightness_writes(level, light_on, target)
            == seq![DeviceWrite::Brightness(clamp_percent(target) as i32)],
{
    if clamp_percent(target) != level {
        assert(seq![DeviceWrite::Brightness(clamp_percent(target) as i32)] + seq![
            DeviceWrite::LightOn(true),
        ] =~= seq![
            DeviceWrite::Brightness(clamp_percent(target) as i32),
            DeviceWrite::LightOn(true),
        ]);
        assert(seq![DeviceWrite::Brightness(clamp_percent(target) as i32)] + Seq::<
            DeviceWrite,
        >::empty() =~= seq![DeviceWrite::Brightness(clamp_percent(target) as i32)]);
    }
}

/// Brightness doubles as an "I want light" intent: any change of it leaves
/// the light on. Warmth never touches the light.
pub proof fn lemma_brightness_turns_light_on(before: FrontlightPanel, after: FrontlightPanel, target: int)
    requires
        applied_brightness(before, after, target),
        clamp_percent(target) != before.spec_brightness(),
    ensures
        after.spec_light_on(),
{
}

/// Asking twice for the same level, or the same light state, changes nothing
/// the second time and tells the firmware nothing more.
pub proof fn lemma_repeat_is_silent(
    first: FrontlightPanel,
    second: FrontlightPanel,
    third: FrontlightPanel,
    target: int,
    on: bool,
)
    ensures
        applied_brightness(first, second, target) && applied_brightness(second, third, target)
            ==> third.spec_writes() == second.spec_writes() && unchanged_light(second, third),
        applied_warmth(first, second, target) && applied_warmth(second, third, target)
            ==> third.spec_writes() == second.spec_writes() && unchanged_light(second, third),
        applied_light(first, second, on) && applied_light(second, third, on) ==> third.spec_writes()
            == second.spec_writes() && unchanged_light(second, third),
{
    if applied_brightness(first, second, target) && applied_brightness(second, third, target) {
        assert(third.spec_writes() =~= second.spec_writes());
    }
    if applied_warmth(first, second, target) && applied_warmth(second, third, target) {
        assert(third.spec_writes() =~= second.spec_writes());
    }
    if applied_light(first, second, on) && applied_light(second, third, on) {
        assert(third.spec_writes() =~= second.spec_writes());
    }
}

/// Away from the ends of the scale, a nudge up followed by a nudge down
/// returns to the level it started from.
pub proof fn lemma_nudges_cancel(level: int)
    requires
        0 <= level < 100,
    ensures
        clamp_percent(clamp_percent(level + 1) - 1) == level,
        clamp_percent(clamp_percent(level + 1)) == level + 1,
{
}

/// At the ends of the scale a nudge outward is absorbed: the level stays put
/// and the firmware is told nothing.
pub proof fn lemma_nudge_at_end_is_silent(light_on: bool)
    ensures
        brightness_writes(100, light_on, 101).len() == 0,
        brightness_writes(0, light_on, -1).len() == 0,
        warmth_writes(100, 101).len() == 0,
        warmth_writes(0, -1).len() == 0,
{
}

/// A reading on the warmth track moves the warmth to it, clamped to
/// 0..=100, and leaves brightness and the light alone; a nudge on it moves the
/// warmth by the nudge. The track shows the warmth it sets.
pub proof fn lemma_warmth_track_sets_warmth(
    panel: FrontlightPanel,
    control: Stepper<Msg>,
    value: i32,
    sent: Msg,
    after: FrontlightPanel,
)
    requires
        call_ensures(FrontlightPanel::warmth_stepper, (&panel,), control),
        (control.spec_make() matches Some(make) && (&**make).makes(value, sent))
            || (control.spec_step() matches Some(step) && (&**step).makes(value, sent)),
        exists|p: &mut FrontlightPanel, r: &mut Requests|
            #[trigger] call_ensures(<FrontlightPanel as Screen>::update, (p, sent, r), ()) && *p == panel
                && *final(p) == after,
    ensures
        control.spec_value() == panel.spec_warmth(),
        after.spec_warmth() == clamp_percent(value as int) || after.spec_warmth() == clamp_percent(
            panel.spec_warmth() + value,
        ),
        sent == Msg::Warmth(value) ==> after.spec_warmth() == clamp_percent(value as int),
        sent == Msg::StepWarmth(value) ==> after.spec_warmth() == clamp_percent(panel.spec_warmth() + value),
        sent is Warmth || sent is StepWarmth,
        after.spec_brightness() == panel.spec_brightness(),
        after.spec_light_on() == panel.spec_light_on(),
{
}

/// A reading on the brightness track moves the brightness to it, clamped to
/// 0..=100, and leaves the warmth alone; a nudge on it moves the brightness
/// by the nudge. The track shows the brightness it sets.
pub proof fn lemma_brightness_track_sets_brightness(
    panel: FrontlightPanel,
    control: Stepper<Msg>,
    value: i32,
    sent: Msg,
    after: FrontlightPanel,
)
    requires
        call_ensures(FrontlightPanel::brightness_control, (&panel,), control),
        (control.spec_make() matches Some(make) && (&**make).makes(value, sent))
            || (control.spec_step() matches Some(step) && (&**step).makes(value, sent)),
        exists|p: &mut FrontlightPanel, r: &mut Requests|
            #[trigger] call_ensures(<FrontlightPanel as Screen>::update, (p, sent, r), ()) && *p == panel
                && *final(p) == after,
    ensures
        control.spec_value() == panel.spec_brightness(),
        sent == Msg::Brightness(value) ==> after.spec_brightness() == clamp_percent(value as int),
        sent == Msg::StepBrightness(value) ==> after.spec_brightness() == clamp_percent(
            panel.spec_brightness() + value,
        ),
        sent is Brightness || sent is StepBrightness,
        after.spec_warmth() == panel.spec_warmth(),
{
}

} // verus!
